//! The Groth16 verifier: the public inputs are checked to be field
//! elements, the Pedersen commitments of the proof are checked and their
//! wires appended to the inputs, the inputs are folded into one point of G1
//! along the IC vector, and one pairing check decides.

use crate::bytes::{be_value, write_at};
use crate::commitments::{
    batch_verify_pedersen, challenge_of, entries_view, get_challenge, indices_in_range,
    pedersen_outcome, solved_witness,
};
use crate::error::{GnarkError, PedersenFailure};
use crate::field::{fr_modulus, is_canonical_be};
use crate::gnark_proof::{proof_length_ok, GnarkProof};
use crate::points::{negate_g1, negated_g1};
use crate::syscalls::{
    alt_bn128_addition, alt_bn128_multiplication, alt_bn128_pairing, g1_product, g1_sum,
    pairing_accepts,
};
use crate::vk::GnarkVerifyingKey;
use crate::witness::GnarkWitness;
use vstd::prelude::*;
use vstd::slice::slice_subrange;

verus! {

/// Whether every entry is a field element in canonical form: a big-endian
/// number below `r`.
pub open spec fn all_canonical(xs: Seq<Seq<u8>>) -> bool {
    forall|i: int| 0 <= i < xs.len() ==> be_value(#[trigger] xs[i]) < fr_modulus()
}

/// The point `IC[0] + x_1 * IC[1] + ... + x_n * IC[n]`, folded from the
/// left: each term is a scalar multiplication, added to the sum so far. The
/// first operation that is refused ends the fold with its failure.
pub open spec fn linear_combination(ic: Seq<[u8; 64]>, xs: Seq<Seq<u8>>, n: nat) -> Result<
    Seq<u8>,
    GnarkError,
>
    decreases n,
{
    if n == 0 {
        Ok(ic[0]@)
    } else {
        match linear_combination(ic, xs, (n - 1) as nat) {
            Err(e) => Err(e),
            Ok(sum) => match g1_product(ic[n as int]@ + xs[n - 1]) {
                None => Err(GnarkError::PreparingInputsG1MulFailed),
                Some(term) => match g1_sum(sum + term) {
                    None => Err(GnarkError::PreparingInputsG1AdditionFailed),
                    Some(next) => Ok(next),
                },
            },
        }
    }
}

/// The input of the final pairing check: `-A` with `B`, the folded inputs
/// with gamma, `C` with delta, and alpha with beta.
pub open spec fn final_pairing_input(
    vk: GnarkVerifyingKey,
    proof: GnarkProof,
    negated_a: Seq<u8>,
    inputs_point: Seq<u8>,
) -> Seq<u8> {
    negated_a + proof.bs@ + inputs_point + vk.gamma_g2@ + proof.krs@ + vk.delta_g2@
        + vk.alpha_g1@ + vk.beta_g2@
}

/// How the verification ends once the witness is complete: with the
/// failure of the fold, if it fails, else by the final pairing check.
pub open spec fn final_outcome(vk: GnarkVerifyingKey, proof: GnarkProof, xs: Seq<Seq<u8>>) -> Result<
    (),
    GnarkError,
> {
    match linear_combination(vk.ic@, xs, xs.len()) {
        Err(e) => Err(e),
        Ok(inputs_point) => match negated_g1(proof.ar@) {
            None => Err(GnarkError::ProofVerificationFailed),
            Some(negated_a) => if pairing_accepts(
                final_pairing_input(vk, proof, negated_a, inputs_point),
            ) {
                Ok(())
            } else {
                Err(GnarkError::ProofVerificationFailed)
            },
        },
    }
}

/// How the verification of a proof against a key and a witness ends.
pub open spec fn verification_outcome(
    vk: GnarkVerifyingKey,
    proof: GnarkProof,
    witness: GnarkWitness,
) -> Result<(), GnarkError> {
    let xs = entries_view(witness.entries@);
    if witness.entries@.len() != vk.nr_pubinputs || vk.ic@.len() != vk.nr_pubinputs + 1
        + vk.pedersen_params@.len() {
        Err(GnarkError::IncompatibleVerifyingKeyWithNrPublicInputs)
    } else if !all_canonical(xs) {
        Err(GnarkError::PublicInputGreaterThanFieldSize)
    } else if proof.commitments@.len() == 0 {
        if vk.pedersen_params@.len() != 0 {
            Err(GnarkError::IncompatibleVerifyingKeyWithNrPublicInputs)
        } else {
            final_outcome(vk, proof, xs)
        }
    } else if proof.commitments@.len() != vk.pedersen_params@.len() {
        Err(GnarkError::PedersenVerificationError(PedersenFailure::CommitmentsLenMismatch))
    } else if vk.committed_indices@.len() != vk.pedersen_params@.len() || !indices_in_range(
        vk.committed_indices@,
        xs.len(),
    ) {
        Err(GnarkError::IncompatibleVerifyingKeyWithNrPublicInputs)
    } else {
        match pedersen_outcome(
            vk.pedersen_params@,
            proof.commitments@,
            proof.commitment_pok@,
            challenge_of(vk.committed_indices@, proof.commitments@, xs),
        ) {
            Err(e) => Err(e),
            Ok(_) => final_outcome(
                vk,
                proof,
                solved_witness(
                    vk.committed_indices@,
                    proof.commitments@,
                    xs,
                    vk.committed_indices@.len(),
                ),
            ),
        }
    }
}

/// Whether every index of every group names an entry that the witness
/// holds when the group is reached.
pub fn check_indices(groups: &Vec<Vec<u64>>, witness_len: usize) -> (ok: bool)
    ensures
        ok <==> indices_in_range(groups@, witness_len as nat),
{
    let mut g: usize = 0;
    while g < groups.len()
        invariant
            g <= groups@.len(),
            forall|h: int, j: int|
                0 <= h < g && 0 <= j < groups@[h]@.len() ==> 1 <= #[trigger] groups@[h]@[j]
                    <= witness_len + h,
        decreases groups@.len() - g,
    {
        let group = &groups[g];
        let mut j: usize = 0;
        while j < group.len()
            invariant
                j <= group@.len(),
                g < groups@.len(),
                group@ == groups@[g as int]@,
                forall|i: int| 0 <= i < j ==> 1 <= #[trigger] group@[i] <= witness_len + g,
            decreases group@.len() - j,
        {
            let index: u64 = group[j];
            if index < 1 || index as u128 > witness_len as u128 + g as u128 {
                assert(!(1 <= groups@[g as int]@[j as int] <= witness_len + g));
                return false;
            }
            j += 1;
        }
        g += 1;
    }
    true
}

/// Folds the inputs into one point of G1 along the IC vector, which holds
/// one element more than there are inputs.
pub fn prepare_inputs(ic: &Vec<[u8; 64]>, inputs: &Vec<[u8; 32]>) -> (point: Result<
    [u8; 64],
    GnarkError,
>)
    requires
        ic@.len() == inputs@.len() + 1,
    ensures
        match point {
            Ok(p) => linear_combination(ic@, entries_view(inputs@), inputs@.len()) == Ok::<
                Seq<u8>,
                GnarkError,
            >(p@),
            Err(e) => linear_combination(ic@, entries_view(inputs@), inputs@.len()) == Err::<
                Seq<u8>,
                GnarkError,
            >(e),
        },
{
    let ghost xs = entries_view(inputs@);
    let mut prepared: [u8; 64] = ic[0];
    let mut i: usize = 0;
    while i < inputs.len()
        invariant
            i <= inputs@.len(),
            ic@.len() == inputs@.len() + 1,
            xs == entries_view(inputs@),
            linear_combination(ic@, xs, i as nat) == Ok::<Seq<u8>, GnarkError>(prepared@),
        decreases inputs@.len() - i,
    {
        let mut operands = [0u8; 96];
        write_at(&mut operands, 0, ic[i + 1].as_slice());
        write_at(&mut operands, 64, inputs[i].as_slice());
        assert(operands@ =~= ic@[i + 1]@ + xs[i as int]);
        let term = match alt_bn128_multiplication(&operands) {
            Ok(term) => term,
            Err(_) => {
                proof {
                    lemma_fold_failure(ic@, xs, (i + 1) as nat, inputs@.len());
                }
                return Err(GnarkError::PreparingInputsG1MulFailed);
            },
        };
        let mut summands = [0u8; 128];
        write_at(&mut summands, 0, prepared.as_slice());
        write_at(&mut summands, 64, term.as_slice());
        assert(summands@ =~= prepared@ + term@);
        prepared = match alt_bn128_addition(&summands) {
            Ok(sum) => sum,
            Err(_) => {
                proof {
                    lemma_fold_failure(ic@, xs, (i + 1) as nat, inputs@.len());
                }
                return Err(GnarkError::PreparingInputsG1AdditionFailed);
            },
        };
        i += 1;
    }
    Ok(prepared)
}

/// A fold that has failed after `k` inputs fails in the same way after any
/// more.
pub proof fn lemma_fold_failure(ic: Seq<[u8; 64]>, xs: Seq<Seq<u8>>, k: nat, n: nat)
    requires
        k <= n,
        linear_combination(ic, xs, k) is Err,
    ensures
        linear_combination(ic, xs, n) == linear_combination(ic, xs, k),
    decreases n,
{
    if k < n {
        lemma_fold_failure(ic, xs, k, (n - 1) as nat);
    }
}

/// A verifier for the proofs of one circuit, given by its verifying key.
pub struct GnarkVerifier<'a> {
    vk: &'a GnarkVerifyingKey,
}

impl<'a> GnarkVerifier<'a> {
    /// The key that the verifier verifies against.
    pub closed spec fn key(&self) -> GnarkVerifyingKey {
        *self.vk
    }

    /// A verifier against `vk`.
    pub fn new(vk: &'a GnarkVerifyingKey) -> (verifier: GnarkVerifier<'a>)
        ensures
            verifier.key() == *vk,
    {
        GnarkVerifier { vk }
    }

    /// Verifies a proof against the key and the public inputs.
    pub fn verify(&self, proof: GnarkProof, public_inputs: GnarkWitness) -> (outcome: Result<
        (),
        GnarkError,
    >)
        ensures
            outcome == verification_outcome(self.key(), proof, public_inputs),
    {
        let vk = self.vk;
        let nr: usize = vk.nr_pubinputs;
        let ghost given = public_inputs;
        let ghost xs = entries_view(public_inputs.entries@);
        if public_inputs.entries.len() != nr || vk.ic.len() < 1 || vk.ic.len() - 1
            < vk.pedersen_params.len() || vk.ic.len() - 1 - vk.pedersen_params.len() != nr {
            return Err(GnarkError::IncompatibleVerifyingKeyWithNrPublicInputs);
        }
        let mut i: usize = 0;
        while i < public_inputs.entries.len()
            invariant
                i <= public_inputs.entries@.len(),
                given == public_inputs,
                xs == entries_view(public_inputs.entries@),
                *vk == self.key(),
                public_inputs.entries@.len() == vk.nr_pubinputs,
                vk.ic@.len() == vk.nr_pubinputs + 1 + vk.pedersen_params@.len(),
                forall|h: int| 0 <= h < i ==> be_value(#[trigger] xs[h]) < fr_modulus(),
            decreases public_inputs.entries@.len() - i,
        {
            if !is_canonical_be(&public_inputs.entries[i]) {
                assert(!(be_value(xs[i as int]) < fr_modulus()));
                assert(!all_canonical(xs));
                return Err(GnarkError::PublicInputGreaterThanFieldSize);
            }
            i += 1;
        }
        assert(all_canonical(xs));

        let mut public_witness: Vec<[u8; 32]> = public_inputs.entries;
        assert(entries_view(public_witness@) == xs);
        if proof.commitments.len() == 0 {
            if vk.pedersen_params.len() != 0 {
                return Err(GnarkError::IncompatibleVerifyingKeyWithNrPublicInputs);
            }
        } else {
            if proof.commitments.len() != vk.pedersen_params.len() {
                return Err(
                    GnarkError::PedersenVerificationError(
                        PedersenFailure::CommitmentsLenMismatch,
                    ),
                );
            }
            if vk.committed_indices.len() != vk.pedersen_params.len() || !check_indices(
                &vk.committed_indices,
                nr,
            ) {
                return Err(GnarkError::IncompatibleVerifyingKeyWithNrPublicInputs);
            }
            let challenge = match get_challenge(
                &vk.committed_indices,
                &proof.commitments,
                &mut public_witness,
            ) {
                Ok(challenge) => challenge,
                Err(e) => {
                    return Err(e);
                },
            };
            match batch_verify_pedersen(
                &vk.pedersen_params,
                &proof.commitments,
                &proof.commitment_pok,
                challenge,
            ) {
                Ok(_) => {},
                Err(e) => {
                    return Err(e);
                },
            }
        }
        let ghost complete = entries_view(public_witness@);
        assert(final_outcome(*vk, proof, complete) == verification_outcome(*vk, proof, given));

        let inputs_point = match prepare_inputs(&vk.ic, &public_witness) {
            Ok(point) => point,
            Err(e) => {
                return Err(e);
            },
        };
        let negated_a = match negate_g1(&proof.ar) {
            Some(negated) => negated,
            None => {
                return Err(GnarkError::ProofVerificationFailed);
            },
        };
        let mut pairing_input: Vec<u8> = Vec::with_capacity(768);
        pairing_input.extend_from_slice(negated_a.as_slice());
        pairing_input.extend_from_slice(proof.bs.as_slice());
        pairing_input.extend_from_slice(inputs_point.as_slice());
        pairing_input.extend_from_slice(vk.gamma_g2.as_slice());
        pairing_input.extend_from_slice(proof.krs.as_slice());
        pairing_input.extend_from_slice(vk.delta_g2.as_slice());
        pairing_input.extend_from_slice(vk.alpha_g1.as_slice());
        pairing_input.extend_from_slice(vk.beta_g2.as_slice());
        assert(pairing_input@ =~= final_pairing_input(*vk, proof, negated_a@, inputs_point@));
        match alt_bn128_pairing(pairing_input.as_slice()) {
            Ok(pairing_res) => {
                if pairing_res[31] != 1 {
                    return Err(GnarkError::ProofVerificationFailed);
                }
                Ok(())
            },
            Err(_) => Err(GnarkError::ProofVerificationFailed),
        }
    }
}

/// The outcome of a verification depends on the proof and the witness by
/// what they hold alone: two proofs and two witnesses parsed from the same
/// bytes end the same way.
pub proof fn lemma_parse_determines_outcome(
    vk: GnarkVerifyingKey,
    proof_bytes: Seq<u8>,
    witness_bytes: Seq<u8>,
    p1: GnarkProof,
    w1: GnarkWitness,
    p2: GnarkProof,
    w2: GnarkWitness,
)
    requires
        p1.is_parse_of(proof_bytes),
        p2.is_parse_of(proof_bytes),
        w1.is_parse_of(witness_bytes),
        w2.is_parse_of(witness_bytes),
    ensures
        verification_outcome(vk, p1, w1) == verification_outcome(vk, p2, w2),
{
    assert(p1.commitments@ =~= p2.commitments@) by {
        assert forall|k: int| 0 <= k < p1.commitments@.len() implies p1.commitments@[k]
            == p2.commitments@[k] by {
            assert(p1.commitments@[k]@ == p2.commitments@[k]@);
            assert(p1.commitments@[k] =~= p2.commitments@[k]);
        }
    }
    assert(w1.entries@ =~= w2.entries@) by {
        assert forall|k: int| 0 <= k < w1.entries@.len() implies w1.entries@[k]
            == w2.entries@[k] by {
            assert(w1.entries@[k]@ == w2.entries@[k]@);
            assert(w1.entries@[k] =~= w2.entries@[k]);
        }
    }
}

/// The part of instruction data that is the proof: all but the public
/// witness at its end.
pub open spec fn instruction_proof_bytes(vk: GnarkVerifyingKey, data: Seq<u8>) -> Seq<u8> {
    data.subrange(0, data.len() - (12 + 32 * vk.nr_pubinputs))
}

/// The part of instruction data that is the public witness: the header
/// and one element for each public input of the key, at the end.
pub open spec fn instruction_witness_bytes(vk: GnarkVerifyingKey, data: Seq<u8>) -> Seq<u8> {
    data.subrange(data.len() - (12 + 32 * vk.nr_pubinputs), data.len() as int)
}

/// The entry point of a verifier program for the circuit of `vk`: the
/// instruction data is a proof followed by a public witness, and is at
/// least as long as the witness. A proof part that has not the length of a
/// proof ends the verification as a conversion error; else the proof and
/// the witness that the data holds are verified.
pub fn process_instruction(vk: &GnarkVerifyingKey, instruction_data: &[u8]) -> (outcome: Result<
    (),
    GnarkError,
>)
    requires
        instruction_data@.len() >= 12 + 32 * vk.nr_pubinputs,
    ensures
        !proof_length_ok(instruction_proof_bytes(*vk, instruction_data@)) ==> outcome == Err::<
            (),
            GnarkError,
        >(GnarkError::ProofConversionError),
        proof_length_ok(instruction_proof_bytes(*vk, instruction_data@)) ==> forall|
            proof: GnarkProof,
            witness: GnarkWitness,
        |
            #![trigger verification_outcome(*vk, proof, witness)]
            proof.is_parse_of(instruction_proof_bytes(*vk, instruction_data@))
                && witness.is_parse_of(instruction_witness_bytes(*vk, instruction_data@))
                ==> outcome == verification_outcome(*vk, proof, witness),
        proof_length_ok(instruction_proof_bytes(*vk, instruction_data@)) ==> exists|
            proof: GnarkProof,
            witness: GnarkWitness,
        |
            #![trigger proof.is_parse_of(instruction_proof_bytes(*vk, instruction_data@)), witness.is_parse_of(instruction_witness_bytes(*vk, instruction_data@))]
            proof.is_parse_of(instruction_proof_bytes(*vk, instruction_data@))
                && witness.is_parse_of(instruction_witness_bytes(*vk, instruction_data@)),
{
    let nr: usize = vk.nr_pubinputs;
    assert(12 + 32 * nr <= instruction_data.len());
    let proof_len: usize = instruction_data.len() - (12 + nr * 32);
    let proof_bytes = slice_subrange(instruction_data, 0, proof_len);
    let proof = match GnarkProof::from_bytes(proof_bytes) {
        Ok(proof) => proof,
        Err(e) => {
            return Err(e);
        },
    };
    let public_witness_bytes = slice_subrange(instruction_data, proof_len, instruction_data.len());
    let public_witness = match GnarkWitness::from_bytes(public_witness_bytes, nr) {
        Ok(witness) => witness,
        Err(e) => {
            return Err(e);
        },
    };
    let verifier = GnarkVerifier::new(vk);
    let ghost parsed_proof = proof;
    let ghost parsed_witness = public_witness;
    let outcome = verifier.verify(proof, public_witness);
    assert(verification_outcome(*vk, parsed_proof, parsed_witness) == outcome);
    assert(parsed_proof.is_parse_of(instruction_proof_bytes(*vk, instruction_data@))
        && parsed_witness.is_parse_of(instruction_witness_bytes(*vk, instruction_data@)));
    assert forall|p: GnarkProof, w: GnarkWitness|
        #![trigger verification_outcome(*vk, p, w)]
        p.is_parse_of(instruction_proof_bytes(*vk, instruction_data@)) && w.is_parse_of(
            instruction_witness_bytes(*vk, instruction_data@),
        ) implies outcome == verification_outcome(*vk, p, w) by {
        lemma_parse_determines_outcome(
            *vk,
            instruction_proof_bytes(*vk, instruction_data@),
            instruction_witness_bytes(*vk, instruction_data@),
            parsed_proof,
            parsed_witness,
            p,
            w,
        );
    }
    outcome
}

} // verus!
