//! gnark's Pedersen commitments: the derivation of the committed wires and
//! of the Fiat-Shamir challenge, and the batched pairing check of the
//! proof of knowledge.

use crate::bytes::{be_bytes, bytes_equal, copy_array, lemma_be_value_bytes, write_at};
use crate::error::{GnarkError, PedersenFailure};
use crate::field::{fr_modulus, values, FieldElement};
use crate::hash::{field_elements_of, hash_to_field, WrappedHashToField};
use crate::syscalls::{alt_bn128_multiplication, alt_bn128_pairing, g1_product, pairing};
use vstd::prelude::*;
use vstd::slice::slice_subrange;

verus! {

/// The tag under which a commitment is hashed to its wire: the bytes of
/// `bsb22-commitment`.
pub const COMMITMENT_DST: [u8; 16] = [
    98, 115, 98, 50, 50, 45, 99, 111, 109, 109, 105, 116, 109, 101, 110, 116,
];

/// The tag under which the wires are hashed to the challenge: the bytes of
/// `G16-BSB22`.
pub const CHALLENGE_DST: [u8; 9] = [71, 49, 54, 45, 66, 83, 66, 50, 50];

/// The entries of a witness as byte strings.
pub open spec fn entries_view(entries: Seq<[u8; 32]>) -> Seq<Seq<u8>> {
    Seq::new(entries.len(), |i: int| entries[i]@)
}

/// Whether every index of every group names an entry that the witness
/// holds when the group is reached: the public inputs and one derived wire
/// for each group before it. Indices count from 1.
pub open spec fn indices_in_range(groups: Seq<Vec<u64>>, witness_len: nat) -> bool {
    forall|g: int, j: int|
        0 <= g < groups.len() && 0 <= j < groups[g]@.len() ==> 1 <= #[trigger] groups[g]@[j]
            <= witness_len + g
}

/// The witness entries that a group of indices names, one after the other.
pub open spec fn committed_values(indices: Seq<u64>, witness: Seq<Seq<u8>>) -> Seq<u8>
    decreases indices.len(),
{
    if indices.len() == 0 {
        Seq::empty()
    } else {
        committed_values(indices.drop_last(), witness) + witness[indices.last() - 1]
    }
}

/// The wire of a commitment: the commitment and the entries it commits to,
/// hashed to one field element under `COMMITMENT_DST`, in 32 big-endian
/// bytes.
pub open spec fn commitment_wire(commitment: Seq<u8>, indices: Seq<u64>, witness: Seq<Seq<u8>>) -> Seq<
    u8,
> {
    be_bytes(
        field_elements_of(
            commitment + committed_values(indices, witness),
            COMMITMENT_DST@,
            1,
        )[0],
        32,
    )
}

/// The witness after the wires of the first `n` commitments are appended,
/// each derived from the witness as it stands when its turn comes.
pub open spec fn solved_witness(
    groups: Seq<Vec<u64>>,
    commitments: Seq<[u8; 64]>,
    witness: Seq<Seq<u8>>,
    n: nat,
) -> Seq<Seq<u8>>
    decreases n,
{
    if n == 0 {
        witness
    } else {
        let before = solved_witness(groups, commitments, witness, (n - 1) as nat);
        before.push(commitment_wire(commitments[n - 1]@, groups[n - 1]@, before))
    }
}

/// The wires of the first `n` commitments, one after the other.
pub open spec fn serialized_wires(
    groups: Seq<Vec<u64>>,
    commitments: Seq<[u8; 64]>,
    witness: Seq<Seq<u8>>,
    n: nat,
) -> Seq<u8>
    decreases n,
{
    if n == 0 {
        Seq::empty()
    } else {
        serialized_wires(groups, commitments, witness, (n - 1) as nat) + commitment_wire(
            commitments[n - 1]@,
            groups[n - 1]@,
            solved_witness(groups, commitments, witness, (n - 1) as nat),
        )
    }
}

/// The Fiat-Shamir challenge: the wires of all commitments hashed to one
/// field element under `CHALLENGE_DST`.
pub open spec fn challenge_of(
    groups: Seq<Vec<u64>>,
    commitments: Seq<[u8; 64]>,
    witness: Seq<Seq<u8>>,
) -> nat {
    field_elements_of(
        serialized_wires(groups, commitments, witness, groups.len()),
        CHALLENGE_DST@,
        1,
    )[0]
}

/// Derives the wire of every commitment, appends each to the witness, and
/// returns the wires one after the other.
pub fn solve_commitment_wire(
    vk_public_and_commitment_committed: &Vec<Vec<u64>>,
    proof_commitments: &Vec<[u8; 64]>,
    public_witness: &mut Vec<[u8; 32]>,
) -> (commitments_serialized: Vec<u8>)
    requires
        vk_public_and_commitment_committed@.len() <= proof_commitments@.len(),
        indices_in_range(vk_public_and_commitment_committed@, old(public_witness)@.len()),
    ensures
        entries_view(final(public_witness)@) == solved_witness(
            vk_public_and_commitment_committed@,
            proof_commitments@,
            entries_view(old(public_witness)@),
            vk_public_and_commitment_committed@.len(),
        ),
        final(public_witness)@.len() == old(public_witness)@.len()
            + vk_public_and_commitment_committed@.len(),
        commitments_serialized@ == serialized_wires(
            vk_public_and_commitment_committed@,
            proof_commitments@,
            entries_view(old(public_witness)@),
            vk_public_and_commitment_committed@.len(),
        ),
{
    let ghost groups = vk_public_and_commitment_committed@;
    let ghost start = entries_view(public_witness@);
    let ghost start_len = public_witness@.len();
    let dst = COMMITMENT_DST;
    let mut hash_to_field_fn = WrappedHashToField::new(dst.as_slice());
    let mut commitments_serialized: Vec<u8> = Vec::new();
    let mut i: usize = 0;
    while i < vk_public_and_commitment_committed.len()
        invariant
            i <= groups.len(),
            groups == vk_public_and_commitment_committed@,
            groups.len() <= proof_commitments@.len(),
            indices_in_range(groups, start_len),
            public_witness@.len() == start_len + i,
            hash_to_field_fn.domain() == COMMITMENT_DST@,
            hash_to_field_fn.pending() == Seq::<u8>::empty(),
            entries_view(public_witness@) == solved_witness(
                groups,
                proof_commitments@,
                start,
                i as nat,
            ),
            commitments_serialized@ == serialized_wires(
                groups,
                proof_commitments@,
                start,
                i as nat,
            ),
        decreases groups.len() - i,
    {
        let commitment_indices = &vk_public_and_commitment_committed[i];
        let ghost witness_now = entries_view(public_witness@);
        let mut prehash: Vec<u8> = Vec::new();
        prehash.extend_from_slice(proof_commitments[i].as_slice());
        assert(prehash@ =~= proof_commitments@[i as int]@);
        let mut k: usize = 0;
        while k < commitment_indices.len()
            invariant
                k <= commitment_indices@.len(),
                i < groups.len(),
                commitment_indices@ == groups[i as int]@,
                indices_in_range(groups, start_len),
                public_witness@.len() == start_len + i,
                witness_now == entries_view(public_witness@),
                prehash@ == proof_commitments@[i as int]@ + committed_values(
                    commitment_indices@.take(k as int),
                    witness_now,
                ),
            decreases commitment_indices@.len() - k,
        {
            let j: u64 = commitment_indices[k];
            assert(1 <= groups[i as int]@[k as int] <= start_len + i);
            assert(j - 1 < public_witness.len());
            let at: usize = (j - 1) as usize;
            let ghost before = prehash@;
            prehash.extend_from_slice(public_witness[at].as_slice());
            proof {
                let taken = commitment_indices@.take(k + 1);
                assert(taken.drop_last() =~= commitment_indices@.take(k as int));
                assert(taken.last() == j);
                assert(witness_now[j - 1] == public_witness@[at as int]@);
                assert(prehash@ =~= before + public_witness@[at as int]@);
                assert(prehash@ =~= proof_commitments@[i as int]@ + committed_values(
                    taken,
                    witness_now,
                ));
            }
            k += 1;
        }
        assert(commitment_indices@.take(k as int) =~= commitment_indices@);

        hash_to_field_fn.write(prehash.as_slice());
        assert(hash_to_field_fn.pending() =~= prehash@);
        let hash_bts = hash_to_field_fn.sum(Vec::new());
        hash_to_field_fn.reset();
        assert(hash_bts@.subrange(0, 32) =~= hash_bts@);
        let hash_bts_sized: [u8; 32] = copy_array(hash_bts.as_slice(), 0);
        proof {
            lemma_be_value_bytes(hash_bts@);
            assert(hash_bts_sized@ == commitment_wire(
                proof_commitments@[i as int]@,
                groups[i as int]@,
                witness_now,
            ));
        }
        public_witness.push(hash_bts_sized);
        let ghost serialized_before = commitments_serialized@;
        commitments_serialized.extend_from_slice(hash_bts.as_slice());
        proof {
            assert(commitments_serialized@ =~= serialized_before + hash_bts@);
            assert(entries_view(public_witness@) =~= witness_now.push(hash_bts_sized@));
        }
        i += 1;
    }
    commitments_serialized
}

/// Derives the Fiat-Shamir challenge of a proof's commitments, appending
/// the wire of each commitment to the witness on the way.
pub fn get_challenge(
    vk_public_and_commitment_committed: &Vec<Vec<u64>>,
    proof_commitments: &Vec<[u8; 64]>,
    public_witness: &mut Vec<[u8; 32]>,
) -> (challenge: Result<FieldElement, GnarkError>)
    requires
        vk_public_and_commitment_committed@.len() <= proof_commitments@.len(),
        indices_in_range(vk_public_and_commitment_committed@, old(public_witness)@.len()),
    ensures
        challenge is Ok,
        challenge.unwrap().value() == challenge_of(
            vk_public_and_commitment_committed@,
            proof_commitments@,
            entries_view(old(public_witness)@),
        ),
        entries_view(final(public_witness)@) == solved_witness(
            vk_public_and_commitment_committed@,
            proof_commitments@,
            entries_view(old(public_witness)@),
            vk_public_and_commitment_committed@.len(),
        ),
        final(public_witness)@.len() == old(public_witness)@.len()
            + vk_public_and_commitment_committed@.len(),
{
    let commitments_serialized = solve_commitment_wire(
        vk_public_and_commitment_committed,
        proof_commitments,
        public_witness,
    );
    let dst = CHALLENGE_DST;
    match hash_to_field(commitments_serialized.as_slice(), dst.as_slice(), 1) {
        Ok(field_elements) => {
            assert(values(field_elements@)[0] == field_elements@[0].value());
            Ok(field_elements[0])
        },
        Err(e) => Err(e),
    }
}

/// The power of the challenge that scales commitment `i`, for `i >= 1`:
/// the challenge to the `i`, reduced modulo `r` at every step.
pub open spec fn challenge_power(rho: nat, i: nat) -> nat
    decreases i,
{
    if i <= 1 {
        rho
    } else {
        (challenge_power(rho, (i - 1) as nat) * rho) % fr_modulus()
    }
}

/// Whether the first 128 bytes of every commitment key are those of the
/// first key: the keys share one G2 base.
pub open spec fn shares_base(keys: Seq<[u8; 256]>) -> bool {
    forall|i: int|
        0 <= i < keys.len() ==> (#[trigger] keys[i])@.subrange(0, 128) == keys[0]@.subrange(
            0,
            128,
        )
}

/// The G1 point that stands in the batch for commitment `i`: the first
/// commitment itself, each later one scaled by its power of the challenge.
/// `None` where the scalar multiplication is refused.
pub open spec fn batch_point(commitments: Seq<[u8; 64]>, rho: nat, i: int) -> Option<Seq<u8>> {
    if i == 0 {
        Some(commitments[0]@)
    } else {
        g1_product(commitments[i]@ + be_bytes(challenge_power(rho, i as nat), 32))
    }
}

/// The first `n` pairs of the batch: each commitment's point with its
/// key's own G2 element.
pub open spec fn batch_pairs(
    keys: Seq<[u8; 256]>,
    commitments: Seq<[u8; 64]>,
    rho: nat,
    n: nat,
) -> Seq<u8>
    decreases n,
{
    if n == 0 {
        Seq::empty()
    } else {
        batch_pairs(keys, commitments, rho, (n - 1) as nat) + batch_point(
            commitments,
            rho,
            n - 1,
        ).unwrap() + keys[n - 1]@.subrange(128, 256)
    }
}

/// The input of the batched pairing check: a pair for every commitment,
/// then the proof of knowledge with the shared G2 base.
pub open spec fn batch_input(
    keys: Seq<[u8; 256]>,
    commitments: Seq<[u8; 64]>,
    pok: Seq<u8>,
    rho: nat,
) -> Seq<u8> {
    batch_pairs(keys, commitments, rho, keys.len()) + pok + keys[0]@.subrange(0, 128)
}

/// How the batched check of a proof of knowledge ends.
pub open spec fn pedersen_outcome(
    keys: Seq<[u8; 256]>,
    commitments: Seq<[u8; 64]>,
    pok: Seq<u8>,
    rho: nat,
) -> Result<(), GnarkError> {
    if commitments.len() != keys.len() {
        Err(GnarkError::PedersenVerificationError(PedersenFailure::CommitmentsLenMismatch))
    } else if !shares_base(keys) {
        Err(GnarkError::PedersenVerificationError(PedersenFailure::SharedG2Mismatch))
    } else if exists|i: int| 0 <= i < keys.len() && (#[trigger] batch_point(commitments, rho, i))
        is None {
        Err(GnarkError::SolanaBN254Error)
    } else if pairing(batch_input(keys, commitments, pok, rho)) is None {
        Err(GnarkError::ProofVerificationFailed)
    } else if pairing(batch_input(keys, commitments, pok, rho)).unwrap()[31] != 1 {
        Err(GnarkError::PedersenVerificationError(PedersenFailure::PedersenPairingFailed))
    } else {
        Ok(())
    }
}

/// Checks the batched proof of knowledge of a proof's commitments: the
/// product of the pairings of each scaled commitment with its key, and of
/// the proof of knowledge with the shared base, is the identity. There is
/// at least one commitment.
pub fn batch_verify_pedersen(
    vk: &Vec<[u8; 256]>,
    commitments: &Vec<[u8; 64]>,
    pok: &[u8; 64],
    challenge: FieldElement,
) -> (outcome: Result<(), GnarkError>)
    requires
        commitments@.len() > 0,
    ensures
        outcome == pedersen_outcome(vk@, commitments@, pok@, challenge.value()),
{
    if commitments.len() != vk.len() {
        return Err(
            GnarkError::PedersenVerificationError(PedersenFailure::CommitmentsLenMismatch),
        );
    }
    let n: usize = vk.len();
    let ghost rho = challenge.value();
    let mut i: usize = 0;
    while i < n
        invariant
            i <= n,
            n == vk@.len(),
            n == commitments@.len(),
            n > 0,
            forall|h: int|
                0 <= h < i ==> (#[trigger] vk@[h])@.subrange(0, 128) == vk@[0]@.subrange(0, 128),
        decreases n - i,
    {
        if i != 0 && !bytes_equal(
            slice_subrange(vk[i].as_slice(), 0, 128),
            slice_subrange(vk[0].as_slice(), 0, 128),
        ) {
            assert(vk@[i as int]@.subrange(0, 128) != vk@[0]@.subrange(0, 128));
            return Err(GnarkError::PedersenVerificationError(PedersenFailure::SharedG2Mismatch));
        }
        i += 1;
    }
    assert(shares_base(vk@));

    let mut pairing_input: Vec<u8> = Vec::new();
    let mut r = challenge;
    let mut i: usize = 0;
    while i < n
        invariant
            i <= n,
            n == vk@.len(),
            n == commitments@.len(),
            n > 0,
            shares_base(vk@),
            rho == challenge.value(),
            i < n ==> r.value() == challenge_power(rho, i as nat),
            forall|h: int| 0 <= h < i ==> (#[trigger] batch_point(commitments@, rho, h)) is Some,
            pairing_input@ == batch_pairs(vk@, commitments@, rho, i as nat),
            pairing_input@.len() == 192 * i,
        decreases n - i,
    {
        let ghost before = pairing_input@;
        if i == 0 {
            pairing_input.extend_from_slice(commitments[0].as_slice());
            assert(pairing_input@ =~= before + commitments@[0]@);
        } else {
            let scalar = r.to_bytes_be();
            proof {
                lemma_be_value_bytes(scalar@);
            }
            let mut operands = [0u8; 96];
            write_at(&mut operands, 0, commitments[i].as_slice());
            write_at(&mut operands, 64, scalar.as_slice());
            assert(operands@ =~= commitments@[i as int]@ + be_bytes(
                challenge_power(rho, i as nat),
                32,
            ));
            match alt_bn128_multiplication(&operands) {
                Ok(mul) => {
                    pairing_input.extend_from_slice(mul.as_slice());
                    assert(pairing_input@ =~= before + mul@);
                },
                Err(_) => {
                    assert(batch_point(commitments@, rho, i as int) is None);
                    return Err(GnarkError::SolanaBN254Error);
                },
            }
            if i + 1 != n {
                r = r.mul(&challenge);
            }
        }
        let ghost with_point = pairing_input@;
        pairing_input.extend_from_slice(slice_subrange(vk[i].as_slice(), 128, 256));
        assert(pairing_input@ =~= with_point + vk@[i as int]@.subrange(128, 256));
        i += 1;
    }
    let ghost pairs = pairing_input@;
    pairing_input.extend_from_slice(pok.as_slice());
    pairing_input.extend_from_slice(slice_subrange(vk[0].as_slice(), 0, 128));
    assert(pairing_input@ =~= pairs + pok@ + vk@[0]@.subrange(0, 128));
    assert(pairing_input@ == batch_input(vk@, commitments@, pok@, rho));

    match alt_bn128_pairing(pairing_input.as_slice()) {
        Ok(pairing_res) => {
            if pairing_res[31] != 1 {
                return Err(
                    GnarkError::PedersenVerificationError(PedersenFailure::PedersenPairingFailed),
                );
            }
            Ok(())
        },
        Err(_) => Err(GnarkError::ProofVerificationFailed),
    }
}

} // verus!
