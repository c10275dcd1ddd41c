//! The ownership proof as the guard of a program hands it to the verifier:
//! a proof of fixed length and the public witness, checked for their
//! lengths and passed on as one instruction.

use crate::encoding::PUBLIC_WITNESS_SIZE;
use crate::gnark_proof::{proof_length_ok, GnarkProof};
use crate::groth16::{
    instruction_proof_bytes, instruction_witness_bytes, process_instruction, verification_outcome,
};
use crate::vk::GnarkVerifyingKey;
use crate::witness::GnarkWitness;
use vstd::prelude::*;

verus! {

/// Length of the proof of the ownership circuit: a proof with one
/// commitment.
pub const GROTH16_PROOF_SIZE: usize = 388;

/// Why an ownership proof was not accepted.
#[derive(Clone, Copy, Debug, PartialEq, Eq)]
pub enum SunspotError {
    /// The proof has not `GROTH16_PROOF_SIZE` bytes.
    InvalidProofLength,
    /// The public witness has not 5132 bytes.
    InvalidPublicWitnessLength,
    /// The verifier did not accept the instruction.
    VerifierInvocationFailed,
}

/// The failure, if any, that the lengths of a proof and a public witness
/// give: the proof is judged first.
pub open spec fn length_failure(proof_len: nat, witness_len: nat) -> Option<SunspotError> {
    if proof_len != 388 {
        Some(SunspotError::InvalidProofLength)
    } else if witness_len != 5132 {
        Some(SunspotError::InvalidPublicWitnessLength)
    } else {
        None
    }
}

/// The data of the instruction that asks the verifier: the proof, then the
/// public witness. A proof or a witness of another length than the
/// ownership circuit's is refused.
pub fn ownership_proof_instruction(proof: &[u8], public_witness: &[u8]) -> (data: Result<
    Vec<u8>,
    SunspotError,
>)
    ensures
        match data {
            Ok(bytes) => length_failure(proof@.len(), public_witness@.len()) is None && bytes@
                == proof@ + public_witness@,
            Err(e) => length_failure(proof@.len(), public_witness@.len()) == Some(e),
        },
{
    if proof.len() != GROTH16_PROOF_SIZE {
        return Err(SunspotError::InvalidProofLength);
    }
    if public_witness.len() != PUBLIC_WITNESS_SIZE {
        return Err(SunspotError::InvalidPublicWitnessLength);
    }
    let mut instruction_data: Vec<u8> = Vec::with_capacity(GROTH16_PROOF_SIZE + PUBLIC_WITNESS_SIZE);
    instruction_data.extend_from_slice(proof);
    instruction_data.extend_from_slice(public_witness);
    assert(instruction_data@ =~= proof@ + public_witness@);
    Ok(instruction_data)
}

/// Whether the verifier for `vk` accepts the instruction made of a proof
/// of 388 bytes and a public witness of 5132: the key is for 160 public
/// inputs, the proof has the length that its commitments give, and the
/// proof and the witness that the bytes hold verify.
pub open spec fn verifier_accepts(vk: GnarkVerifyingKey, proof: Seq<u8>, public_witness: Seq<u8>) -> bool {
    &&& vk.nr_pubinputs == 160
    &&& proof_length_ok(proof)
    &&& forall|parsed: GnarkProof, witness: GnarkWitness|
        #![trigger verification_outcome(vk, parsed, witness)]
        parsed.is_parse_of(proof) && witness.is_parse_of(public_witness) ==> verification_outcome(
            vk,
            parsed,
            witness,
        ) is Ok
}

/// How the verification of an ownership proof ends: with the failure of
/// the lengths, if they fail; else as the verifier decides.
pub open spec fn ownership_outcome(vk: GnarkVerifyingKey, proof: Seq<u8>, public_witness: Seq<u8>) -> Result<
    (),
    SunspotError,
> {
    match length_failure(proof.len(), public_witness.len()) {
        Some(failure) => Err(failure),
        None => if verifier_accepts(vk, proof, public_witness) {
            Ok(())
        } else {
            Err(SunspotError::VerifierInvocationFailed)
        },
    }
}

/// Verifies an ownership proof with the verifier for `verifier_key`.
pub fn verify_ownership_proof(
    verifier_key: &GnarkVerifyingKey,
    proof: &[u8],
    public_witness: &[u8],
) -> (outcome: Result<(), SunspotError>)
    ensures
        outcome == ownership_outcome(*verifier_key, proof@, public_witness@),
{
    let instruction_data = match ownership_proof_instruction(proof, public_witness) {
        Ok(data) => data,
        Err(e) => {
            return Err(e);
        },
    };
    if verifier_key.nr_pubinputs != 160 {
        return Err(SunspotError::VerifierInvocationFailed);
    }
    proof {
        assert(instruction_proof_bytes(*verifier_key, instruction_data@) =~= proof@);
        assert(instruction_witness_bytes(*verifier_key, instruction_data@) =~= public_witness@);
    }
    let verified = process_instruction(verifier_key, instruction_data.as_slice());
    proof {
        if proof_length_ok(proof@) {
            let (p, w) = choose|p: GnarkProof, w: GnarkWitness|
                #![trigger p.is_parse_of(proof@), w.is_parse_of(public_witness@)]
                p.is_parse_of(proof@) && w.is_parse_of(public_witness@);
            assert(verified == verification_outcome(*verifier_key, p, w));
        }
    }
    match verified {
        Ok(_) => Ok(()),
        Err(_) => Err(SunspotError::VerifierInvocationFailed),
    }
}

/// Whether an ownership proof verifies.
pub fn try_verify_ownership_proof(
    verifier_key: &GnarkVerifyingKey,
    proof: &[u8],
    public_witness: &[u8],
) -> (accepted: bool)
    ensures
        accepted <==> ownership_outcome(*verifier_key, proof@, public_witness@) is Ok,
{
    verify_ownership_proof(verifier_key, proof, public_witness).is_ok()
}

} // verus!
