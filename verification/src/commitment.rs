//! The two derivations that only the holder of a secret can make: the
//! commitment to the secret, and the nullifier that spends it for one
//! action of one program. Both are Poseidon hashes over the scalar field.

use crate::bytes::{le_bytes, le_value};
use crate::field::{
    bytes_to_field, field_to_bytes, fr_modulus, poseidon, poseidon_hash, values,
};
use crate::sha::{sha256, sha256_digest};
use crate::types::{Commitment, Nullifier, Secret};
use vstd::prelude::*;

verus! {

/// The commitment to a secret: the Poseidon hash of the secret as a field
/// element, in canonical little-endian bytes.
pub open spec fn commitment_of(secret: Seq<u8>) -> Seq<u8> {
    le_bytes(poseidon(seq![le_value(secret) % fr_modulus()]), 32)
}

/// The nullifier of a secret for an action of a program: the Poseidon hash
/// of the secret, the SHA-256 digest of the program's id and the action
/// hash, each as a field element, in canonical little-endian bytes.
pub open spec fn nullifier_of(secret: Seq<u8>, program_id: Seq<u8>, action_id: Seq<u8>) -> Seq<
    u8,
> {
    le_bytes(
        poseidon(
            seq![
                le_value(secret) % fr_modulus(),
                le_value(sha256(program_id)) % fr_modulus(),
                le_value(action_id) % fr_modulus(),
            ],
        ),
        32,
    )
}

/// The commitment to a secret.
pub fn compute_commitment(secret: &Secret) -> (commitment: Commitment)
    ensures
        commitment@ == commitment_of(secret@),
{
    let secret_field = bytes_to_field(secret.as_bytes());
    let inputs = [secret_field];
    assert(values(inputs@) =~= seq![le_value(secret@) % fr_modulus()]);
    let commitment_field = poseidon_hash(inputs.as_slice());
    let commitment_bytes = field_to_bytes(&commitment_field);
    Commitment::from_bytes(commitment_bytes)
}

/// The nullifier of a secret for an action of a program.
pub fn compute_nullifier(secret: &Secret, program_id_bytes: &[u8; 32], action_id: &[u8; 32]) -> (nullifier:
    Nullifier)
    ensures
        nullifier@ == nullifier_of(secret@, program_id_bytes@, action_id@),
{
    let domain_bytes = compute_domain(program_id_bytes);
    let secret_field = bytes_to_field(secret.as_bytes());
    let domain_field = bytes_to_field(&domain_bytes);
    let action_field = bytes_to_field(action_id);
    let inputs = [secret_field, domain_field, action_field];
    assert(values(inputs@) =~= seq![
        le_value(secret@) % fr_modulus(),
        le_value(sha256(program_id_bytes@)) % fr_modulus(),
        le_value(action_id@) % fr_modulus(),
    ]);
    let nullifier_field = poseidon_hash(inputs.as_slice());
    let nullifier_bytes = field_to_bytes(&nullifier_field);
    Nullifier::from_bytes(nullifier_bytes)
}

/// The domain of a program: the SHA-256 digest of its id.
pub fn compute_domain(program_id_bytes: &[u8; 32]) -> (domain: [u8; 32])
    ensures
        domain@ == sha256(program_id_bytes@),
{
    sha256_digest(program_id_bytes.as_slice())
}

/// The commitment is a function of the secret's bytes: two secrets with
/// the same bytes have the same commitment, and so have two secrets that
/// stand for the same field element.
pub proof fn lemma_commitment_deterministic(a: Seq<u8>, b: Seq<u8>)
    requires
        le_value(a) % fr_modulus() == le_value(b) % fr_modulus(),
    ensures
        commitment_of(a) == commitment_of(b),
{
}

/// The nullifier is a function of the secret, the program and the action.
pub proof fn lemma_nullifier_deterministic(
    secret_a: Seq<u8>,
    secret_b: Seq<u8>,
    program_id: Seq<u8>,
    action_id_a: Seq<u8>,
    action_id_b: Seq<u8>,
)
    requires
        le_value(secret_a) % fr_modulus() == le_value(secret_b) % fr_modulus(),
        le_value(action_id_a) % fr_modulus() == le_value(action_id_b) % fr_modulus(),
    ensures
        nullifier_of(secret_a, program_id, action_id_a) == nullifier_of(
            secret_b,
            program_id,
            action_id_b,
        ),
{
}

} // verus!
