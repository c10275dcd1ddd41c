//! Zero-knowledge ownership proofs over BN254: the action-binding protocol
//! (commitments, nullifiers, action hashes and the public-witness encoding)
//! and a Groth16 verifier with gnark's batched Pedersen commitment check.
//!
//! Every function carries a contract over the byte-level model of `bytes`;
//! the cryptographic primitives are reached through a handful of trusted
//! declarations, each documented where it stands.

pub mod bytes;
pub mod sha;
pub mod types;
pub mod encoding;
pub mod field;
pub mod commitment;
pub mod pda;
pub mod error;
pub mod hash;
pub mod syscalls;
pub mod gnark_proof;
pub mod witness;
pub mod vk;
pub mod commitments;
pub mod points;
pub mod groth16;
pub mod sunspot;
pub mod example;
pub mod sdk;
pub mod prover;
