//! The three 32-byte values of the protocol: the caller's secret, the public
//! commitment to it, and the nullifier that spends it once per action.

use crate::bytes::zeros;
use vstd::prelude::*;

verus! {

/// Trusted: the type `getrandom::Error`, taken as opaque. Nothing is read
/// of it.
#[verifier::external_type_specification]
#[verifier::external_body]
pub struct ExRandomError(getrandom::Error);

/// Trusted: `getrandom::getrandom` on a 32-byte buffer. The bytes come from
/// the operating system, so nothing is claimed of them.
#[verifier::external_body]
fn random_bytes() -> Result<[u8; 32], getrandom::Error> {
    let mut bytes = [0u8; 32];
    getrandom::getrandom(&mut bytes)?;
    Ok(bytes)
}

/// Trusted: `zeroize::Zeroize::zeroize` on a 32-byte array. The contract
/// claims that every byte is zero afterwards, which is what the crate
/// documents (it adds that the writes are not optimised away) and that the
/// call does not unwind.
#[verifier::external_body]
fn wipe(bytes: &mut [u8; 32])
    ensures
        final(bytes)@ == zeros(32),
    opens_invariants none
    no_unwind
{
    zeroize::Zeroize::zeroize(bytes);
}

/// The caller's secret. It never leaves the prover host, and its storage is
/// overwritten with zeros when the value is released.
#[derive(Clone)]
pub struct Secret {
    bytes: [u8; 32],
}

impl View for Secret {
    type V = Seq<u8>;

    closed spec fn view(&self) -> Seq<u8> {
        self.bytes@
    }
}

impl Secret {
    /// A fresh secret from the operating system's random source, or `None`
    /// where that source fails.
    pub fn generate() -> (secret: Option<Secret>)
        ensures
            secret is Some ==> secret.unwrap()@.len() == 32,
    {
        Secret::from_random_source(random_bytes())
    }

    /// The secret that a draw from the random source gives: the 32 bytes
    /// drawn, as they are, and `None` where the source failed.
    pub fn from_random_source(drawn: Result<[u8; 32], getrandom::Error>) -> (secret: Option<
        Secret,
    >)
        ensures
            secret is Some <==> drawn is Ok,
            secret is Some ==> secret.unwrap()@ == drawn.unwrap()@,
    {
        match drawn {
            Ok(bytes) => Some(Secret { bytes }),
            Err(_) => None,
        }
    }

    /// The secret that 32 bytes are.
    pub fn from_bytes(bytes: [u8; 32]) -> (secret: Secret)
        ensures
            secret@ == bytes@,
    {
        Secret { bytes }
    }

    /// The bytes of the secret.
    pub fn as_bytes(&self) -> (bytes: &[u8; 32])
        ensures
            bytes@ == self@,
    {
        &self.bytes
    }

    /// Overwrites the secret with zeros.
    pub fn zeroize(&mut self)
        ensures
            final(self)@ == zeros(32),
        opens_invariants none
        no_unwind
    {
        wipe(&mut self.bytes);
    }
}

impl Drop for Secret {
    fn drop(&mut self)
        opens_invariants none
        no_unwind
    {
        self.zeroize();
    }
}

/// The public commitment to a secret.
#[derive(Copy, Clone, PartialEq, Eq, Hash, Debug)]
pub struct Commitment(pub [u8; 32]);

impl View for Commitment {
    type V = Seq<u8>;

    open spec fn view(&self) -> Seq<u8> {
        self.0@
    }
}

impl Commitment {
    /// The commitment that 32 bytes are.
    pub fn from_bytes(bytes: [u8; 32]) -> (commitment: Commitment)
        ensures
            commitment.0 == bytes,
    {
        Commitment(bytes)
    }

    /// The bytes of the commitment.
    pub fn as_bytes(&self) -> (bytes: &[u8; 32])
        ensures
            *bytes == self.0,
    {
        &self.0
    }

    /// The commitment's bytes as a slice.
    pub fn as_ref(&self) -> (bytes: &[u8])
        ensures
            bytes@ == self@,
    {
        self.0.as_slice()
    }
}

/// The tag that marks a commitment as spent for one action of one program.
#[derive(Copy, Clone, PartialEq, Eq, Hash, Debug)]
pub struct Nullifier(pub [u8; 32]);

impl View for Nullifier {
    type V = Seq<u8>;

    open spec fn view(&self) -> Seq<u8> {
        self.0@
    }
}

impl Nullifier {
    /// The nullifier that 32 bytes are.
    pub fn from_bytes(bytes: [u8; 32]) -> (nullifier: Nullifier)
        ensures
            nullifier.0 == bytes,
    {
        Nullifier(bytes)
    }

    /// The bytes of the nullifier.
    pub fn as_bytes(&self) -> (bytes: &[u8; 32])
        ensures
            *bytes == self.0,
    {
        &self.0
    }

    /// The nullifier's bytes as a slice.
    pub fn as_ref(&self) -> (bytes: &[u8])
        ensures
            bytes@ == self@,
    {
        self.0.as_slice()
    }
}

} // verus!
