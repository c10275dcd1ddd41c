//! The three BN254 operations that the verifier builds on: addition and
//! scalar multiplication in G1 and the pairing check. They are Solana's
//! `alt_bn128` operations, on byte strings in the big-endian layout of
//! EIP-196 and EIP-197, and are taken here as given.

use solana_bn254::AltBn128Error;
use vstd::prelude::*;

verus! {

/// Trusted: the type `solana_bn254::AltBn128Error`, taken as opaque. It is
/// passed from the curve operations to their callers, which read nothing
/// of it.
#[verifier::external_type_specification]
#[verifier::external_body]
pub struct ExAltBn128Error(AltBn128Error);

/// The sum of two points of G1. The input is the two points, 64 bytes
/// each; the result is their sum in 64 bytes, or `None` where a point is
/// not on the curve or a coordinate is not below the field's modulus.
pub uninterp spec fn g1_sum(input: Seq<u8>) -> Option<Seq<u8>>;

/// The product of a point of G1 and a scalar. The input is the point in 64
/// bytes and the scalar in 32; the result is the product in 64 bytes, or
/// `None` where the point is refused as for `g1_sum`.
pub uninterp spec fn g1_product(input: Seq<u8>) -> Option<Seq<u8>>;

/// The pairing check on a list of pairs, each a point of G1 in 64 bytes and
/// a point of G2 in 128. The result is 32 bytes whose last byte is 1 where
/// the product of the pairings is the identity of the target group and 0
/// where it is not, or `None` where a point is refused.
pub uninterp spec fn pairing(input: Seq<u8>) -> Option<Seq<u8>>;

/// Whether the pairing check accepts: the operation succeeds and says that
/// the product of the pairings is the identity.
pub open spec fn pairing_accepts(input: Seq<u8>) -> bool {
    pairing(input) is Some && pairing(input).unwrap()[31] == 1
}

/// Trusted: `solana_bn254::prelude::alt_bn128_addition`. The contract
/// claims that whether the call succeeds, and the 64 bytes it returns when
/// it does, are a function of the input alone. Which error is returned is
/// not claimed: it differs between the host and the chain.
#[verifier::external_body]
pub(crate) fn alt_bn128_addition(input: &[u8; 128]) -> (sum: Result<[u8; 64], AltBn128Error>)
    ensures
        sum is Ok <==> g1_sum(input@) is Some,
        sum is Ok ==> sum.unwrap()@ == g1_sum(input@).unwrap(),
{
    let out = solana_bn254::prelude::alt_bn128_addition(input)?;
    out.try_into().map_err(|_| AltBn128Error::SliceOutOfBounds)
}

/// Trusted: `solana_bn254::prelude::alt_bn128_multiplication`. The contract
/// claims that whether the call succeeds, and the 64 bytes it returns when
/// it does, are a function of the input alone.
#[verifier::external_body]
pub(crate) fn alt_bn128_multiplication(input: &[u8; 96]) -> (product: Result<
    [u8; 64],
    AltBn128Error,
>)
    ensures
        product is Ok <==> g1_product(input@) is Some,
        product is Ok ==> product.unwrap()@ == g1_product(input@).unwrap(),
{
    let out = solana_bn254::prelude::alt_bn128_multiplication(input)?;
    out.try_into().map_err(|_| AltBn128Error::SliceOutOfBounds)
}

/// Trusted: `solana_bn254::prelude::alt_bn128_pairing`, on whole pairs. The
/// contract claims that whether the call succeeds, and the 32 bytes it
/// returns when it does, are a function of the input alone.
#[verifier::external_body]
pub(crate) fn alt_bn128_pairing(input: &[u8]) -> (outcome: Result<[u8; 32], AltBn128Error>)
    requires
        input@.len() % 192 == 0,
    ensures
        outcome is Ok <==> pairing(input@) is Some,
        outcome is Ok ==> outcome.unwrap()@ == pairing(input@).unwrap(),
{
    let out = solana_bn254::prelude::alt_bn128_pairing(input)?;
    out.try_into().map_err(|_| AltBn128Error::SliceOutOfBounds)
}

} // verus!
