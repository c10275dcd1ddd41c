//! SHA-256, the one hash function the protocol fixes. The digest itself is
//! computed by the `sha2` crate, or by Solana's hasher where the on-chain
//! side computes it; both are reached through the trusted functions below.

use sha2::Digest;
use vstd::prelude::*;

verus! {

/// The SHA-256 digest (FIPS 180-4) of a byte string: 32 bytes.
pub uninterp spec fn sha256(data: Seq<u8>) -> Seq<u8>;

/// The byte strings of `parts`, one after the other.
pub open spec fn concat(parts: Seq<Seq<u8>>) -> Seq<u8>
    decreases parts.len(),
{
    if parts.len() == 0 {
        Seq::empty()
    } else {
        concat(parts.drop_last()) + parts.last()
    }
}

/// What a slice of byte slices holds, as a sequence of byte strings.
pub open spec fn parts_view(parts: Seq<&[u8]>) -> Seq<Seq<u8>> {
    Seq::new(parts.len(), |i: int| parts[i]@)
}

/// Trusted: `sha2::Sha256::digest`. The contract claims that the array
/// returned is the SHA-256 digest of `data`, which is what the crate
/// documents; nothing more is assumed of the digest.
#[verifier::external_body]
pub(crate) fn sha256_digest(data: &[u8]) -> (digest: [u8; 32])
    ensures
        digest@ == sha256(data@),
{
    sha2::Sha256::digest(data).into()
}

/// Trusted: `solana_program::hash::hashv`, documented to "return a Sha256
/// hash for the given data". The contract claims that the 32 bytes of the
/// hash returned are the SHA-256 digest of the parts taken as one string:
/// the hasher feeds the parts, in order, to one SHA-256 state.
#[verifier::external_body]
pub(crate) fn hashv(parts: &[&[u8]]) -> (digest: [u8; 32])
    ensures
        digest@ == sha256(concat(parts_view(parts@))),
{
    solana_program::hash::hashv(parts).to_bytes()
}

/// Trusted: `solana_program::hash::hash`, which is `hashv` of the one part.
/// The contract claims that the 32 bytes returned are the SHA-256 digest of
/// `data`.
#[verifier::external_body]
pub(crate) fn hash(data: &[u8]) -> (digest: [u8; 32])
    ensures
        digest@ == sha256(data@),
{
    solana_program::hash::hash(data).to_bytes()
}

/// Five parts taken as one string are their concatenation in order.
pub proof fn lemma_concat_five(a: Seq<u8>, b: Seq<u8>, c: Seq<u8>, d: Seq<u8>, e: Seq<u8>)
    ensures
        concat(seq![a, b, c, d, e]) == a + b + c + d + e,
{
    let s5 = seq![a, b, c, d, e];
    let s4 = seq![a, b, c, d];
    let s3 = seq![a, b, c];
    let s2 = seq![a, b];
    let s1 = seq![a];
    assert(s5.drop_last() =~= s4);
    assert(s4.drop_last() =~= s3);
    assert(s3.drop_last() =~= s2);
    assert(s2.drop_last() =~= s1);
    assert(s1.drop_last() =~= Seq::<Seq<u8>>::empty());
    assert(concat(s1.drop_last()) =~= Seq::<u8>::empty());
    assert(concat(s1) =~= a);
    assert(concat(s2) =~= a + b);
    assert(concat(s3) =~= a + b + c);
    assert(concat(s4) =~= a + b + c + d);
}

} // verus!
