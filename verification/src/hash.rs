//! Hashing to the scalar field, as RFC 9380 describes it: the message is
//! expanded with `expand_message_xmd` over SHA-256 under a domain
//! separation tag, and each 48-byte block of the expansion is read as a
//! big-endian number and reduced modulo `r`.

use crate::bytes::{be_value, zeros};
use crate::error::{GnarkError, HashFailure};
use crate::field::{fr_modulus, FieldElement};
use crate::sha::{sha256, sha256_digest};
use vstd::prelude::*;
use vstd::slice::{slice_subrange, slice_to_vec};

verus! {

/// Bytes of expansion per field element: the 32 bytes of the modulus and
/// 16 more for a bias below 2^-128.
pub const FIELD_ELEMENT_EXPANSION: usize = 48;

/// The tag with its length appended as one byte.
pub open spec fn dst_prime(dst: Seq<u8>) -> Seq<u8> {
    dst.push(dst.len() as u8)
}

/// The number of 32-byte blocks that cover `len_in_bytes` bytes.
pub open spec fn block_count(len_in_bytes: nat) -> nat {
    (len_in_bytes + 31) / 32
}

/// The bytewise exclusive or of two strings of one length.
pub open spec fn xor_bytes(a: Seq<u8>, b: Seq<u8>) -> Seq<u8> {
    Seq::new(a.len(), |i: int| a[i] ^ b[i])
}

/// The block `b_0`: the digest of 64 zero bytes, the message, the length
/// asked for in two bytes, a zero byte and the tag.
pub open spec fn xmd_b0(msg: Seq<u8>, dst: Seq<u8>, len_in_bytes: nat) -> Seq<u8> {
    sha256(
        zeros(64) + msg + seq![(len_in_bytes / 256) as u8, (len_in_bytes % 256) as u8] + seq![
            0u8,
        ] + dst_prime(dst),
    )
}

/// The block `b_i` for `i >= 1`: `b_1` is the digest of `b_0`, the byte 1
/// and the tag; each later block is the digest of `b_0` xor the block
/// before, the byte `i` and the tag.
pub open spec fn xmd_block(msg: Seq<u8>, dst: Seq<u8>, len_in_bytes: nat, i: nat) -> Seq<u8>
    decreases i,
{
    if i <= 1 {
        sha256(xmd_b0(msg, dst, len_in_bytes) + seq![1u8] + dst_prime(dst))
    } else {
        sha256(
            xor_bytes(
                xmd_b0(msg, dst, len_in_bytes),
                xmd_block(msg, dst, len_in_bytes, (i - 1) as nat),
            ) + seq![i as u8] + dst_prime(dst),
        )
    }
}

/// The blocks `b_1` to `b_n`, one after the other.
pub open spec fn xmd_blocks(msg: Seq<u8>, dst: Seq<u8>, len_in_bytes: nat, n: nat) -> Seq<u8>
    decreases n,
{
    if n == 0 {
        Seq::empty()
    } else {
        xmd_blocks(msg, dst, len_in_bytes, (n - 1) as nat) + xmd_block(
            msg,
            dst,
            len_in_bytes,
            n,
        )
    }
}

/// `expand_message_xmd`: the first `len_in_bytes` bytes of the blocks that
/// cover them.
pub open spec fn expanded_message(msg: Seq<u8>, dst: Seq<u8>, len_in_bytes: nat) -> Seq<u8> {
    xmd_blocks(msg, dst, len_in_bytes, block_count(len_in_bytes)).take(len_in_bytes as int)
}

/// The `count` field elements that a message hashes to under a tag.
pub open spec fn field_elements_of(msg: Seq<u8>, dst: Seq<u8>, count: nat) -> Seq<nat> {
    Seq::new(
        count,
        |i: int|
            be_value(expanded_message(msg, dst, 48 * count).subrange(48 * i, 48 * i + 48))
                % fr_modulus(),
    )
}

/// Every element that a message hashes to is a field element: below `r`.
pub proof fn lemma_field_elements_are_reduced(msg: Seq<u8>, dst: Seq<u8>, count: nat, i: int)
    requires
        0 <= i < count,
    ensures
        field_elements_of(msg, dst, count)[i] < fr_modulus(),
{
}

/// The failure, if any, of an expansion to `len_in_bytes` bytes under a tag
/// of `dst_len` bytes: the length is judged first.
pub open spec fn expansion_failure(len_in_bytes: nat, dst_len: nat) -> Option<HashFailure> {
    if block_count(len_in_bytes) > 255 {
        Some(HashFailure::LengthTooLarge)
    } else if dst_len > 255 {
        Some(HashFailure::DstTooLong)
    } else {
        None
    }
}

/// Expands `msg` under the tag `dst` into `len_in_bytes` bytes.
pub fn expand_message_xmd(msg: &[u8], dst: &[u8], len_in_bytes: usize) -> (expanded: Result<
    Vec<u8>,
    GnarkError,
>)
    ensures
        match expanded {
            Ok(bytes) => expansion_failure(len_in_bytes as nat, dst@.len()) is None && bytes@
                == expanded_message(msg@, dst@, len_in_bytes as nat) && bytes@.len()
                == len_in_bytes,
            Err(e) => expansion_failure(len_in_bytes as nat, dst@.len()) == Some(
                e->HashError_0,
            ) && e is HashError,
        },
{
    let ell: usize = len_in_bytes / 32 + (if len_in_bytes % 32 != 0 {
        1
    } else {
        0
    });
    assert(ell == block_count(len_in_bytes as nat));
    if ell > 255 {
        return Err(GnarkError::HashError(HashFailure::LengthTooLarge));
    }
    if dst.len() > 255 {
        return Err(GnarkError::HashError(HashFailure::DstTooLong));
    }
    let size_domain: u8 = dst.len() as u8;
    let mut dst_tagged: Vec<u8> = slice_to_vec(dst);
    dst_tagged.push(size_domain);
    assert(dst_tagged@ == dst_prime(dst@));

    let z_pad = [0u8; 64];
    let mut first: Vec<u8> = Vec::new();
    first.extend_from_slice(z_pad.as_slice());
    first.extend_from_slice(msg);
    first.push((len_in_bytes / 256) as u8);
    first.push((len_in_bytes % 256) as u8);
    first.push(0u8);
    first.extend_from_slice(dst_tagged.as_slice());
    assert(first@ =~= zeros(64) + msg@ + seq![
        (len_in_bytes / 256) as u8,
        (len_in_bytes % 256) as u8,
    ] + seq![0u8] + dst_prime(dst@));
    let b0 = sha256_digest(first.as_slice());

    let mut second: Vec<u8> = Vec::new();
    second.extend_from_slice(b0.as_slice());
    second.push(1u8);
    second.extend_from_slice(dst_tagged.as_slice());
    assert(second@ =~= b0@ + seq![1u8] + dst_prime(dst@));
    let mut bi = sha256_digest(second.as_slice());

    let mut result: Vec<u8> = Vec::new();
    result.extend_from_slice(bi.as_slice());
    assert(result@ =~= xmd_blocks(msg@, dst@, len_in_bytes as nat, 1)) by {
        reveal_with_fuel(xmd_blocks, 2);
    }

    let mut i: usize = 2;
    while i <= ell
        invariant
            2 <= i <= ell + 1 || (i == 2 && ell < 2),
            ell <= 255,
            dst_tagged@ == dst_prime(dst@),
            b0@ == xmd_b0(msg@, dst@, len_in_bytes as nat),
            bi@ == xmd_block(msg@, dst@, len_in_bytes as nat, (i - 1) as nat),
            result@ == xmd_blocks(msg@, dst@, len_in_bytes as nat, (i - 1) as nat),
            result@.len() == 32 * (i - 1),
        decreases ell + 1 - i,
    {
        let mut strxor = [0u8; 32];
        let mut j: usize = 0;
        while j < 32
            invariant
                j <= 32,
                forall|k: int| 0 <= k < j ==> strxor@[k] == b0@[k] ^ bi@[k],
            decreases 32 - j,
        {
            strxor[j] = b0[j] ^ bi[j];
            j += 1;
        }
        assert(strxor@ =~= xor_bytes(b0@, bi@));
        let mut next: Vec<u8> = Vec::new();
        next.extend_from_slice(strxor.as_slice());
        next.push(i as u8);
        next.extend_from_slice(dst_tagged.as_slice());
        assert(next@ =~= xor_bytes(b0@, bi@) + seq![i as u8] + dst_prime(dst@));
        bi = sha256_digest(next.as_slice());
        let ghost before = result@;
        result.extend_from_slice(bi.as_slice());
        assert(result@ =~= before + bi@);
        i += 1;
    }
    proof {
        if ell == 0 {
            assert(len_in_bytes == 0);
            assert(result@.subrange(0, 0) =~= expanded_message(msg@, dst@, 0));
        } else {
            assert(i == ell + 1);
            assert(result@.subrange(0, len_in_bytes as int) =~= result@.take(
                len_in_bytes as int,
            ));
        }
    }
    result.truncate(len_in_bytes);
    Ok(result)
}

/// Hashes `msg` under the tag `dst` to `count` field elements.
pub fn hash_to_field(msg: &[u8], dst: &[u8], count: usize) -> (elements: Result<
    Vec<FieldElement>,
    GnarkError,
>)
    ensures
        match elements {
            Ok(fields) => expansion_failure(48 * count as nat, dst@.len()) is None && fields@.len()
                == count && crate::field::values(fields@) == field_elements_of(
                msg@,
                dst@,
                count as nat,
            ),
            Err(e) => expansion_failure(48 * count as nat, dst@.len()) == Some(e->HashError_0)
                && e is HashError,
        },
{
    if count > 170 {
        return Err(GnarkError::HashError(HashFailure::LengthTooLarge));
    }
    let len_in_bytes: usize = count * FIELD_ELEMENT_EXPANSION;
    let pseudo_random_bytes = match expand_message_xmd(msg, dst, len_in_bytes) {
        Ok(bytes) => bytes,
        Err(e) => {
            return Err(e);
        },
    };
    let mut res: Vec<FieldElement> = Vec::with_capacity(count);
    let mut i: usize = 0;
    while i < count
        invariant
            i <= count <= 170,
            len_in_bytes == 48 * count,
            pseudo_random_bytes@ == expanded_message(msg@, dst@, len_in_bytes as nat),
            pseudo_random_bytes@.len() == len_in_bytes,
            res@.len() == i,
            forall|k: int|
                0 <= k < i ==> (#[trigger] res@[k]).value() == field_elements_of(
                    msg@,
                    dst@,
                    count as nat,
                )[k],
        decreases count - i,
    {
        let start: usize = i * FIELD_ELEMENT_EXPANSION;
        let end: usize = (i + 1) * FIELD_ELEMENT_EXPANSION;
        let slice = slice_subrange(pseudo_random_bytes.as_slice(), start, end);
        let fe = FieldElement::from_be_bytes_mod_order(slice);
        res.push(fe);
        i += 1;
    }
    assert(crate::field::values(res@) =~= field_elements_of(msg@, dst@, count as nat));
    Ok(res)
}

/// A hasher to the field that gathers what is written to it and hashes it
/// to one element under a fixed tag.
pub struct WrappedHashToField {
    domain: Vec<u8>,
    to_hash: Vec<u8>,
}

impl WrappedHashToField {
    /// The tag under which the hasher hashes.
    pub closed spec fn domain(&self) -> Seq<u8> {
        self.domain@
    }

    /// The bytes written since the last sum or reset.
    pub closed spec fn pending(&self) -> Seq<u8> {
        self.to_hash@
    }

    /// A hasher under a tag, with nothing written.
    pub fn new(domain_separator: &[u8]) -> (hasher: WrappedHashToField)
        ensures
            hasher.domain() == domain_separator@,
            hasher.pending() == Seq::<u8>::empty(),
    {
        WrappedHashToField { domain: slice_to_vec(domain_separator), to_hash: Vec::new() }
    }

    /// Appends bytes to what will be hashed.
    pub fn write(&mut self, data: &[u8])
        ensures
            final(self).domain() == old(self).domain(),
            final(self).pending() == old(self).pending() + data@,
    {
        let ghost before = self.to_hash@;
        self.to_hash.extend_from_slice(data);
        assert(self.to_hash@ =~= before + data@);
    }

    /// Hashes what was written to one field element, appends its 32-byte
    /// big-endian form to `b`, and forgets what was written. The tag is at
    /// most 255 bytes long.
    pub fn sum(&mut self, b: Vec<u8>) -> (out: Vec<u8>)
        requires
            old(self).domain().len() <= 255,
        ensures
            final(self).domain() == old(self).domain(),
            final(self).pending() == Seq::<u8>::empty(),
            out@.len() == b@.len() + 32,
            out@.subrange(0, b@.len() as int) == b@,
            be_value(out@.subrange(b@.len() as int, b@.len() as int + 32)) == field_elements_of(
                old(self).pending(),
                old(self).domain(),
                1,
            )[0],
    {
        let mut out = b;
        match hash_to_field(self.to_hash.as_slice(), self.domain.as_slice(), 1) {
            Ok(res) => {
                let element_bytes = res[0].to_bytes_be();
                let ghost before = out@;
                out.extend_from_slice(element_bytes.as_slice());
                assert(out@ =~= before + element_bytes@);
                assert(out@.subrange(before.len() as int, before.len() as int + 32) =~= element_bytes@);
                assert(out@.subrange(0, before.len() as int) =~= before);
                assert(crate::field::values(res@)[0] == res@[0].value());
            },
            Err(_) => {
                assert(false);
            },
        }
        self.to_hash.clear();
        out
    }

    /// Forgets what was written.
    pub fn reset(&mut self)
        ensures
            final(self).domain() == old(self).domain(),
            final(self).pending() == Seq::<u8>::empty(),
    {
        self.to_hash.clear();
    }
}

} // verus!
