//! The byte-level model shared by every codec: the number a byte string
//! stands for in either byte order, fixed-width encodings of a number, and
//! the executable helpers that read and copy bytes.

use vstd::prelude::*;

verus! {

/// The number a byte string stands for when its first byte counts least.
pub open spec fn le_value(s: Seq<u8>) -> nat
    decreases s.len(),
{
    if s.len() == 0 {
        0
    } else {
        (s[0] as nat) + 256 * le_value(s.drop_first())
    }
}

/// The number a byte string stands for when its first byte counts most.
pub open spec fn be_value(s: Seq<u8>) -> nat
    decreases s.len(),
{
    if s.len() == 0 {
        0
    } else {
        256 * be_value(s.drop_last()) + (s.last() as nat)
    }
}

/// 256 to the power `n`: the number of byte strings of length `n`.
pub open spec fn pow256(n: nat) -> nat
    decreases n,
{
    if n == 0 {
        1
    } else {
        256 * pow256((n - 1) as nat)
    }
}

/// The `len`-byte little-endian encoding of `v` (of `v` modulo `256^len`).
pub open spec fn le_bytes(v: nat, len: nat) -> Seq<u8>
    decreases len,
{
    if len == 0 {
        Seq::empty()
    } else {
        seq![(v % 256) as u8] + le_bytes(v / 256, (len - 1) as nat)
    }
}

/// The `len`-byte big-endian encoding of `v` (of `v` modulo `256^len`).
pub open spec fn be_bytes(v: nat, len: nat) -> Seq<u8>
    decreases len,
{
    if len == 0 {
        Seq::empty()
    } else {
        be_bytes(v / 256, (len - 1) as nat).push((v % 256) as u8)
    }
}

/// `n` zero bytes.
pub open spec fn zeros(n: nat) -> Seq<u8> {
    Seq::new(n, |i: int| 0u8)
}

/// A byte string of length `n` stands for a number below `256^n`.
pub proof fn lemma_be_value_bound(s: Seq<u8>)
    ensures
        be_value(s) < pow256(s.len()),
    decreases s.len(),
{
    if s.len() > 0 {
        lemma_be_value_bound(s.drop_last());
    }
}

/// An encoding has the width asked for.
pub proof fn lemma_be_bytes_len(v: nat, len: nat)
    ensures
        be_bytes(v, len).len() == len,
    decreases len,
{
    if len > 0 {
        lemma_be_bytes_len(v / 256, (len - 1) as nat);
    }
}

/// Encoding a number that fits and reading it back gives the number.
pub proof fn lemma_le_bytes_value(v: nat, len: nat)
    requires
        v < pow256(len),
    ensures
        le_value(le_bytes(v, len)) == v,
    decreases len,
{
    if len > 0 {
        let rest = le_bytes(v / 256, (len - 1) as nat);
        let s = le_bytes(v, len);
        lemma_le_bytes_value(v / 256, (len - 1) as nat);
        assert(s.drop_first() =~= rest);
        assert(s[0] == (v % 256) as u8);
    }
}

/// Reading a byte string and encoding the number at the same width gives
/// the byte string back: `le_value` is one-to-one on strings of one length.
pub proof fn lemma_le_value_bytes(s: Seq<u8>)
    ensures
        le_bytes(le_value(s), s.len()) == s,
    decreases s.len(),
{
    if s.len() > 0 {
        let v = le_value(s);
        lemma_le_value_bytes(s.drop_first());
        assert(v % 256 == s[0] as nat);
        assert(v / 256 == le_value(s.drop_first()));
        assert(le_bytes(v, s.len()) =~= s);
    } else {
        assert(le_bytes(le_value(s), s.len()) =~= s);
    }
}

/// Two byte strings of one length that stand for the same little-endian
/// number are the same string.
pub proof fn lemma_le_value_injective(a: Seq<u8>, b: Seq<u8>)
    requires
        a.len() == b.len(),
        le_value(a) == le_value(b),
    ensures
        a == b,
{
    lemma_le_value_bytes(a);
    lemma_le_value_bytes(b);
}

/// Encoding a number that fits and reading it back gives the number.
pub proof fn lemma_be_bytes_value(v: nat, len: nat)
    requires
        v < pow256(len),
    ensures
        be_value(be_bytes(v, len)) == v,
    decreases len,
{
    if len > 0 {
        let rest = be_bytes(v / 256, (len - 1) as nat);
        let s = be_bytes(v, len);
        lemma_be_bytes_value(v / 256, (len - 1) as nat);
        assert(s.drop_last() =~= rest);
        assert(s.last() == (v % 256) as u8);
    }
}

/// Reading a byte string and encoding the number at the same width gives
/// the byte string back: `be_value` is one-to-one on strings of one length.
pub proof fn lemma_be_value_bytes(s: Seq<u8>)
    ensures
        be_bytes(be_value(s), s.len()) == s,
    decreases s.len(),
{
    if s.len() > 0 {
        let v = be_value(s);
        lemma_be_value_bytes(s.drop_last());
        assert(v % 256 == s.last() as nat);
        assert(v / 256 == be_value(s.drop_last()));
        assert(be_bytes(v, s.len()) =~= s);
    } else {
        assert(be_bytes(be_value(s), s.len()) =~= s);
    }
}

/// Two byte strings of one length that stand for the same big-endian number
/// are the same string.
pub proof fn lemma_be_value_injective(a: Seq<u8>, b: Seq<u8>)
    requires
        a.len() == b.len(),
        be_value(a) == be_value(b),
    ensures
        a == b,
{
    lemma_be_value_bytes(a);
    lemma_be_value_bytes(b);
}

/// Reversing a byte string swaps the two readings.
pub proof fn lemma_reverse_value(s: Seq<u8>)
    ensures
        be_value(s.reverse()) == le_value(s),
    decreases s.len(),
{
    if s.len() > 0 {
        let r = s.reverse();
        lemma_reverse_value(s.drop_first());
        assert(r.drop_last() =~= s.drop_first().reverse());
        assert(r.last() == s[0]);
    }
}

/// The four bytes at `at`, read as a big-endian number.
pub fn read_be_u32(bytes: &[u8], at: usize) -> (v: u32)
    requires
        at + 4 <= bytes.len(),
    ensures
        v as nat == be_value(bytes@.subrange(at as int, at + 4)),
{
    let b0: u32 = bytes[at] as u32;
    let b1: u32 = bytes[at + 1] as u32;
    let b2: u32 = bytes[at + 2] as u32;
    let b3: u32 = bytes[at + 3] as u32;
    proof {
        let s = bytes@.subrange(at as int, at + 4);
        let s3 = s.drop_last();
        let s2 = s3.drop_last();
        let s1 = s2.drop_last();
        assert(s1.drop_last().len() == 0);
        assert(be_value(s1) == b0) by {
            reveal_with_fuel(be_value, 2);
        }
        assert(be_value(s2) == 256 * be_value(s1) + b1);
        assert(be_value(s3) == 256 * be_value(s2) + b2);
        assert(be_value(s) == 256 * be_value(s3) + b3);
    }
    b0 * 16777216 + b1 * 65536 + b2 * 256 + b3
}

/// The eight bytes at `at`, read as a big-endian number.
pub fn read_be_u64(bytes: &[u8], at: usize) -> (v: u64)
    requires
        at + 8 <= bytes.len(),
    ensures
        v as nat == be_value(bytes@.subrange(at as int, at + 8)),
{
    let mut v: u64 = 0;
    let mut i: usize = 0;
    while i < 8
        invariant
            i <= 8,
            at + 8 <= bytes.len(),
            v as nat == be_value(bytes@.subrange(at as int, at + i)),
            v as nat <= pow256(i as nat) - 1,
        decreases 8 - i,
    {
        proof {
            let next = bytes@.subrange(at as int, at + i + 1);
            assert(next.drop_last() =~= bytes@.subrange(at as int, at + i));
            assert(next.last() == bytes@[at + i]);
            lemma_pow256_small();
        }
        v = v * 256 + bytes[at + i] as u64;
        i += 1;
    }
    v
}

/// The eight bytes at `at`, read as a little-endian number.
pub fn read_le_u64(bytes: &[u8], at: usize) -> (v: u64)
    requires
        at + 8 <= bytes.len(),
    ensures
        v as nat == le_value(bytes@.subrange(at as int, at + 8)),
{
    let mut v: u64 = 0;
    let mut i: usize = 8;
    while i > 0
        invariant
            i <= 8,
            at + 8 <= bytes.len(),
            v as nat == le_value(bytes@.subrange(at + i, at + 8)),
            v as nat <= pow256((8 - i) as nat) - 1,
        decreases i,
    {
        i -= 1;
        proof {
            let next = bytes@.subrange(at + i, at + 8);
            assert(next.drop_first() =~= bytes@.subrange(at + i + 1, at + 8));
            assert(next[0] == bytes@[at + i]);
            lemma_pow256_small();
        }
        v = v * 256 + bytes[at + i] as u64;
    }
    v
}

/// The powers of 256 up to the eighth, spelled out.
pub proof fn lemma_pow256_small()
    ensures
        pow256(0) == 1,
        pow256(1) == 0x100,
        pow256(2) == 0x1_0000,
        pow256(3) == 0x100_0000,
        pow256(4) == 0x1_0000_0000,
        pow256(5) == 0x100_0000_0000,
        pow256(6) == 0x1_0000_0000_0000,
        pow256(7) == 0x100_0000_0000_0000,
        pow256(8) == 0x1_0000_0000_0000_0000,
{
    reveal_with_fuel(pow256, 9);
}

/// The `N` bytes of `bytes` that start at `at`, as an array.
pub fn copy_array<const N: usize>(bytes: &[u8], at: usize) -> (out: [u8; N])
    requires
        at + N <= bytes.len(),
    ensures
        out@ == bytes@.subrange(at as int, at + N),
{
    let mut out = [0u8; N];
    let mut i: usize = 0;
    while i < N
        invariant
            i <= N,
            at + N <= bytes.len(),
            forall|j: int| 0 <= j < i ==> out@[j] == bytes@[at + j],
        decreases N - i,
    {
        out[i] = bytes[at + i];
        i += 1;
    }
    assert(out@ =~= bytes@.subrange(at as int, at + N));
    out
}

/// Whether two byte strings are the same string.
pub fn bytes_equal(a: &[u8], b: &[u8]) -> (same: bool)
    ensures
        same <==> a@ == b@,
{
    if a.len() != b.len() {
        return false;
    }
    let mut i: usize = 0;
    while i < a.len()
        invariant
            i <= a.len(),
            a.len() == b.len(),
            forall|j: int| 0 <= j < i ==> a@[j] == b@[j],
        decreases a.len() - i,
    {
        if a[i] != b[i] {
            return false;
        }
        i += 1;
    }
    assert(a@ =~= b@);
    true
}

/// The eight-byte little-endian encoding of `v`.
pub fn u64_le_bytes(v: u64) -> (out: [u8; 8])
    ensures
        out@ == le_bytes(v as nat, 8),
{
    let mut out = [0u8; 8];
    let mut rest: u64 = v;
    let mut i: usize = 0;
    while i < 8
        invariant
            i <= 8,
            out@.subrange(0, i as int) + le_bytes(rest as nat, (8 - i) as nat) == le_bytes(
                v as nat,
                8,
            ),
        decreases 8 - i,
    {
        let ghost before = out@;
        out[i] = (rest % 256) as u8;
        proof {
            let tail = le_bytes((rest / 256) as nat, (8 - i - 1) as nat);
            assert(le_bytes(rest as nat, (8 - i) as nat) == seq![(rest % 256) as u8] + tail);
            assert(out@.subrange(0, i + 1) =~= before.subrange(0, i as int) + seq![
                (rest % 256) as u8,
            ]);
            assert(out@.subrange(0, i + 1) + tail =~= before.subrange(0, i as int) + (seq![
                (rest % 256) as u8,
            ] + tail));
        }
        rest = rest / 256;
        i += 1;
    }
    assert(out@ =~= out@.subrange(0, 8) + le_bytes(rest as nat, 0));
    out
}

/// The four-byte big-endian encoding of `v`.
pub fn u32_be_bytes(v: u32) -> (out: [u8; 4])
    ensures
        out@ == be_bytes(v as nat, 4),
{
    let mut out = [0u8; 4];
    let mut rest: u32 = v;
    let mut i: usize = 4;
    while i > 0
        invariant
            i <= 4,
            be_bytes(rest as nat, i as nat) + out@.subrange(i as int, 4) == be_bytes(v as nat, 4),
        decreases i,
    {
        let ghost before = out@;
        i -= 1;
        out[i] = (rest % 256) as u8;
        proof {
            let head = be_bytes((rest / 256) as nat, i as nat);
            assert(be_bytes(rest as nat, (i + 1) as nat) == head.push((rest % 256) as u8));
            assert(out@.subrange(i as int, 4) =~= seq![(rest % 256) as u8] + before.subrange(
                i + 1,
                4,
            ));
            assert(head + out@.subrange(i as int, 4) =~= head.push((rest % 256) as u8)
                + before.subrange(i + 1, 4));
        }
        rest = rest / 256;
    }
    assert(out@ =~= be_bytes(rest as nat, 0) + out@.subrange(0, 4));
    out
}

/// Overwrites the bytes of `dst` from `at` on with `src`.
pub fn write_at<const N: usize>(dst: &mut [u8; N], at: usize, src: &[u8])
    requires
        at + src.len() <= N,
    ensures
        final(dst)@ == old(dst)@.subrange(0, at as int) + src@ + old(dst)@.subrange(
            at + src.len(),
            N as int,
        ),
{
    let mut i: usize = 0;
    while i < src.len()
        invariant
            i <= src.len(),
            at + src.len() <= N,
            forall|j: int| 0 <= j < at ==> dst@[j] == old(dst)@[j],
            forall|j: int| 0 <= j < i ==> dst@[at + j] == src@[j],
            forall|j: int| at + i <= j < N ==> dst@[j] == old(dst)@[j],
        decreases src.len() - i,
    {
        dst[at + i] = src[i];
        i += 1;
    }
    assert(dst@ =~= old(dst)@.subrange(0, at as int) + src@ + old(dst)@.subrange(
        at + src.len(),
        N as int,
    ));
}

} // verus!
