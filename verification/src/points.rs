//! Points of BN254 as the verifier handles them: the negation of a point of
//! G1, which is arithmetic on its second coordinate, and the byte layout of
//! a point of G2.

use crate::bytes::{
    be_bytes, be_value, bytes_equal, copy_array, lemma_be_value_bound, lemma_be_value_bytes,
    lemma_be_value_injective, pow256, write_at,
};
use vstd::prelude::*;

verus! {

/// The order `q` of the base field of BN254.
pub open spec fn fq_modulus() -> nat {
    21888242871839275222246405745257275088696311157297823662689037894645226208583nat
}

/// The 32 big-endian bytes of `q`.
pub const FQ_MODULUS_BE: [u8; 32] = [
    48, 100, 78, 114, 225, 49, 160, 41, 184, 80, 69, 182, 129, 129, 88, 93, 151, 129, 106,
    145, 104, 113, 202, 141, 60, 32, 140, 22, 216, 124, 253, 71,
];

/// `FQ_MODULUS_BE` holds `q`.
pub proof fn lemma_fq_modulus_bytes()
    ensures
        be_value(FQ_MODULUS_BE@) == fq_modulus(),
{
    let s = FQ_MODULUS_BE@;
    assert(s.take(0) =~= Seq::<u8>::empty());
    assert(be_value(s.take(0)) == 0);
    assert(s.take(1).drop_last() =~= s.take(0));
    assert(be_value(s.take(1)) == 48nat);
    assert(s.take(2).drop_last() =~= s.take(1));
    assert(be_value(s.take(2)) == 12388nat);
    assert(s.take(3).drop_last() =~= s.take(2));
    assert(be_value(s.take(3)) == 3171406nat);
    assert(s.take(4).drop_last() =~= s.take(3));
    assert(be_value(s.take(4)) == 811880050nat);
    assert(s.take(5).drop_last() =~= s.take(4));
    assert(be_value(s.take(5)) == 207841293025nat);
    assert(s.take(6).drop_last() =~= s.take(5));
    assert(be_value(s.take(6)) == 53207371014449nat);
    assert(s.take(7).drop_last() =~= s.take(6));
    assert(be_value(s.take(7)) == 13621086979699104nat);
    assert(s.take(8).drop_last() =~= s.take(7));
    assert(be_value(s.take(8)) == 3486998266802970665nat);
    assert(s.take(9).drop_last() =~= s.take(8));
    assert(be_value(s.take(9)) == 892671556301560490424nat);
    assert(s.take(10).drop_last() =~= s.take(9));
    assert(be_value(s.take(10)) == 228523918413199485548624nat);
    assert(s.take(11).drop_last() =~= s.take(10));
    assert(be_value(s.take(11)) == 58502123113779068300447813nat);
    assert(s.take(12).drop_last() =~= s.take(11));
    assert(be_value(s.take(12)) == 14976543517127441484914640310nat);
    assert(s.take(13).drop_last() =~= s.take(12));
    assert(be_value(s.take(13)) == 3833995140384625020138147919489nat);
    assert(s.take(14).drop_last() =~= s.take(13));
    assert(be_value(s.take(14)) == 981502755938464005155365867389313nat);
    assert(s.take(15).drop_last() =~= s.take(14));
    assert(be_value(s.take(15)) == 251264705520246785319773662051664216nat);
    assert(s.take(16).drop_last() =~= s.take(15));
    assert(be_value(s.take(16)) == 64323764613183177041862057485226039389nat);
    assert(s.take(17).drop_last() =~= s.take(16));
    assert(be_value(s.take(17)) == 16466883740974893322716686716217866083735nat);
    assert(s.take(18).drop_last() =~= s.take(17));
    assert(be_value(s.take(18)) == 4215522237689572690615471799351773717436289nat);
    assert(s.take(19).drop_last() =~= s.take(18));
    assert(be_value(s.take(19)) == 1079173692848530608797560780634054071663690090nat);
    assert(s.take(20).drop_last() =~= s.take(19));
    assert(be_value(s.take(20)) == 276268465369223835852175559842317842345904663185nat);
    assert(s.take(21).drop_last() =~= s.take(20));
    assert(be_value(s.take(21)) == 70724727134521301978156943319633367640551593775464nat);
    assert(s.take(22).drop_last() =~= s.take(21));
    assert(be_value(s.take(22)) == 18105530146437453306408177489826142115981208006518897nat);
    assert(s.take(23).drop_last() =~= s.take(22));
    assert(be_value(s.take(23)) == 4635015717487988046440493437395492381691189249668837834nat);
    assert(s.take(24).drop_last() =~= s.take(23));
    assert(be_value(s.take(24)) == 1186564023676924939888766319973246049712944447915222485645nat);
    assert(s.take(25).drop_last() =~= s.take(24));
    assert(be_value(s.take(25)) == 303760390061292784611524177913150988726513778666296956325180nat);
    assert(s.take(26).drop_last() =~= s.take(25));
    assert(be_value(s.take(26)) == 77762659855690952860550189545766653113987527338572020819246112nat);
    assert(s.take(27).drop_last() =~= s.take(26));
    assert(be_value(s.take(27)) == 19907240923056883932300848523716263197180806998674437329727004812nat);
    assert(s.take(28).drop_last() =~= s.take(27));
    assert(be_value(s.take(28)) == 5096253676302562286669017222071363378478286591660655956410113231894nat);
    assert(s.take(29).drop_last() =~= s.take(28));
    assert(be_value(s.take(29)) == 1304640941133455945387268408850269024890441367465127924840988987365080nat);
    assert(s.take(30).drop_last() =~= s.take(29));
    assert(be_value(s.take(30)) == 333988080930164722019140712665668870371952990071072748759293180765460604nat);
    assert(s.take(31).drop_last() =~= s.take(30));
    assert(be_value(s.take(31)) == 85500948718122168836900022442411230815219965458194623682379054275957914877nat);
    assert(s.take(32).drop_last() =~= s.take(31));
    assert(be_value(s.take(32)) == 21888242871839275222246405745257275088696311157297823662689037894645226208583nat);
    assert(s.take(32) =~= s);
}

/// The value of a big-endian string is the value of its first `k` bytes,
/// moved up by the length of the rest, and the value of the rest.
pub proof fn lemma_be_value_split(s: Seq<u8>, k: int)
    requires
        0 <= k <= s.len(),
    ensures
        be_value(s) == be_value(s.take(k)) * pow256((s.len() - k) as nat) + be_value(s.skip(k)),
    decreases s.len(),
{
    if k == s.len() {
        assert(s.take(k) =~= s);
        assert(s.skip(k) =~= Seq::<u8>::empty());
        assert(pow256((s.len() - k) as nat) == 1);
        assert(be_value(s.skip(k)) == 0);
        assert(be_value(s.take(k)) * 1 == be_value(s));
    } else {
        let front = s.drop_last();
        lemma_be_value_split(front, k);
        assert(front.take(k) =~= s.take(k));
        assert(s.skip(k).drop_last() =~= front.skip(k));
        assert(s.skip(k).last() == s.last());
        let t = be_value(s.take(k));
        let p = pow256((s.len() - 1 - k) as nat);
        assert(pow256((s.len() - k) as nat) == 256 * p);
        assert(256 * (t * p) == t * (256 * p)) by (nonlinear_arith);
        assert(be_value(s) == 256 * be_value(front) + s.last());
        assert(be_value(front) == t * p + be_value(front.skip(k)));
        assert(be_value(s.skip(k)) == 256 * be_value(front.skip(k)) + s.last());
        let whole = pow256((s.len() - k) as nat);
        assert(t * whole == 256 * (t * p)) by (nonlinear_arith)
            requires
                whole == 256 * p,
        ;
    }
}

/// The value of the bytes from `i` on is byte `i`, moved up by the length
/// of the bytes after it, and the value of those.
pub proof fn lemma_be_value_suffix(s: Seq<u8>, i: int)
    requires
        0 <= i < s.len(),
    ensures
        be_value(s.skip(i)) == s[i] * pow256((s.len() - i - 1) as nat) + be_value(s.skip(i + 1)),
{
    let t = s.skip(i);
    lemma_be_value_split(t, 1);
    assert(t.take(1).drop_last() =~= Seq::<u8>::empty());
    assert(be_value(t.take(1)) == s[i]) by {
        reveal_with_fuel(be_value, 2);
    }
    assert(t.skip(1) =~= s.skip(i + 1));
}

/// The negation of a point of G1 given by its two 32-byte big-endian
/// coordinates: the same first coordinate, and `q` less the second (a
/// second coordinate of 0 stays 0, which keeps the identity, all zeros, as
/// it is). `None` where the second coordinate is not below `q`: such bytes
/// are no point.
pub open spec fn negated_g1(p: Seq<u8>) -> Option<Seq<u8>> {
    let y = be_value(p.subrange(32, 64));
    if y >= fq_modulus() {
        None
    } else if y == 0 {
        Some(p)
    } else {
        Some(p.subrange(0, 32) + be_bytes((fq_modulus() - y) as nat, 32))
    }
}

/// `minuend - subtrahend` on 32-byte big-endian numbers, modulo `256^32`,
/// with the borrow out of the top byte.
pub fn sub_be(minuend: &[u8; 32], subtrahend: &[u8; 32]) -> (out: ([u8; 32], bool))
    ensures
        be_value(out.0@) == be_value(minuend@) - be_value(subtrahend@) + (if out.1 {
            pow256(32) as int
        } else {
            0
        }),
        out.1 <==> be_value(minuend@) < be_value(subtrahend@),
{
    let mut diff = [0u8; 32];
    let mut borrow: u8 = 0;
    let mut i: usize = 32;
    assert(diff@.skip(32) =~= Seq::<u8>::empty());
    assert(minuend@.skip(32) =~= Seq::<u8>::empty());
    assert(subtrahend@.skip(32) =~= Seq::<u8>::empty());
    while i > 0
        invariant
            i <= 32,
            borrow <= 1,
            be_value(diff@.skip(i as int)) == be_value(minuend@.skip(i as int)) - be_value(
                subtrahend@.skip(i as int),
            ) + borrow * pow256((32 - i) as nat),
        decreases i,
    {
        let ghost before = diff@;
        let ghost old_borrow = borrow;
        i -= 1;
        let m: u16 = minuend[i] as u16;
        let s: u16 = subtrahend[i] as u16 + borrow as u16;
        if m >= s {
            diff[i] = (m - s) as u8;
            borrow = 0;
        } else {
            diff[i] = (m + 256 - s) as u8;
            borrow = 1;
        }
        proof {
            let p = pow256((32 - i - 1) as nat);
            assert(pow256((32 - i) as nat) == 256 * p);
            assert(diff@.skip(i + 1) =~= before.skip(i + 1));
            lemma_be_value_suffix(diff@, i as int);
            lemma_be_value_suffix(minuend@, i as int);
            lemma_be_value_suffix(subtrahend@, i as int);
            let d = diff@[i as int] as int;
            let mi = minuend@[i as int] as int;
            let si = subtrahend@[i as int] as int;
            assert(d == mi - si - old_borrow + 256 * borrow);
            assert(d * p == mi * p - si * p - old_borrow * p + borrow * (256 * p))
                by (nonlinear_arith)
                requires
                    d == mi - si - old_borrow + 256 * borrow,
            ;
        }
    }
    proof {
        assert(diff@.skip(0) =~= diff@);
        assert(minuend@.skip(0) =~= minuend@);
        assert(subtrahend@.skip(0) =~= subtrahend@);
        lemma_be_value_bound(diff@);
        lemma_be_value_bound(minuend@);
        lemma_be_value_bound(subtrahend@);
    }
    (diff, borrow == 1)
}

/// Negates a point of G1.
pub fn negate_g1(p: &[u8; 64]) -> (negated: Option<[u8; 64]>)
    ensures
        negated is Some <==> negated_g1(p@) is Some,
        negated is Some ==> negated.unwrap()@ == negated_g1(p@).unwrap(),
{
    let y: [u8; 32] = copy_array(p.as_slice(), 32);
    let q = FQ_MODULUS_BE;
    proof {
        lemma_fq_modulus_bytes();
    }
    let (diff, borrow) = sub_be(&q, &y);
    if borrow {
        return None;
    }
    if bytes_equal(y.as_slice(), q.as_slice()) {
        return None;
    }
    proof {
        if be_value(y@) == fq_modulus() {
            lemma_be_value_injective(y@, q@);
        }
    }
    if bytes_equal(diff.as_slice(), q.as_slice()) {
        return Some(*p);
    }
    proof {
        if be_value(y@) == 0 {
            lemma_be_value_injective(diff@, q@);
        }
        lemma_be_value_bytes(diff@);
    }
    let mut out = *p;
    write_at(&mut out, 32, diff.as_slice());
    assert(out@ =~= p@.subrange(0, 32) + diff@);
    Some(out)
}

/// A point of G2 by its coordinates: two elements of the quadratic
/// extension of the base field, each a pair `c0 + c1 * u` of 32-byte
/// big-endian numbers.
#[derive(Clone, Copy, Debug, PartialEq, Eq)]
pub struct G2Point {
    pub x_c0: [u8; 32],
    pub x_c1: [u8; 32],
    pub y_c0: [u8; 32],
    pub y_c1: [u8; 32],
}

impl G2Point {
    /// The 128-byte layout of the point: each coordinate with `c1` before
    /// `c0`, the first coordinate before the second.
    pub open spec fn layout(&self) -> Seq<u8> {
        self.x_c1@ + self.x_c0@ + self.y_c1@ + self.y_c0@
    }
}

/// The 128 bytes of a point of G2.
pub fn g2_to_bytes(p: &G2Point) -> (bytes: [u8; 128])
    ensures
        bytes@ == p.layout(),
{
    let mut out = [0u8; 128];
    write_at(&mut out, 0, p.x_c1.as_slice());
    write_at(&mut out, 32, p.x_c0.as_slice());
    write_at(&mut out, 64, p.y_c1.as_slice());
    write_at(&mut out, 96, p.y_c0.as_slice());
    assert(out@ =~= p.layout());
    out
}

/// The point of G2 that 128 bytes hold.
pub fn g2_from_bytes(bytes: &[u8; 128]) -> (p: G2Point)
    ensures
        p.layout() == bytes@,
        p.x_c1@ == bytes@.subrange(0, 32),
        p.x_c0@ == bytes@.subrange(32, 64),
        p.y_c1@ == bytes@.subrange(64, 96),
        p.y_c0@ == bytes@.subrange(96, 128),
{
    let p = G2Point {
        x_c1: copy_array(bytes.as_slice(), 0),
        x_c0: copy_array(bytes.as_slice(), 32),
        y_c1: copy_array(bytes.as_slice(), 64),
        y_c0: copy_array(bytes.as_slice(), 96),
    };
    assert(p.layout() =~= bytes@);
    p
}

/// Two points of G2 with the same layout are the same point: a point
/// written to bytes and read back is the point, and bytes read as a point
/// and written back are the bytes.
pub proof fn lemma_g2_round_trip(p: G2Point, q: G2Point)
    requires
        q.layout() == p.layout(),
    ensures
        q == p,
{
    assert(p.x_c1@ =~= p.layout().subrange(0, 32));
    assert(q.x_c1@ =~= q.layout().subrange(0, 32));
    assert(p.x_c0@ =~= p.layout().subrange(32, 64));
    assert(q.x_c0@ =~= q.layout().subrange(32, 64));
    assert(p.y_c1@ =~= p.layout().subrange(64, 96));
    assert(q.y_c1@ =~= q.layout().subrange(64, 96));
    assert(p.y_c0@ =~= p.layout().subrange(96, 128));
    assert(q.y_c0@ =~= q.layout().subrange(96, 128));
    assert(p.x_c1 =~= q.x_c1);
    assert(p.x_c0 =~= q.x_c0);
    assert(p.y_c1 =~= q.y_c1);
    assert(p.y_c0 =~= q.y_c0);
}

/// Negating a point twice gives the point back, where the point has a
/// second coordinate below `q`.
pub proof fn lemma_negation_is_an_involution(p: Seq<u8>)
    requires
        p.len() == 64,
        negated_g1(p) is Some,
    ensures
        negated_g1(negated_g1(p).unwrap()) == Some(p),
{
    let y = be_value(p.subrange(32, 64));
    if y != 0 {
        let n = negated_g1(p).unwrap();
        let flipped = (fq_modulus() - y) as nat;
        crate::bytes::lemma_be_bytes_len(flipped, 32);
        assert(fq_modulus() < pow256(32)) by {
            reveal_with_fuel(pow256, 33);
        }
        crate::bytes::lemma_be_bytes_value(flipped, 32);
        assert(n.subrange(32, 64) =~= be_bytes(flipped, 32));
        assert(n.subrange(0, 32) =~= p.subrange(0, 32));
        lemma_be_value_bytes(p.subrange(32, 64));
        assert(negated_g1(n).unwrap() =~= p);
    }
}

} // verus!
