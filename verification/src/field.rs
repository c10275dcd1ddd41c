//! The scalar field of BN254 and the passage between 32-byte strings and
//! its elements. Field arithmetic is arkworks'; an element is kept here as
//! the canonical little-endian bytes of its value.

use crate::bytes::{
    be_value, bytes_equal, copy_array, le_bytes, le_value, lemma_be_value_injective, lemma_le_bytes_value,
    lemma_le_value_bytes, lemma_le_value_injective, lemma_pow256_small, lemma_reverse_value,
    u64_le_bytes,
};
use ark_ff::{BigInteger, PrimeField};
use light_poseidon::PoseidonHasher;
use vstd::prelude::*;

verus! {

/// The order `r` of the scalar field of BN254.
pub open spec fn fr_modulus() -> nat {
    21888242871839275222246405745257275088548364400416034343698204186575808495617nat
}

/// Trusted: `ark_bn254::Fr::from_le_bytes_mod_order`, then `into_bigint`
/// and `to_bytes_le`. The contract claims that the 32 bytes returned are
/// the little-endian form of the number that `bytes` stands for in
/// little-endian, reduced modulo `r`: arkworks documents the first call as
/// reading the bytes and performing "the appropriate reduction", the second
/// as giving the integer in `0..(p - 1)`.
#[verifier::external_body]
fn reduce_le(bytes: &[u8]) -> (out: Vec<u8>)
    ensures
        out@.len() == 32,
        le_value(out@) == le_value(bytes@) % fr_modulus(),
{
    ark_bn254::Fr::from_le_bytes_mod_order(bytes).into_bigint().to_bytes_le()
}

/// Trusted: `ark_bn254::Fr::from_be_bytes_mod_order`, then `into_bigint`
/// and `to_bytes_le`. The contract claims that the 32 bytes returned are
/// the little-endian form of the number that `bytes` stands for in
/// big-endian, reduced modulo `r`.
#[verifier::external_body]
fn reduce_be(bytes: &[u8]) -> (out: Vec<u8>)
    ensures
        out@.len() == 32,
        le_value(out@) == be_value(bytes@) % fr_modulus(),
{
    ark_bn254::Fr::from_be_bytes_mod_order(bytes).into_bigint().to_bytes_le()
}

/// Trusted: the product of two elements of `ark_bn254::Fr` (its `Mul`),
/// each read with `from_le_bytes_mod_order` and the product written with
/// `into_bigint` and `to_bytes_le`. The contract claims that the 32 bytes
/// returned are the little-endian form of the product of the two numbers
/// modulo `r`: multiplication in the prime field.
#[verifier::external_body]
fn product_mod_order(a: &[u8; 32], b: &[u8; 32]) -> (out: Vec<u8>)
    ensures
        out@.len() == 32,
        le_value(out@) == (le_value(a@) * le_value(b@)) % fr_modulus(),
{
    let x = ark_bn254::Fr::from_le_bytes_mod_order(a);
    let y = ark_bn254::Fr::from_le_bytes_mod_order(b);
    (x * y).into_bigint().to_bytes_le()
}

/// An element of the scalar field: a number below `r`.
#[derive(Copy, Clone, Debug, PartialEq, Eq)]
pub struct FieldElement {
    pub(crate) le: [u8; 32],
}

impl FieldElement {
    /// The number that the element is.
    pub closed spec fn value(&self) -> nat {
        le_value(self.le@)
    }

    #[verifier::type_invariant]
    closed spec fn reduced(&self) -> bool {
        le_value(self.le@) < fr_modulus()
    }

    /// The element whose canonical little-endian bytes are `le`.
    fn from_canonical(le: Vec<u8>) -> (field: FieldElement)
        requires
            le@.len() == 32,
            le_value(le@) < fr_modulus(),
        ensures
            field.value() == le_value(le@),
    {
        assert(le@.subrange(0, 32) =~= le@);
        FieldElement { le: copy_array(le.as_slice(), 0) }
    }

    /// The element that a 64-bit number is.
    pub fn from_u64(v: u64) -> (field: FieldElement)
        ensures
            field.value() == v,
    {
        let bytes = u64_le_bytes(v);
        proof {
            lemma_pow256_small();
            lemma_le_bytes_value(v as nat, 8);
        }
        FieldElement::from_canonical(reduce_le(bytes.as_slice()))
    }

    /// The element that a big-endian number of any length is modulo `r`.
    pub fn from_be_bytes_mod_order(bytes: &[u8]) -> (field: FieldElement)
        ensures
            field.value() == be_value(bytes@) % fr_modulus(),
    {
        FieldElement::from_canonical(reduce_be(bytes))
    }

    /// The canonical 32-byte big-endian form of the element.
    pub fn to_bytes_be(&self) -> (bytes: [u8; 32])
        ensures
            be_value(bytes@) == self.value(),
            self.value() < fr_modulus(),
    {
        proof {
            use_type_invariant(self);
        }
        let mut out = [0u8; 32];
        let mut i: usize = 0;
        while i < 32
            invariant
                i <= 32,
                forall|j: int| 0 <= j < i ==> out@[j] == self.le@[31 - j],
            decreases 32 - i,
        {
            out[i] = self.le[31 - i];
            i += 1;
        }
        proof {
            assert(out@ =~= self.le@.reverse());
            lemma_reverse_value(self.le@);
        }
        out
    }

    /// The product of two elements.
    pub fn mul(&self, other: &FieldElement) -> (product: FieldElement)
        ensures
            product.value() == (self.value() * other.value()) % fr_modulus(),
    {
        FieldElement::from_canonical(product_mod_order(&self.le, &other.le))
    }
}

/// The Poseidon hash of a list of field elements, with the parameters that
/// circom fixes for BN254 (x^5 S-box, width one more than the inputs): an
/// element of the field.
pub uninterp spec fn poseidon(inputs: Seq<nat>) -> nat;

/// The numbers that a list of field elements is.
pub open spec fn values(inputs: Seq<FieldElement>) -> Seq<nat> {
    Seq::new(inputs.len(), |i: int| inputs[i].value())
}

/// Trusted: `light_poseidon::Poseidon::<Fr>::new_circom` for as many inputs
/// as are given, then `PoseidonHasher::hash` on them. The contract claims
/// that the element returned is the Poseidon hash of the inputs, a function
/// of the inputs alone. Both calls return an error for a number of inputs
/// that the parameters do not cover, which `requires` leaves out; for 1 to
/// 12 inputs neither fails.
#[verifier::external_body]
fn circom_poseidon(inputs: &[FieldElement]) -> (out: Vec<u8>)
    requires
        1 <= inputs.len() <= 12,
    ensures
        out@.len() == 32,
        le_value(out@) == poseidon(values(inputs@)),
        le_value(out@) < fr_modulus(),
{
    let elements: Vec<ark_bn254::Fr> = inputs.iter().map(
        |f| ark_bn254::Fr::from_le_bytes_mod_order(&f.le),
    ).collect();
    let mut hasher = light_poseidon::Poseidon::<ark_bn254::Fr>::new_circom(elements.len()).expect(
        "Poseidon init failed",
    );
    let digest = hasher.hash(&elements).expect("Poseidon hash failed");
    digest.into_bigint().to_bytes_le()
}

/// The Poseidon hash of 1 to 12 field elements.
pub fn poseidon_hash(inputs: &[FieldElement]) -> (digest: FieldElement)
    requires
        1 <= inputs.len() <= 12,
    ensures
        digest.value() == poseidon(values(inputs@)),
{
    FieldElement::from_canonical(circom_poseidon(inputs))
}

/// The field element that 32 bytes stand for: their little-endian number,
/// reduced modulo `r`.
pub fn bytes_to_field(bytes: &[u8; 32]) -> (field: FieldElement)
    ensures
        field.value() == le_value(bytes@) % fr_modulus(),
{
    FieldElement::from_canonical(reduce_le(bytes.as_slice()))
}

/// The canonical 32-byte little-endian form of a field element.
pub fn field_to_bytes(field: &FieldElement) -> (bytes: [u8; 32])
    ensures
        bytes@ == le_bytes(field.value(), 32),
        le_value(bytes@) == field.value(),
        field.value() < fr_modulus(),
{
    proof {
        use_type_invariant(field);
        lemma_le_value_bytes(field.le@);
    }
    field.le
}

/// Whether 32 bytes are the canonical form of a field element: whether
/// their little-endian number is below `r`.
pub fn is_canonical(bytes: &[u8; 32]) -> (canonical: bool)
    ensures
        canonical <==> le_value(bytes@) < fr_modulus(),
{
    let field = bytes_to_field(bytes);
    let recovered = field_to_bytes(&field);
    proof {
        if le_value(bytes@) < fr_modulus() {
            lemma_le_value_injective(bytes@, recovered@);
        }
    }
    bytes_equal(bytes.as_slice(), recovered.as_slice())
}

/// Whether 32 bytes are the canonical big-endian form of a field element:
/// whether their big-endian number is below `r`.
pub fn is_canonical_be(bytes: &[u8; 32]) -> (canonical: bool)
    ensures
        canonical <==> be_value(bytes@) < fr_modulus(),
{
    let field = FieldElement::from_be_bytes_mod_order(bytes.as_slice());
    let recovered = field.to_bytes_be();
    proof {
        if be_value(bytes@) < fr_modulus() {
            lemma_be_value_injective(bytes@, recovered@);
        }
    }
    bytes_equal(bytes.as_slice(), recovered.as_slice())
}

/// Converting canonical bytes to a field element and back gives the bytes;
/// converting any bytes there and back gives canonical bytes.
pub proof fn lemma_field_round_trip(bytes: Seq<u8>)
    requires
        bytes.len() == 32,
    ensures
        le_value(bytes) < fr_modulus() ==> le_bytes(le_value(bytes) % fr_modulus(), 32) == bytes,
        le_value(le_bytes(le_value(bytes) % fr_modulus(), 32)) == le_value(bytes) % fr_modulus(),
{
    lemma_le_value_bytes(bytes);
    lemma_modulus_fits();
    lemma_le_bytes_value(le_value(bytes) % fr_modulus(), 32);
}

/// `r` is below `256^32`: every element has a 32-byte form.
pub proof fn lemma_modulus_fits()
    ensures
        fr_modulus() < crate::bytes::pow256(32),
{
    reveal_with_fuel(crate::bytes::pow256, 33);
}

} // verus!
