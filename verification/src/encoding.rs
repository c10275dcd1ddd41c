//! The public inputs of an ownership proof and their wire form: the
//! 160-byte raw payload, the 5132-byte public witness that carries one
//! payload byte per 32-byte field element, and the action hash that binds a
//! proof to one effect.

use crate::bytes::{
    be_bytes, be_value, bytes_equal, copy_array, le_bytes, lemma_be_bytes_value, lemma_be_value_injective,
    lemma_pow256_small, read_be_u32, u32_be_bytes, u64_le_bytes, write_at,
};
use crate::sha::{hash, hashv, lemma_concat_five, parts_view, sha256};
use crate::types::{Commitment, Nullifier};
use vstd::slice::slice_subrange;
use vstd::prelude::*;

verus! {

/// Length of the raw payload: five 32-byte values.
pub const PUBLIC_INPUT_BYTES: usize = 160;

/// Number of field elements in the public witness: one per payload byte.
pub const PUBLIC_INPUT_COUNT: usize = PUBLIC_INPUT_BYTES;

/// Length of the witness header: three big-endian `u32`s.
pub const PUBLIC_WITNESS_HEADER_LEN: usize = 12;

/// Length of an encoded public witness.
pub const PUBLIC_WITNESS_SIZE: usize = PUBLIC_WITNESS_HEADER_LEN + PUBLIC_INPUT_COUNT * 32;

/// The most bytes of action parameters that an action hash takes.
pub const OWNERSHIP_ACTION_PARAMS_MAX_LEN: usize = 32;

/// The raw payload: the five values in their fixed order.
pub open spec fn public_inputs_layout(
    commitment: Seq<u8>,
    pda: Seq<u8>,
    program_id: Seq<u8>,
    action_hash: Seq<u8>,
    nullifier: Seq<u8>,
) -> Seq<u8> {
    commitment + pda + program_id + action_hash + nullifier
}

/// The witness header: the number of public inputs, the number of private
/// inputs (none), and the length of the vector that follows.
pub open spec fn witness_header() -> Seq<u8> {
    be_bytes(160, 4) + be_bytes(0, 4) + be_bytes(160, 4)
}

/// The public witness that carries `raw`: the header, then for each payload
/// byte a 32-byte big-endian field element whose value is that byte.
pub open spec fn witness_encoding(raw: Seq<u8>) -> Seq<u8> {
    Seq::new(
        5132,
        |i: int|
            if i < 12 {
                witness_header()[i]
            } else if (i - 12) % 32 == 31 {
                raw[(i - 12) / 32]
            } else {
                0u8
            },
    )
}

/// Whether `w` has the length of a public witness and the header of one.
pub open spec fn witness_header_ok(w: Seq<u8>) -> bool {
    &&& w.len() == 5132
    &&& be_value(w.subrange(0, 4)) == 160
    &&& be_value(w.subrange(4, 8)) == 0
    &&& be_value(w.subrange(8, 12)) == 160
}

/// The last byte of element `k` of a witness: the 32-byte element starts
/// after the header and the `k` elements before it.
pub open spec fn element_last_byte(w: Seq<u8>, k: int) -> u8 {
    w[12 + 32 * k + 31]
}

/// The payload that a witness carries: the last byte of each element.
pub open spec fn witness_payload(w: Seq<u8>) -> Seq<u8> {
    Seq::new(160, |k: int| element_last_byte(w, k))
}

/// Whether the 31 leading bytes of every element of `w` are zero, as they
/// are in every witness that `witness_encoding` produces.
pub open spec fn witness_padding_is_zero(w: Seq<u8>) -> bool {
    forall|i: int| 12 <= i < 5132 && (i - 12) % 32 != 31 ==> w[i] == 0
}

/// The action hash: the SHA-256 digest of the program, the resource, the
/// action's discriminator, its parameters and the nonce in little-endian.
pub open spec fn action_hash_of(
    program_id: Seq<u8>,
    pda: Seq<u8>,
    action_discriminator: Seq<u8>,
    action_params: Seq<u8>,
    nonce: u64,
) -> Seq<u8> {
    sha256(program_id + pda + action_discriminator + action_params + le_bytes(nonce as nat, 8))
}

/// The header, byte by byte.
pub proof fn lemma_witness_header()
    ensures
        be_bytes(160, 4) == seq![0u8, 0, 0, 160],
        be_bytes(0, 4) == seq![0u8, 0, 0, 0],
        witness_header() == seq![0u8, 0, 0, 160, 0, 0, 0, 0, 0, 0, 0, 160],
{
    reveal_with_fuel(be_bytes, 5);
    assert(be_bytes(160, 4) =~= seq![0u8, 0, 0, 160]);
    assert(be_bytes(0, 4) =~= seq![0u8, 0, 0, 0]);
    assert(witness_header() =~= seq![0u8, 0, 0, 160, 0, 0, 0, 0, 0, 0, 0, 160]);
}

/// Decoding the witness that carries a payload gives the payload back, and
/// that witness has the header of one and zero padding.
pub proof fn lemma_decode_of_encode(raw: Seq<u8>)
    requires
        raw.len() == 160,
    ensures
        witness_header_ok(witness_encoding(raw)),
        witness_padding_is_zero(witness_encoding(raw)),
        witness_payload(witness_encoding(raw)) == raw,
{
    let w = witness_encoding(raw);
    lemma_witness_header();
    lemma_pow256_small();
    lemma_be_bytes_value(160, 4);
    lemma_be_bytes_value(0, 4);
    assert(w.subrange(0, 4) =~= be_bytes(160, 4));
    assert(w.subrange(4, 8) =~= be_bytes(0, 4));
    assert(w.subrange(8, 12) =~= be_bytes(160, 4));
    assert(witness_payload(w) =~= raw);
}

/// Encoding the payload that a witness carries gives the witness back
/// exactly when the witness has zero padding: the decoder does not read the
/// padding, so a witness with other padding decodes, but to a payload whose
/// encoding differs from it.
pub proof fn lemma_encode_of_decode(w: Seq<u8>)
    requires
        witness_header_ok(w),
    ensures
        witness_encoding(witness_payload(w)) == w <==> witness_padding_is_zero(w),
{
    let e = witness_encoding(witness_payload(w));
    lemma_witness_header();
    lemma_pow256_small();
    lemma_be_bytes_value(160, 4);
    lemma_be_bytes_value(0, 4);
    lemma_be_value_injective(w.subrange(0, 4), be_bytes(160, 4));
    lemma_be_value_injective(w.subrange(4, 8), be_bytes(0, 4));
    lemma_be_value_injective(w.subrange(8, 12), be_bytes(160, 4));
    assert forall|i: int| 0 <= i < 12 implies w[i] == witness_header()[i] by {
        if i < 4 {
            assert(w[i] == w.subrange(0, 4)[i]);
        } else if i < 8 {
            assert(w[i] == w.subrange(4, 8)[i - 4]);
        } else {
            assert(w[i] == w.subrange(8, 12)[i - 8]);
        }
    }
    if witness_padding_is_zero(w) {
        assert forall|i: int| 0 <= i < 5132 implies e[i] == w[i] by {
            if i >= 12 && (i - 12) % 32 == 31 {
                assert(12 + 32 * ((i - 12) / 32) + 31 == i);
            }
        }
        assert(e =~= w);
    }
    if e == w {
        assert forall|i: int| 12 <= i < 5132 && (i - 12) % 32 != 31 implies w[i] == 0 by {
            assert(e[i] == 0);
        }
    }
}

/// A witness is the encoding of a payload exactly when it has the header of
/// a witness, zero padding, and carries the payload.
pub proof fn lemma_encoding_is_the_strict_inverse(w: Seq<u8>, raw: Seq<u8>)
    requires
        raw.len() == 160,
    ensures
        w == witness_encoding(raw) <==> witness_header_ok(w) && witness_padding_is_zero(w)
            && witness_payload(w) == raw,
{
    lemma_decode_of_encode(raw);
    if witness_header_ok(w) {
        lemma_encode_of_decode(w);
    }
}

/// Two public witnesses with the header of one carry the same payload
/// exactly when they agree on the last byte of every element.
pub proof fn lemma_payload_reads_last_bytes(w1: Seq<u8>, w2: Seq<u8>)
    requires
        witness_header_ok(w1),
        witness_header_ok(w2),
    ensures
        witness_payload(w1) == witness_payload(w2) <==> (forall|k: int|
            0 <= k < 160 ==> #[trigger] element_last_byte(w1, k) == element_last_byte(w2, k)),
{
    if witness_payload(w1) == witness_payload(w2) {
        assert forall|k: int| 0 <= k < 160 implies #[trigger] element_last_byte(w1, k)
            == element_last_byte(w2, k) by {
            assert(witness_payload(w1)[k] == witness_payload(w2)[k]);
        }
    } else {
        assert(!(witness_payload(w1) =~= witness_payload(w2)));
    }
}

/// The raw payload of five public inputs.
pub fn serialize_public_inputs(
    commitment: &[u8; 32],
    pda: &[u8; 32],
    program_id: &[u8; 32],
    action_hash: &[u8; 32],
    nullifier: &[u8; 32],
) -> (raw: [u8; PUBLIC_INPUT_BYTES])
    ensures
        raw@ == public_inputs_layout(
            commitment@,
            pda@,
            program_id@,
            action_hash@,
            nullifier@,
        ),
{
    let mut result = [0u8; PUBLIC_INPUT_BYTES];
    write_at(&mut result, 0, commitment.as_slice());
    write_at(&mut result, 32, pda.as_slice());
    write_at(&mut result, 64, program_id.as_slice());
    write_at(&mut result, 96, action_hash.as_slice());
    write_at(&mut result, 128, nullifier.as_slice());
    assert(result@ =~= public_inputs_layout(
        commitment@,
        pda@,
        program_id@,
        action_hash@,
        nullifier@,
    ));
    result
}

/// Encodes a raw payload as a public witness.
pub fn encode_public_witness(raw: &[u8; PUBLIC_INPUT_BYTES]) -> (witness: Vec<u8>)
    ensures
        witness@ == witness_encoding(raw@),
{
    let count = u32_be_bytes(160);
    let none = u32_be_bytes(0);
    let mut out: Vec<u8> = Vec::with_capacity(PUBLIC_WITNESS_SIZE);
    out.extend_from_slice(count.as_slice());
    out.extend_from_slice(none.as_slice());
    out.extend_from_slice(count.as_slice());
    assert(out@ =~= witness_header());
    proof {
        lemma_witness_header();
    }
    let mut k: usize = 0;
    while k < PUBLIC_INPUT_BYTES
        invariant
            k <= 160,
            out@.len() == 12 + 32 * k,
            forall|i: int| 0 <= i < out@.len() ==> out@[i] == witness_encoding(raw@)[i],
        decreases 160 - k,
    {
        let mut z: usize = 0;
        while z < 31
            invariant
                z <= 31,
                k < 160,
                out@.len() == 12 + 32 * k + z,
                forall|i: int| 0 <= i < out@.len() ==> out@[i] == witness_encoding(raw@)[i],
            decreases 31 - z,
        {
            out.push(0u8);
            z += 1;
        }
        out.push(raw[k]);
        k += 1;
    }
    assert(out@ =~= witness_encoding(raw@));
    out
}

/// The public witness of five public inputs.
pub fn serialize_public_witness(
    commitment: &[u8; 32],
    pda: &[u8; 32],
    program_id: &[u8; 32],
    action_hash: &[u8; 32],
    nullifier: &[u8; 32],
) -> (witness: Vec<u8>)
    ensures
        witness@ == witness_encoding(
            public_inputs_layout(commitment@, pda@, program_id@, action_hash@, nullifier@),
        ),
{
    let raw = serialize_public_inputs(commitment, pda, program_id, action_hash, nullifier);
    encode_public_witness(&raw)
}

/// Decodes a public witness: `None` unless its length and header are those
/// of a public witness, else the byte that each element ends in. The 31
/// leading bytes of an element are not read.
pub fn extract_public_inputs(public_witness: &[u8]) -> (raw: Option<[u8; PUBLIC_INPUT_BYTES]>)
    ensures
        raw is Some <==> witness_header_ok(public_witness@),
        raw is Some ==> raw.unwrap()@ == witness_payload(public_witness@),
{
    if public_witness.len() != PUBLIC_WITNESS_SIZE {
        return None;
    }
    let public_count = read_be_u32(public_witness, 0);
    let reserved = read_be_u32(public_witness, 4);
    let vector_len = read_be_u32(public_witness, 8);
    if public_count != 160 || reserved != 0 || vector_len != 160 {
        return None;
    }
    let mut raw = [0u8; PUBLIC_INPUT_BYTES];
    let mut k: usize = 0;
    while k < PUBLIC_INPUT_BYTES
        invariant
            k <= 160,
            public_witness@.len() == 5132,
            forall|i: int| 0 <= i < k ==> raw@[i] == element_last_byte(public_witness@, i),
        decreases 160 - k,
    {
        raw[k] = public_witness[PUBLIC_WITNESS_HEADER_LEN + 32 * k + 31];
        k += 1;
    }
    assert(raw@ =~= witness_payload(public_witness@));
    Some(raw)
}

/// Decodes a public witness as `extract_public_inputs` does, and refuses it
/// also where a leading byte of an element is not zero: what it accepts is
/// what `encode_public_witness` produces, and nothing else.
pub fn extract_public_inputs_strict(public_witness: &[u8]) -> (raw: Option<
    [u8; PUBLIC_INPUT_BYTES],
>)
    ensures
        raw is Some <==> witness_header_ok(public_witness@) && witness_padding_is_zero(
            public_witness@,
        ),
        raw is Some ==> raw.unwrap()@ == witness_payload(public_witness@),
        raw is Some ==> witness_encoding(raw.unwrap()@) == public_witness@,
{
    let raw = match extract_public_inputs(public_witness) {
        Some(raw) => raw,
        None => {
            return None;
        },
    };
    let mut i: usize = PUBLIC_WITNESS_HEADER_LEN;
    while i < PUBLIC_WITNESS_SIZE
        invariant
            12 <= i <= 5132,
            public_witness@.len() == 5132,
            forall|j: int| 12 <= j < i && (j - 12) % 32 != 31 ==> public_witness@[j] == 0,
        decreases 5132 - i,
    {
        if (i - PUBLIC_WITNESS_HEADER_LEN) % 32 != 31 && public_witness[i] != 0 {
            return None;
        }
        i += 1;
    }
    proof {
        lemma_encode_of_decode(public_witness@);
    }
    Some(raw)
}

/// The action hash of an action on a resource. The parameters are at most
/// `OWNERSHIP_ACTION_PARAMS_MAX_LEN` bytes.
pub fn compute_action_hash(
    program_id: &[u8; 32],
    pda: &[u8; 32],
    action_discriminator: &[u8; 8],
    action_params: &[u8],
    nonce: u64,
) -> (digest: [u8; 32])
    requires
        action_params.len() <= OWNERSHIP_ACTION_PARAMS_MAX_LEN,
    ensures
        digest@ == action_hash_of(
            program_id@,
            pda@,
            action_discriminator@,
            action_params@,
            nonce,
        ),
{
    let nonce_bytes = u64_le_bytes(nonce);
    let parts: [&[u8]; 5] = [
        program_id.as_slice(),
        pda.as_slice(),
        action_discriminator.as_slice(),
        action_params,
        nonce_bytes.as_slice(),
    ];
    proof {
        assert(parts_view(parts@) =~= seq![
            program_id@,
            pda@,
            action_discriminator@,
            action_params@,
            nonce_bytes@,
        ]);
        lemma_concat_five(
            program_id@,
            pda@,
            action_discriminator@,
            action_params@,
            nonce_bytes@,
        );
    }
    hashv(parts.as_slice())
}

/// Why a public witness does not bind a proof to an action.
#[derive(Clone, Copy, Debug, PartialEq, Eq)]
pub enum BindingError {
    /// The action parameters are longer than 32 bytes.
    ActionParamsTooLong,
    /// The witness has not the length or the header of a public witness.
    MalformedWitness,
    /// The witness does not carry the action hash of the action.
    ActionHashMismatch,
    /// The witness does not carry the address of the resource.
    ResourceMismatch,
    /// The witness does not carry the id of the program.
    ProgramMismatch,
}

/// The failure, if any, of a public witness to bind a proof to an action of
/// a program on a resource: the parameters must be at most 32 bytes, the
/// witness must decode, and carry the action hash of the action, the
/// address of the resource and the id of the program, which are judged in
/// this order.
pub open spec fn binding_failure(
    w: Seq<u8>,
    program_id: Seq<u8>,
    pda: Seq<u8>,
    action_discriminator: Seq<u8>,
    action_params: Seq<u8>,
    nonce: u64,
) -> Option<BindingError> {
    let raw = witness_payload(w);
    if action_params.len() > 32 {
        Some(BindingError::ActionParamsTooLong)
    } else if !witness_header_ok(w) {
        Some(BindingError::MalformedWitness)
    } else if raw.subrange(96, 128) != action_hash_of(
        program_id,
        pda,
        action_discriminator,
        action_params,
        nonce,
    ) {
        Some(BindingError::ActionHashMismatch)
    } else if raw.subrange(32, 64) != pda {
        Some(BindingError::ResourceMismatch)
    } else if raw.subrange(64, 96) != program_id {
        Some(BindingError::ProgramMismatch)
    } else {
        None
    }
}

/// Checks that a public witness binds a proof to an action of a program on
/// a resource, and gives the commitment and the nullifier that it carries.
/// The nullifier is not judged: whether it is spent is for its record to
/// say.
pub fn check_action_binding(
    public_witness: &[u8],
    program_id: &[u8; 32],
    pda: &[u8; 32],
    action_discriminator: &[u8; 8],
    action_params: &[u8],
    nonce: u64,
) -> (bound: Result<(Commitment, Nullifier), BindingError>)
    ensures
        match bound {
            Ok((commitment, nullifier)) => {
                &&& binding_failure(
                    public_witness@,
                    program_id@,
                    pda@,
                    action_discriminator@,
                    action_params@,
                    nonce,
                ) is None
                &&& commitment@ == witness_payload(public_witness@).subrange(0, 32)
                &&& nullifier@ == witness_payload(public_witness@).subrange(128, 160)
            },
            Err(e) => binding_failure(
                public_witness@,
                program_id@,
                pda@,
                action_discriminator@,
                action_params@,
                nonce,
            ) == Some(e),
        },
{
    if action_params.len() > OWNERSHIP_ACTION_PARAMS_MAX_LEN {
        return Err(BindingError::ActionParamsTooLong);
    }
    let raw = match extract_public_inputs(public_witness) {
        Some(raw) => raw,
        None => {
            return Err(BindingError::MalformedWitness);
        },
    };
    let action_hash = compute_action_hash(
        program_id,
        pda,
        action_discriminator,
        action_params,
        nonce,
    );
    if !bytes_equal(slice_subrange(raw.as_slice(), 96, 128), action_hash.as_slice()) {
        return Err(BindingError::ActionHashMismatch);
    }
    if !bytes_equal(slice_subrange(raw.as_slice(), 32, 64), pda.as_slice()) {
        return Err(BindingError::ResourceMismatch);
    }
    if !bytes_equal(slice_subrange(raw.as_slice(), 64, 96), program_id.as_slice()) {
        return Err(BindingError::ProgramMismatch);
    }
    let commitment: [u8; 32] = copy_array(raw.as_slice(), 0);
    let nullifier: [u8; 32] = copy_array(raw.as_slice(), 128);
    Ok((Commitment::from_bytes(commitment), Nullifier::from_bytes(nullifier)))
}

/// A zero-padded witness binds a proof to an action exactly when it is the
/// witness that the five values make: its own commitment and nullifier,
/// the resource, the program, and the action hash of the action.
pub proof fn lemma_bound_witness_is_the_serialized_one(
    w: Seq<u8>,
    program_id: Seq<u8>,
    pda: Seq<u8>,
    action_discriminator: Seq<u8>,
    action_params: Seq<u8>,
    nonce: u64,
)
    requires
        witness_header_ok(w),
        witness_padding_is_zero(w),
        action_params.len() <= 32,
        program_id.len() == 32,
        pda.len() == 32,
        action_hash_of(program_id, pda, action_discriminator, action_params, nonce).len() == 32,
    ensures
        binding_failure(w, program_id, pda, action_discriminator, action_params, nonce) is None
            <==> w == witness_encoding(
            public_inputs_layout(
                witness_payload(w).subrange(0, 32),
                pda,
                program_id,
                action_hash_of(program_id, pda, action_discriminator, action_params, nonce),
                witness_payload(w).subrange(128, 160),
            ),
        ),
{
    let raw = witness_payload(w);
    let digest = action_hash_of(program_id, pda, action_discriminator, action_params, nonce);
    let made = public_inputs_layout(
        raw.subrange(0, 32),
        pda,
        program_id,
        digest,
        raw.subrange(128, 160),
    );
    lemma_encode_of_decode(w);
    lemma_decode_of_encode(made);
    if binding_failure(w, program_id, pda, action_discriminator, action_params, nonce) is None {
        assert(made =~= raw);
    }
    if w == witness_encoding(made) {
        assert(raw == made);
        assert(raw.subrange(96, 128) =~= digest);
        assert(raw.subrange(32, 64) =~= pda);
        assert(raw.subrange(64, 96) =~= program_id);
    }
}

/// The domain separator of a program: the SHA-256 digest of its id.
pub fn compute_domain_separator(program_id: &[u8; 32]) -> (digest: [u8; 32])
    ensures
        digest@ == sha256(program_id@),
{
    hash(program_id.as_slice())
}

/// The five public inputs of an ownership proof.
#[derive(Clone, Debug, PartialEq, Eq)]
pub struct PublicInputs {
    pub commitment: [u8; 32],
    pub pda: [u8; 32],
    pub program_id: [u8; 32],
    pub action_hash: [u8; 32],
    pub nullifier: [u8; 32],
}

impl PublicInputs {
    /// The raw payload that these inputs make.
    pub open spec fn layout(&self) -> Seq<u8> {
        public_inputs_layout(
            self.commitment@,
            self.pda@,
            self.program_id@,
            self.action_hash@,
            self.nullifier@,
        )
    }

    /// The five public inputs, the two addresses by their bytes.
    pub fn new(
        commitment: [u8; 32],
        pda: &[u8; 32],
        program_id: &[u8; 32],
        action_hash: [u8; 32],
        nullifier: [u8; 32],
    ) -> (inputs: PublicInputs)
        ensures
            inputs.commitment == commitment,
            inputs.pda == *pda,
            inputs.program_id == *program_id,
            inputs.action_hash == action_hash,
            inputs.nullifier == nullifier,
    {
        PublicInputs {
            commitment,
            pda: *pda,
            program_id: *program_id,
            action_hash,
            nullifier,
        }
    }

    /// The raw payload of the inputs.
    pub fn to_bytes(&self) -> (raw: [u8; PUBLIC_INPUT_BYTES])
        ensures
            raw@ == self.layout(),
    {
        serialize_public_inputs(
            &self.commitment,
            &self.pda,
            &self.program_id,
            &self.action_hash,
            &self.nullifier,
        )
    }

    /// The public witness of the inputs.
    pub fn to_public_witness(&self) -> (witness: Vec<u8>)
        ensures
            witness@ == witness_encoding(self.layout()),
    {
        serialize_public_witness(
            &self.commitment,
            &self.pda,
            &self.program_id,
            &self.action_hash,
            &self.nullifier,
        )
    }
}

} // verus!
