//! The wire form of a gnark Groth16 proof: the three proof elements, the
//! Pedersen commitments with their count, and the proof of knowledge of
//! the commitments.

use crate::bytes::{be_bytes, be_value, copy_array, lemma_be_bytes_value, lemma_pow256_small,
    read_be_u32};
use crate::error::GnarkError;
use vstd::prelude::*;

verus! {

/// Length of a proof without commitments: A, B, C, the count and the proof
/// of knowledge.
pub const PROOF_BASE_LEN: usize = 324;

/// A gnark Groth16 proof. The commitments are owned by the proof.
#[derive(Clone, Debug, PartialEq, Eq)]
pub struct GnarkProof {
    /// The element A, in G1.
    pub ar: [u8; 64],
    /// The element B, in G2.
    pub bs: [u8; 128],
    /// The element C, in G1.
    pub krs: [u8; 64],
    /// The Pedersen commitments, each in G1.
    pub commitments: Vec<[u8; 64]>,
    /// The batched proof of knowledge of the commitments, in G1.
    pub commitment_pok: [u8; 64],
}

/// The number of commitments that the bytes of a proof announce.
pub open spec fn announced_commitments(bytes: Seq<u8>) -> nat {
    be_value(bytes.subrange(256, 260))
}

/// Whether `bytes` has the length of a proof: that of a proof without
/// commitments and 64 bytes for each commitment it announces.
pub open spec fn proof_length_ok(bytes: Seq<u8>) -> bool {
    bytes.len() >= 324 && bytes.len() == 324 + 64 * announced_commitments(bytes)
}

impl GnarkProof {
    /// Whether the proof is what `bytes` holds, field by field.
    pub open spec fn is_parse_of(&self, bytes: Seq<u8>) -> bool {
        &&& self.ar@ == bytes.subrange(0, 64)
        &&& self.bs@ == bytes.subrange(64, 192)
        &&& self.krs@ == bytes.subrange(192, 256)
        &&& self.commitments@.len() == announced_commitments(bytes)
        &&& forall|k: int|
            0 <= k < self.commitments@.len() ==> (#[trigger] self.commitments@[k])@
                == bytes.subrange(260 + 64 * k, 324 + 64 * k)
        &&& self.commitment_pok@ == bytes.subrange(bytes.len() - 64, bytes.len() as int)
    }

    /// The commitments one after the other.
    pub open spec fn commitments_wire(commitments: Seq<[u8; 64]>) -> Seq<u8>
        decreases commitments.len(),
    {
        if commitments.len() == 0 {
            Seq::empty()
        } else {
            Self::commitments_wire(commitments.drop_last()) + commitments.last()@
        }
    }

    /// The wire form of the proof.
    pub open spec fn wire(&self) -> Seq<u8> {
        self.ar@ + self.bs@ + self.krs@ + be_bytes(self.commitments@.len(), 4)
            + Self::commitments_wire(self.commitments@) + self.commitment_pok@
    }

    /// Parses a proof. Any length but the one that the announced number of
    /// commitments gives is refused.
    pub fn from_bytes(bytes: &[u8]) -> (parsed: Result<GnarkProof, GnarkError>)
        ensures
            parsed is Ok <==> proof_length_ok(bytes@),
            parsed is Ok ==> parsed.unwrap().is_parse_of(bytes@),
            parsed is Err ==> parsed.unwrap_err() == GnarkError::ProofConversionError,
    {
        if bytes.len() < PROOF_BASE_LEN {
            return Err(GnarkError::ProofConversionError);
        }
        let proof_a: [u8; 64] = copy_array(bytes, 0);
        let proof_b: [u8; 128] = copy_array(bytes, 64);
        let proof_c: [u8; 64] = copy_array(bytes, 192);
        let num_commitments: u32 = read_be_u32(bytes, 256);
        let expected_len: u64 = 324 + (num_commitments as u64) * 64;
        if bytes.len() as u64 != expected_len {
            return Err(GnarkError::ProofConversionError);
        }
        let count: usize = num_commitments as usize;
        let mut commitments_vec: Vec<[u8; 64]> = Vec::with_capacity(count);
        let mut k: usize = 0;
        while k < count
            invariant
                k <= count,
                bytes.len() == 324 + 64 * count,
                commitments_vec@.len() == k,
                forall|j: int|
                    0 <= j < k ==> (#[trigger] commitments_vec@[j])@ == bytes@.subrange(
                        260 + 64 * j,
                        324 + 64 * j,
                    ),
            decreases count - k,
        {
            let c: [u8; 64] = copy_array(bytes, 260 + 64 * k);
            commitments_vec.push(c);
            k += 1;
        }
        let commitment_pok: [u8; 64] = copy_array(bytes, 260 + 64 * count);
        Ok(
            GnarkProof {
                ar: proof_a,
                bs: proof_b,
                krs: proof_c,
                commitments: commitments_vec,
                commitment_pok,
            },
        )
    }
}

/// The commitments of a proof, one after the other, take 64 bytes each, and
/// commitment `k` stands at `64 * k`.
pub proof fn lemma_commitments_wire(commitments: Seq<[u8; 64]>)
    ensures
        GnarkProof::commitments_wire(commitments).len() == 64 * commitments.len(),
        forall|k: int|
            0 <= k < commitments.len() ==> GnarkProof::commitments_wire(commitments).subrange(
                64 * k,
                64 * k + 64,
            ) == (#[trigger] commitments[k])@,
    decreases commitments.len(),
{
    if commitments.len() > 0 {
        let front = commitments.drop_last();
        lemma_commitments_wire(front);
        let w = GnarkProof::commitments_wire(commitments);
        let wf = GnarkProof::commitments_wire(front);
        assert forall|k: int| 0 <= k < commitments.len() implies w.subrange(64 * k, 64 * k + 64)
            == (#[trigger] commitments[k])@ by {
            if k < front.len() {
                assert(front[k] == commitments[k]);
                assert(w.subrange(64 * k, 64 * k + 64) =~= wf.subrange(64 * k, 64 * k + 64));
            } else {
                assert(w.subrange(64 * k, 64 * k + 64) =~= commitments.last()@);
            }
        }
    }
}

/// The wire form of a proof with fewer than 2^32 commitments has the length
/// of a proof, and the proof is what its wire form holds: parsing the wire
/// form gives the proof back.
pub proof fn lemma_parse_of_wire(proof: GnarkProof)
    requires
        proof.commitments@.len() < 0x1_0000_0000,
    ensures
        proof_length_ok(proof.wire()),
        proof.is_parse_of(proof.wire()),
{
    let n = proof.commitments@.len();
    let cw = GnarkProof::commitments_wire(proof.commitments@);
    let w = proof.wire();
    lemma_commitments_wire(proof.commitments@);
    crate::bytes::lemma_be_bytes_len(n, 4);
    lemma_pow256_small();
    lemma_be_bytes_value(n, 4);
    assert(w.len() == 324 + 64 * n);
    assert(w.subrange(256, 260) =~= be_bytes(n, 4));
    assert(w.subrange(0, 64) =~= proof.ar@);
    assert(w.subrange(64, 192) =~= proof.bs@);
    assert(w.subrange(192, 256) =~= proof.krs@);
    assert(w.subrange(w.len() - 64, w.len() as int) =~= proof.commitment_pok@);
    assert forall|k: int| 0 <= k < n implies (#[trigger] proof.commitments@[k])@ == w.subrange(
        260 + 64 * k,
        324 + 64 * k,
    ) by {
        assert(w.subrange(260 + 64 * k, 324 + 64 * k) =~= cw.subrange(64 * k, 64 * k + 64));
    }
}

/// Truncating or padding the bytes of a proof gives bytes that are refused:
/// of two byte strings of which one begins with the other, at most one has
/// the length of a proof.
pub proof fn lemma_truncated_or_padded_is_refused(bytes: Seq<u8>, other: Seq<u8>)
    requires
        proof_length_ok(bytes),
        other.len() != bytes.len(),
        other.len() <= bytes.len() ==> other == bytes.take(other.len() as int),
        other.len() >= bytes.len() ==> bytes == other.take(bytes.len() as int),
    ensures
        !proof_length_ok(other),
{
    if other.len() >= 324 {
        assert(other.subrange(256, 260) =~= bytes.subrange(256, 260));
    }
}

} // verus!
