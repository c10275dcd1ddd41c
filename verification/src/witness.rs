//! The public witness as the verifier reads it: a 12-byte header, which is
//! skipped, and one 32-byte big-endian field element for each public input.

use crate::bytes::copy_array;
use crate::error::GnarkError;
use vstd::prelude::*;

verus! {

/// Length of the header of a public witness.
pub const WITNESS_HEADER_LEN: usize = 12;

/// The public inputs of a circuit, each a 32-byte big-endian number.
#[derive(Clone, Debug, PartialEq, Eq)]
pub struct GnarkWitness {
    /// The variables of the public witness.
    pub entries: Vec<[u8; 32]>,
}

impl GnarkWitness {
    /// Whether the witness is what `bytes` holds after the header.
    pub open spec fn is_parse_of(&self, bytes: Seq<u8>) -> bool {
        &&& bytes.len() == 12 + 32 * self.entries@.len()
        &&& forall|k: int|
            0 <= k < self.entries@.len() ==> (#[trigger] self.entries@[k])@ == bytes.subrange(
                12 + 32 * k,
                44 + 32 * k,
            )
    }

    /// Parses the witness of a circuit with `nr_inputs` public inputs. Any
    /// length but that of the header and `nr_inputs` elements is refused.
    /// What the header holds is not read.
    pub fn from_bytes(bytes: &[u8], nr_inputs: usize) -> (parsed: Result<GnarkWitness, GnarkError>)
        ensures
            parsed is Ok <==> bytes@.len() == 12 + 32 * nr_inputs,
            parsed is Ok ==> parsed.unwrap().entries@.len() == nr_inputs && parsed.unwrap().is_parse_of(
                bytes@,
            ),
            parsed is Err ==> parsed.unwrap_err() == GnarkError::PublicWitnessParsingError,
    {
        if bytes.len() < WITNESS_HEADER_LEN || (bytes.len() - WITNESS_HEADER_LEN) % 32 != 0 || (
        bytes.len() - WITNESS_HEADER_LEN) / 32 != nr_inputs {
            return Err(GnarkError::PublicWitnessParsingError);
        }
        let mut entries: Vec<[u8; 32]> = Vec::with_capacity(nr_inputs);
        let mut k: usize = 0;
        while k < nr_inputs
            invariant
                k <= nr_inputs,
                bytes.len() == 12 + 32 * nr_inputs,
                entries@.len() == k,
                forall|j: int|
                    0 <= j < k ==> (#[trigger] entries@[j])@ == bytes@.subrange(
                        12 + 32 * j,
                        44 + 32 * j,
                    ),
            decreases nr_inputs - k,
        {
            let entry: [u8; 32] = copy_array(bytes, 12 + 32 * k);
            entries.push(entry);
            k += 1;
        }
        Ok(GnarkWitness { entries })
    }
}

} // verus!
