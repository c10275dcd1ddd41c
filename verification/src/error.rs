//! The ways a verification can fail. Every failure ends the verification;
//! the host sees the failure as its code.

use vstd::prelude::*;

verus! {

/// Why a hash to the field could not be computed.
#[derive(Clone, Copy, Debug, PartialEq, Eq)]
pub enum HashFailure {
    /// More than 255 blocks of output were asked for.
    LengthTooLarge,
    /// The domain separation tag is longer than 255 bytes.
    DstTooLong,
}

/// Why the Pedersen commitments of a proof were refused.
#[derive(Clone, Copy, Debug, PartialEq, Eq)]
pub enum PedersenFailure {
    /// The proof and the key differ in the number of commitments.
    CommitmentsLenMismatch,
    /// The commitment keys do not share one G2 base.
    SharedG2Mismatch,
    /// The batched pairing product is not the identity.
    PedersenPairingFailed,
}

/// Why a proof was not accepted.
#[derive(Clone, Copy, Debug, PartialEq, Eq)]
pub enum GnarkError {
    IncompatibleVerifyingKeyWithNrPublicInputs,
    ProofVerificationFailed,
    PreparingInputsG1AdditionFailed,
    PreparingInputsG1MulFailed,
    InvalidG1Length,
    InvalidG2Length,
    InvalidPublicInputsLength,
    DecompressingG1Failed,
    DecompressingG2Failed,
    PublicInputGreaterThanFieldSize,
    ArkworksSerializationError,
    ProofConversionError,
    SolanaBN254Error,
    HashError(HashFailure),
    PedersenVerificationError(PedersenFailure),
    PublicWitnessParsingError,
}

impl GnarkError {
    /// The code under which the host sees the failure.
    pub open spec fn spec_code(self) -> u32 {
        match self {
            GnarkError::IncompatibleVerifyingKeyWithNrPublicInputs => 0,
            GnarkError::ProofVerificationFailed => 1,
            GnarkError::PreparingInputsG1AdditionFailed => 2,
            GnarkError::PreparingInputsG1MulFailed => 3,
            GnarkError::InvalidG1Length => 4,
            GnarkError::InvalidG2Length => 5,
            GnarkError::InvalidPublicInputsLength => 6,
            GnarkError::DecompressingG1Failed => 7,
            GnarkError::DecompressingG2Failed => 8,
            GnarkError::PublicInputGreaterThanFieldSize => 9,
            GnarkError::ArkworksSerializationError => 10,
            GnarkError::ProofConversionError => 11,
            GnarkError::SolanaBN254Error => 12,
            GnarkError::HashError(_) => 13,
            GnarkError::PedersenVerificationError(_) => 14,
            GnarkError::PublicWitnessParsingError => 15,
        }
    }

    /// The code under which the host sees the failure.
    #[verifier::when_used_as_spec(spec_code)]
    pub fn code(self) -> (code: u32)
        ensures
            code == self.spec_code(),
            code <= 15,
    {
        match self {
            GnarkError::IncompatibleVerifyingKeyWithNrPublicInputs => 0,
            GnarkError::ProofVerificationFailed => 1,
            GnarkError::PreparingInputsG1AdditionFailed => 2,
            GnarkError::PreparingInputsG1MulFailed => 3,
            GnarkError::InvalidG1Length => 4,
            GnarkError::InvalidG2Length => 5,
            GnarkError::InvalidPublicInputsLength => 6,
            GnarkError::DecompressingG1Failed => 7,
            GnarkError::DecompressingG2Failed => 8,
            GnarkError::PublicInputGreaterThanFieldSize => 9,
            GnarkError::ArkworksSerializationError => 10,
            GnarkError::ProofConversionError => 11,
            GnarkError::SolanaBN254Error => 12,
            GnarkError::HashError(_) => 13,
            GnarkError::PedersenVerificationError(_) => 14,
            GnarkError::PublicWitnessParsingError => 15,
        }
    }
}

impl From<GnarkError> for u32 {
    fn from(error: GnarkError) -> (code: u32) {
        error.code()
    }
}

impl vstd::std_specs::convert::FromSpecImpl<GnarkError> for u32 {
    open spec fn obeys_from_spec() -> bool {
        true
    }

    open spec fn from_spec(error: GnarkError) -> u32 {
        error.spec_code()
    }
}

/// Two failures of different kinds have different codes.
pub proof fn lemma_codes_distinguish_kinds(a: GnarkError, b: GnarkError)
    ensures
        a.spec_code() == b.spec_code() ==> (a == b || (a is HashError && b is HashError) || (a is PedersenVerificationError
            && b is PedersenVerificationError)),
{
}

} // verus!
