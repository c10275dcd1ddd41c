//! The surface that bindings to other languages expose: every argument
//! arrives as bytes of any length, is checked for its length, and the
//! result is what the library computes on chain and in the prover.

use crate::bytes::{copy_array, le_bytes, u64_le_bytes};
use crate::commitment::{commitment_of, compute_commitment, compute_nullifier, nullifier_of};
use crate::encoding::{
    action_hash_of, encode_public_witness, public_inputs_layout, serialize_public_inputs,
    witness_encoding,
};
use crate::sha::sha256_digest;
use crate::types::Secret;
use vstd::prelude::*;

verus! {

/// The most bytes of action parameters that the ownership circuit takes.
pub const ACTION_PARAMS_MAX_LEN: usize = 32;

/// An argument of the surface, by its name.
#[derive(Clone, Copy, Debug, PartialEq, Eq)]
pub enum SdkArgument {
    Secret,
    ProgramId,
    ActionId,
    Pda,
    ActionDiscriminator,
    Commitment,
    ActionHash,
    Nullifier,
}

/// Why a call of the surface was refused.
#[derive(Clone, Copy, Debug, PartialEq, Eq)]
pub enum SdkError {
    /// An argument has not the length that it must have.
    WrongLength { argument: SdkArgument, expected: usize, got: usize },
    /// The action parameters are longer than `ACTION_PARAMS_MAX_LEN`.
    ActionParamsTooLong,
    /// The operating system gave no random bytes.
    RandomSourceFailed,
}

/// The handle of the surface. It holds nothing.
#[derive(Clone, Copy, Debug, PartialEq, Eq)]
pub struct ZaffreProver;

/// The 32 bytes of an argument, or the refusal of any other length.
pub fn read_32(arr: &[u8], name: SdkArgument) -> (out: Result<[u8; 32], SdkError>)
    ensures
        out is Ok <==> arr@.len() == 32,
        out is Ok ==> out.unwrap()@ == arr@,
        out is Err ==> out.unwrap_err() == (SdkError::WrongLength {
            argument: name,
            expected: 32,
            got: arr.len(),
        }),
{
    if arr.len() != 32 {
        return Err(SdkError::WrongLength { argument: name, expected: 32, got: arr.len() });
    }
    let out: [u8; 32] = copy_array(arr, 0);
    assert(arr@.subrange(0, 32) =~= arr@);
    Ok(out)
}

/// The 8 bytes of an argument, or the refusal of any other length.
pub fn read_8(arr: &[u8], name: SdkArgument) -> (out: Result<[u8; 8], SdkError>)
    ensures
        out is Ok <==> arr@.len() == 8,
        out is Ok ==> out.unwrap()@ == arr@,
        out is Err ==> out.unwrap_err() == (SdkError::WrongLength {
            argument: name,
            expected: 8,
            got: arr.len(),
        }),
{
    if arr.len() != 8 {
        return Err(SdkError::WrongLength { argument: name, expected: 8, got: arr.len() });
    }
    let out: [u8; 8] = copy_array(arr, 0);
    assert(arr@.subrange(0, 8) =~= arr@);
    Ok(out)
}

/// The refusal of the first of the arguments that has not its length.
pub open spec fn first_wrong_length(arguments: Seq<(SdkArgument, nat, nat)>) -> Option<SdkError>
    decreases arguments.len(),
{
    if arguments.len() == 0 {
        None
    } else if arguments[0].1 != arguments[0].2 {
        Some(
            SdkError::WrongLength {
                argument: arguments[0].0,
                expected: arguments[0].1 as usize,
                got: arguments[0].2 as usize,
            },
        )
    } else {
        first_wrong_length(arguments.drop_first())
    }
}

impl ZaffreProver {
    /// The handle.
    pub fn init() -> ZaffreProver {
        ZaffreProver
    }

    /// 32 bytes from the operating system's random source.
    pub fn generate_secret(&self) -> (secret: Result<[u8; 32], SdkError>)
        ensures
            secret is Err ==> secret.unwrap_err() == SdkError::RandomSourceFailed,
    {
        self.secret_bytes(Secret::generate())
    }

    /// What a generated secret goes out as: its 32 bytes, as they are, and
    /// the refusal where none was generated.
    pub fn secret_bytes(&self, generated: Option<Secret>) -> (secret: Result<[u8; 32], SdkError>)
        ensures
            secret is Ok <==> generated is Some,
            secret is Ok ==> secret.unwrap()@ == generated.unwrap()@,
            secret is Err ==> secret.unwrap_err() == SdkError::RandomSourceFailed,
    {
        match generated {
            Some(secret) => Ok(*secret.as_bytes()),
            None => Err(SdkError::RandomSourceFailed),
        }
    }

    /// The commitment to a secret of 32 bytes.
    pub fn compute_commitment(&self, secret: &[u8]) -> (commitment: Result<[u8; 32], SdkError>)
        ensures
            commitment is Ok <==> secret@.len() == 32,
            commitment is Ok ==> commitment.unwrap()@ == commitment_of(secret@),
            commitment is Err ==> commitment.unwrap_err() == (SdkError::WrongLength {
                argument: SdkArgument::Secret,
                expected: 32,
                got: secret.len(),
            }),
    {
        let secret_bytes = match read_32(secret, SdkArgument::Secret) {
            Ok(bytes) => bytes,
            Err(e) => {
                return Err(e);
            },
        };
        let commitment = compute_commitment(&Secret::from_bytes(secret_bytes));
        Ok(*commitment.as_bytes())
    }

    /// The nullifier of a secret for an action of a program, each of 32
    /// bytes.
    pub fn compute_nullifier(&self, secret: &[u8], program_id: &[u8], action_id: &[u8]) -> (nullifier:
        Result<[u8; 32], SdkError>)
        ensures
            match nullifier {
                Ok(bytes) => first_wrong_length(
                    seq![
                        (SdkArgument::Secret, 32nat, secret@.len()),
                        (SdkArgument::ProgramId, 32nat, program_id@.len()),
                        (SdkArgument::ActionId, 32nat, action_id@.len()),
                    ],
                ) is None && bytes@ == nullifier_of(secret@, program_id@, action_id@),
                Err(e) => first_wrong_length(
                    seq![
                        (SdkArgument::Secret, 32nat, secret@.len()),
                        (SdkArgument::ProgramId, 32nat, program_id@.len()),
                        (SdkArgument::ActionId, 32nat, action_id@.len()),
                    ],
                ) == Some(e),
            },
    {
        proof {
            lemma_first_wrong_length_three(
                (SdkArgument::Secret, 32nat, secret@.len()),
                (SdkArgument::ProgramId, 32nat, program_id@.len()),
                (SdkArgument::ActionId, 32nat, action_id@.len()),
            );
        }
        let secret_bytes = match read_32(secret, SdkArgument::Secret) {
            Ok(bytes) => bytes,
            Err(e) => {
                return Err(e);
            },
        };
        let program_bytes = match read_32(program_id, SdkArgument::ProgramId) {
            Ok(bytes) => bytes,
            Err(e) => {
                return Err(e);
            },
        };
        let action_bytes = match read_32(action_id, SdkArgument::ActionId) {
            Ok(bytes) => bytes,
            Err(e) => {
                return Err(e);
            },
        };
        let nullifier = compute_nullifier(
            &Secret::from_bytes(secret_bytes),
            &program_bytes,
            &action_bytes,
        );
        Ok(*nullifier.as_bytes())
    }

    /// The action hash of an action on a resource: the lengths are judged
    /// in the order of the arguments, the parameters last.
    pub fn compute_action_hash(
        &self,
        program_id: &[u8],
        pda: &[u8],
        action_discriminator: &[u8],
        action_params: &[u8],
        nonce: u64,
    ) -> (digest: Result<[u8; 32], SdkError>)
        ensures
            match digest {
                Ok(bytes) => first_wrong_length(
                    seq![
                        (SdkArgument::ProgramId, 32nat, program_id@.len()),
                        (SdkArgument::Pda, 32nat, pda@.len()),
                        (SdkArgument::ActionDiscriminator, 8nat, action_discriminator@.len()),
                    ],
                ) is None && action_params@.len() <= 32 && bytes@ == action_hash_of(
                    program_id@,
                    pda@,
                    action_discriminator@,
                    action_params@,
                    nonce,
                ),
                Err(e) => match first_wrong_length(
                    seq![
                        (SdkArgument::ProgramId, 32nat, program_id@.len()),
                        (SdkArgument::Pda, 32nat, pda@.len()),
                        (SdkArgument::ActionDiscriminator, 8nat, action_discriminator@.len()),
                    ],
                ) {
                    Some(wrong) => e == wrong,
                    None => action_params@.len() > 32 && e == SdkError::ActionParamsTooLong,
                },
            },
    {
        proof {
            lemma_first_wrong_length_three(
                (SdkArgument::ProgramId, 32nat, program_id@.len()),
                (SdkArgument::Pda, 32nat, pda@.len()),
                (SdkArgument::ActionDiscriminator, 8nat, action_discriminator@.len()),
            );
        }
        let program_bytes = match read_32(program_id, SdkArgument::ProgramId) {
            Ok(bytes) => bytes,
            Err(e) => {
                return Err(e);
            },
        };
        let pda_bytes = match read_32(pda, SdkArgument::Pda) {
            Ok(bytes) => bytes,
            Err(e) => {
                return Err(e);
            },
        };
        let discriminator = match read_8(action_discriminator, SdkArgument::ActionDiscriminator) {
            Ok(bytes) => bytes,
            Err(e) => {
                return Err(e);
            },
        };
        if action_params.len() > ACTION_PARAMS_MAX_LEN {
            return Err(SdkError::ActionParamsTooLong);
        }
        let nonce_bytes = u64_le_bytes(nonce);
        let mut message: Vec<u8> = Vec::new();
        message.extend_from_slice(program_bytes.as_slice());
        message.extend_from_slice(pda_bytes.as_slice());
        message.extend_from_slice(discriminator.as_slice());
        message.extend_from_slice(action_params);
        message.extend_from_slice(nonce_bytes.as_slice());
        assert(message@ =~= program_id@ + pda@ + action_discriminator@ + action_params@
            + le_bytes(nonce as nat, 8));
        Ok(sha256_digest(message.as_slice()))
    }

    /// The public witness of five public inputs of 32 bytes each.
    pub fn serialize_public_inputs(
        &self,
        commitment: &[u8],
        pda: &[u8],
        program_id: &[u8],
        action_hash: &[u8],
        nullifier: &[u8],
    ) -> (witness: Result<Vec<u8>, SdkError>)
        ensures
            match witness {
                Ok(bytes) => first_wrong_length(
                    seq![
                        (SdkArgument::Commitment, 32nat, commitment@.len()),
                        (SdkArgument::Pda, 32nat, pda@.len()),
                        (SdkArgument::ProgramId, 32nat, program_id@.len()),
                        (SdkArgument::ActionHash, 32nat, action_hash@.len()),
                        (SdkArgument::Nullifier, 32nat, nullifier@.len()),
                    ],
                ) is None && bytes@ == witness_encoding(
                    public_inputs_layout(
                        commitment@,
                        pda@,
                        program_id@,
                        action_hash@,
                        nullifier@,
                    ),
                ),
                Err(e) => first_wrong_length(
                    seq![
                        (SdkArgument::Commitment, 32nat, commitment@.len()),
                        (SdkArgument::Pda, 32nat, pda@.len()),
                        (SdkArgument::ProgramId, 32nat, program_id@.len()),
                        (SdkArgument::ActionHash, 32nat, action_hash@.len()),
                        (SdkArgument::Nullifier, 32nat, nullifier@.len()),
                    ],
                ) == Some(e),
            },
    {
        proof {
            lemma_first_wrong_length_five(
                (SdkArgument::Commitment, 32nat, commitment@.len()),
                (SdkArgument::Pda, 32nat, pda@.len()),
                (SdkArgument::ProgramId, 32nat, program_id@.len()),
                (SdkArgument::ActionHash, 32nat, action_hash@.len()),
                (SdkArgument::Nullifier, 32nat, nullifier@.len()),
            );
            lemma_first_wrong_length_three(
                (SdkArgument::ProgramId, 32nat, program_id@.len()),
                (SdkArgument::ActionHash, 32nat, action_hash@.len()),
                (SdkArgument::Nullifier, 32nat, nullifier@.len()),
            );
        }
        let commitment_bytes = match read_32(commitment, SdkArgument::Commitment) {
            Ok(bytes) => bytes,
            Err(e) => {
                return Err(e);
            },
        };
        let pda_bytes = match read_32(pda, SdkArgument::Pda) {
            Ok(bytes) => bytes,
            Err(e) => {
                return Err(e);
            },
        };
        let program_bytes = match read_32(program_id, SdkArgument::ProgramId) {
            Ok(bytes) => bytes,
            Err(e) => {
                return Err(e);
            },
        };
        let action_bytes = match read_32(action_hash, SdkArgument::ActionHash) {
            Ok(bytes) => bytes,
            Err(e) => {
                return Err(e);
            },
        };
        let nullifier_bytes = match read_32(nullifier, SdkArgument::Nullifier) {
            Ok(bytes) => bytes,
            Err(e) => {
                return Err(e);
            },
        };
        let raw = serialize_public_inputs(
            &commitment_bytes,
            &pda_bytes,
            &program_bytes,
            &action_bytes,
            &nullifier_bytes,
        );
        Ok(encode_public_witness(&raw))
    }
}

/// The first wrong length among three arguments, spelled out.
pub proof fn lemma_first_wrong_length_three(
    a: (SdkArgument, nat, nat),
    b: (SdkArgument, nat, nat),
    c: (SdkArgument, nat, nat),
)
    ensures
        first_wrong_length(seq![a, b, c]) == (if a.1 != a.2 {
            Some(SdkError::WrongLength { argument: a.0, expected: a.1 as usize, got: a.2 as usize })
        } else if b.1 != b.2 {
            Some(SdkError::WrongLength { argument: b.0, expected: b.1 as usize, got: b.2 as usize })
        } else if c.1 != c.2 {
            Some(SdkError::WrongLength { argument: c.0, expected: c.1 as usize, got: c.2 as usize })
        } else {
            None
        }),
{
    let s3 = seq![a, b, c];
    assert(s3.drop_first() =~= seq![b, c]);
    assert(seq![b, c].drop_first() =~= seq![c]);
    assert(seq![c].drop_first() =~= Seq::<(SdkArgument, nat, nat)>::empty());
    reveal_with_fuel(first_wrong_length, 4);
}

/// The first wrong length among five arguments, spelled out.
pub proof fn lemma_first_wrong_length_five(
    a: (SdkArgument, nat, nat),
    b: (SdkArgument, nat, nat),
    c: (SdkArgument, nat, nat),
    d: (SdkArgument, nat, nat),
    e: (SdkArgument, nat, nat),
)
    ensures
        first_wrong_length(seq![a, b, c, d, e]) == (if a.1 != a.2 {
            Some(SdkError::WrongLength { argument: a.0, expected: a.1 as usize, got: a.2 as usize })
        } else if b.1 != b.2 {
            Some(SdkError::WrongLength { argument: b.0, expected: b.1 as usize, got: b.2 as usize })
        } else {
            first_wrong_length(seq![c, d, e])
        }),
{
    let s5 = seq![a, b, c, d, e];
    assert(s5.drop_first() =~= seq![b, c, d, e]);
    assert(seq![b, c, d, e].drop_first() =~= seq![c, d, e]);
    reveal_with_fuel(first_wrong_length, 3);
}

} // verus!
