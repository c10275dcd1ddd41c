//! A program guarded by ownership proofs: a value that only the holder of
//! the secret behind a commitment can set, once per nullifier.

use crate::bytes::{le_bytes, u64_le_bytes};
use crate::encoding::{
    action_hash_of, compute_action_hash, public_inputs_layout, serialize_public_witness,
    witness_encoding,
};
use crate::pda::{program_address, try_find_program_address, zaffre_address, ZAFFRE_SEED_PREFIX};
use crate::sha::parts_view;
use crate::sunspot::{ownership_outcome, verify_ownership_proof, SunspotError};
use crate::vk::GnarkVerifyingKey;
use vstd::prelude::*;

verus! {

/// The seed of the configuration account: the bytes of `zaffre_config`.
pub const CONFIG_SEED: [u8; 13] = [122, 97, 102, 102, 114, 101, 95, 99, 111, 110, 102, 105, 103];

/// The discriminator of the one guarded action: the bytes of `setvalue`.
pub const SET_VALUE_DISCRIMINATOR: [u8; 8] = [115, 101, 116, 118, 97, 108, 117, 101];

/// The guarded state: a value, and the commitment whose holder set it.
#[derive(Clone, Copy, Debug, PartialEq, Eq)]
pub struct DemoState {
    pub value: u64,
    pub bump: u8,
    pub commitment: [u8; 32],
}

/// The program's configuration: who may change it, and which verifier
/// program it trusts.
#[derive(Clone, Copy, Debug, PartialEq, Eq)]
pub struct Config {
    pub authority: [u8; 32],
    pub verifier_program: [u8; 32],
}

/// The record of a nullifier: the slot at which it was spent, 0 before.
#[derive(Clone, Copy, Debug, PartialEq, Eq)]
pub struct NullifierState {
    pub spent_at_slot: u64,
}

/// Why the program refused an instruction of its own accord.
#[derive(Clone, Copy, Debug, PartialEq, Eq)]
pub enum ExampleError {
    /// The nullifier's record holds a slot.
    NullifierAlreadySpent,
    /// The signer is not the configuration's authority.
    NotAuthority,
}

/// Why a value was not set.
#[derive(Clone, Copy, Debug, PartialEq, Eq)]
pub enum SetValueError {
    /// The program refused.
    Example(ExampleError),
    /// The ownership proof was not accepted.
    Sunspot(SunspotError),
}

/// What `set_value` works on: the program, the state account with its
/// address and bump seed, the nullifier's record, and the current slot.
#[derive(Clone, Copy, Debug, PartialEq, Eq)]
pub struct SetValue {
    pub program_id: [u8; 32],
    pub state_address: [u8; 32],
    pub state_bump: u8,
    pub state: DemoState,
    pub nullifier_state: NullifierState,
    pub slot: u64,
}

impl DemoState {
    /// Length of the state's record.
    pub const STATE_SIZE: usize = 8 + 1 + 32;
}

impl Config {
    /// Length of the configuration's record.
    pub const STATE_SIZE: usize = 32 + 32;
}

impl NullifierState {
    /// Length of a nullifier's record.
    pub const STATE_SIZE: usize = 8;
}

/// The address of the state account of a commitment, with its bump seed.
pub fn derive_state_pda(program_id: &[u8; 32], commitment: &[u8; 32]) -> (pda: Option<
    ([u8; 32], u8),
>)
    ensures
        pda is Some <==> zaffre_address(program_id@, commitment@) is Some,
        pda is Some ==> {
            &&& pda.unwrap().0@ == zaffre_address(program_id@, commitment@).unwrap().0
            &&& pda.unwrap().1 == zaffre_address(program_id@, commitment@).unwrap().1
        },
{
    let prefix = ZAFFRE_SEED_PREFIX;
    let seeds: [&[u8]; 2] = [prefix.as_slice(), commitment.as_slice()];
    assert(parts_view(seeds@) =~= seq![ZAFFRE_SEED_PREFIX@, commitment@]);
    try_find_program_address(seeds.as_slice(), program_id)
}

/// The address of the configuration account, with its bump seed.
pub fn derive_config_pda(program_id: &[u8; 32]) -> (pda: Option<([u8; 32], u8)>)
    ensures
        pda is Some <==> program_address(seq![CONFIG_SEED@], program_id@) is Some,
        pda is Some ==> {
            &&& pda.unwrap().0@ == program_address(seq![CONFIG_SEED@], program_id@).unwrap().0
            &&& pda.unwrap().1 == program_address(seq![CONFIG_SEED@], program_id@).unwrap().1
        },
{
    let seed = CONFIG_SEED;
    let seeds: [&[u8]; 1] = [seed.as_slice()];
    assert(parts_view(seeds@) =~= seq![CONFIG_SEED@]);
    try_find_program_address(seeds.as_slice(), program_id)
}

/// Sets up the configuration: the signer becomes the authority.
pub fn initialize(config: &mut Config, authority: &[u8; 32], verifier_program: &[u8; 32])
    ensures
        final(config).authority == *authority,
        final(config).verifier_program == *verifier_program,
{
    config.authority = *authority;
    config.verifier_program = *verifier_program;
}

/// Prepares the accounts of a commitment and a nullifier. The accounts are
/// created by the host; nothing else is done.
pub fn prepare(commitment: [u8; 32], nullifier: [u8; 32]) -> (done: Result<(), ExampleError>)
    ensures
        done is Ok,
{
    Ok(())
}

/// Replaces the verifier program. Only the authority may.
pub fn update_verifier(config: &mut Config, signer: &[u8; 32], verifier_program: &[u8; 32]) -> (done:
    Result<(), ExampleError>)
    ensures
        done is Ok <==> signer@ == old(config).authority@,
        done is Ok ==> final(config).authority == old(config).authority,
        done is Ok ==> final(config).verifier_program == *verifier_program,
        done is Err ==> *final(config) == *old(config) && done.unwrap_err()
            == ExampleError::NotAuthority,
{
    if !crate::bytes::bytes_equal(signer.as_slice(), config.authority.as_slice()) {
        return Err(ExampleError::NotAuthority);
    }
    config.verifier_program = *verifier_program;
    Ok(())
}

/// The public witness that a `set_value` must be proved against: the
/// commitment, the state account, the program, the action hash of setting
/// `value` under `nonce`, and the nullifier.
pub open spec fn set_value_witness(
    program_id: Seq<u8>,
    state_address: Seq<u8>,
    commitment: Seq<u8>,
    nullifier: Seq<u8>,
    value: u64,
    nonce: u64,
) -> Seq<u8> {
    witness_encoding(
        public_inputs_layout(
            commitment,
            state_address,
            program_id,
            action_hash_of(
                program_id,
                state_address,
                SET_VALUE_DISCRIMINATOR@,
                le_bytes(value as nat, 8),
                nonce,
            ),
            nullifier,
        ),
    )
}

/// How a `set_value` ends and what it leaves: a spent nullifier refuses
/// it; else the ownership proof decides; and only an accepted proof
/// changes anything: the value, the bump seed and the commitment are
/// stored, and the current slot is recorded for the nullifier.
pub open spec fn set_value_result(
    vk: GnarkVerifyingKey,
    before: SetValue,
    commitment: [u8; 32],
    nullifier: [u8; 32],
    proof: Seq<u8>,
    value: u64,
    nonce: u64,
) -> (Result<(), SetValueError>, SetValue) {
    if before.nullifier_state.spent_at_slot != 0 {
        (Err(SetValueError::Example(ExampleError::NullifierAlreadySpent)), before)
    } else {
        match ownership_outcome(
            vk,
            proof,
            set_value_witness(
                before.program_id@,
                before.state_address@,
                commitment@,
                nullifier@,
                value,
                nonce,
            ),
        ) {
            Err(e) => (Err(SetValueError::Sunspot(e)), before),
            Ok(_) => (
                Ok(()),
                SetValue {
                    state: DemoState { value, bump: before.state_bump, commitment },
                    nullifier_state: NullifierState { spent_at_slot: before.slot },
                    ..before
                },
            ),
        }
    }
}

/// The public witness that a `set_value` must be proved against.
pub fn set_value_public_witness(
    program_id: &[u8; 32],
    state_address: &[u8; 32],
    commitment: &[u8; 32],
    nullifier: &[u8; 32],
    value: u64,
    nonce: u64,
) -> (witness: Vec<u8>)
    ensures
        witness@ == set_value_witness(
            program_id@,
            state_address@,
            commitment@,
            nullifier@,
            value,
            nonce,
        ),
{
    let action_discriminator = SET_VALUE_DISCRIMINATOR;
    let action_params = u64_le_bytes(value);
    let action_hash = compute_action_hash(
        program_id,
        state_address,
        &action_discriminator,
        action_params.as_slice(),
        nonce,
    );
    serialize_public_witness(commitment, state_address, program_id, &action_hash, nullifier)
}

/// Sets the guarded value, on an ownership proof for this very action.
pub fn set_value(
    verifier_key: &GnarkVerifyingKey,
    accounts: &mut SetValue,
    commitment: [u8; 32],
    nullifier: [u8; 32],
    proof: &[u8],
    value: u64,
    nonce: u64,
) -> (done: Result<(), SetValueError>)
    ensures
        (done, *final(accounts)) == set_value_result(
            *verifier_key,
            *old(accounts),
            commitment,
            nullifier,
            proof@,
            value,
            nonce,
        ),
{
    if accounts.nullifier_state.spent_at_slot != 0 {
        return Err(SetValueError::Example(ExampleError::NullifierAlreadySpent));
    }
    let public_witness = set_value_public_witness(
        &accounts.program_id,
        &accounts.state_address,
        &commitment,
        &nullifier,
        value,
        nonce,
    );
    match verify_ownership_proof(verifier_key, proof, public_witness.as_slice()) {
        Ok(_) => {},
        Err(e) => {
            return Err(SetValueError::Sunspot(e));
        },
    }
    accounts.state.value = value;
    accounts.state.bump = accounts.state_bump;
    accounts.state.commitment = commitment;
    accounts.nullifier_state.spent_at_slot = accounts.slot;
    Ok(())
}

/// No replay: once a `set_value` has gone through at a slot other than 0,
/// every later `set_value` on the accounts it left is refused because the
/// nullifier is spent, whatever proof it brings.
pub proof fn lemma_no_replay(
    vk: GnarkVerifyingKey,
    before: SetValue,
    commitment: [u8; 32],
    nullifier: [u8; 32],
    proof: Seq<u8>,
    value: u64,
    nonce: u64,
    later_slot: u64,
    later_commitment: [u8; 32],
    later_nullifier: [u8; 32],
    later_proof: Seq<u8>,
    later_value: u64,
    later_nonce: u64,
)
    requires
        before.slot != 0,
        set_value_result(vk, before, commitment, nullifier, proof, value, nonce).0 is Ok,
    ensures
        ({
            let after = set_value_result(vk, before, commitment, nullifier, proof, value, nonce).1;
            let again = set_value_result(
                vk,
                SetValue { slot: later_slot, ..after },
                later_commitment,
                later_nullifier,
                later_proof,
                later_value,
                later_nonce,
            );
            again.0 == Err::<(), SetValueError>(
                SetValueError::Example(ExampleError::NullifierAlreadySpent),
            ) && again.1 == (SetValue { slot: later_slot, ..after })
        }),
{
}

/// A refused `set_value` leaves the accounts as they were.
pub proof fn lemma_refusal_changes_nothing(
    vk: GnarkVerifyingKey,
    before: SetValue,
    commitment: [u8; 32],
    nullifier: [u8; 32],
    proof: Seq<u8>,
    value: u64,
    nonce: u64,
)
    requires
        set_value_result(vk, before, commitment, nullifier, proof, value, nonce).0 is Err,
    ensures
        set_value_result(vk, before, commitment, nullifier, proof, value, nonce).1 == before,
{
}

} // verus!
