//! Program-derived addresses: the account that holds the state guarded by a
//! commitment, and the account that records a nullifier as spent.

use crate::bytes::{bytes_equal, le_bytes, le_value, lemma_le_bytes_value, lemma_le_value_bytes,
    lemma_pow256_small, read_le_u64, u64_le_bytes};
use crate::sha::parts_view;
use crate::types::{Commitment, Nullifier};
use vstd::prelude::*;

verus! {

/// The seed prefix of a state account: the bytes of `zaffre`.
pub const ZAFFRE_SEED_PREFIX: [u8; 6] = [122, 97, 102, 102, 114, 101];

/// The seed prefix of a nullifier account: the bytes of `nullifier`.
pub const NULLIFIER_SEED_PREFIX: [u8; 9] = [110, 117, 108, 108, 105, 102, 105, 101, 114];

/// Length of a nullifier record.
pub const NULLIFIER_STATE_SIZE: usize = 8;

/// The program-derived address for a list of seeds under a program, with
/// its bump seed: the first of the bump seeds 255, 254, ... for which the
/// SHA-256 digest of the seeds, the bump, the program id and a fixed marker
/// is not a point of the ed25519 curve. `None` where there is none, or
/// where the seeds are more or longer than the runtime accepts.
pub uninterp spec fn program_address(seeds: Seq<Seq<u8>>, program_id: Seq<u8>) -> Option<
    (Seq<u8>, u8),
>;

/// The state address that a commitment has under a program.
pub open spec fn zaffre_address(program_id: Seq<u8>, commitment: Seq<u8>) -> Option<(Seq<u8>, u8)> {
    program_address(seq![ZAFFRE_SEED_PREFIX@, commitment], program_id)
}

/// The record address that a nullifier has under a program.
pub open spec fn nullifier_address(program_id: Seq<u8>, nullifier: Seq<u8>) -> Option<
    (Seq<u8>, u8),
> {
    program_address(seq![NULLIFIER_SEED_PREFIX@, nullifier], program_id)
}

/// Trusted: `solana_program::pubkey::Pubkey::try_find_program_address`,
/// with the program id and the address passed as their 32 bytes. The
/// contract claims that the result is a function of the seeds and the
/// program id alone; the function searches the bump seeds in a fixed order
/// and returns `None` where the search fails.
#[verifier::external_body]
pub(crate) fn try_find_program_address(seeds: &[&[u8]], program_id: &[u8; 32]) -> (found: Option<
    ([u8; 32], u8),
>)
    ensures
        found is Some <==> program_address(parts_view(seeds@), program_id@) is Some,
        found is Some ==> found.unwrap().0@ == program_address(
            parts_view(seeds@),
            program_id@,
        ).unwrap().0 && found.unwrap().1 == program_address(
            parts_view(seeds@),
            program_id@,
        ).unwrap().1,
{
    let id = solana_program::pubkey::Pubkey::new_from_array(*program_id);
    solana_program::pubkey::Pubkey::try_find_program_address(seeds, &id).map(
        |(address, bump)| (address.to_bytes(), bump),
    )
}

/// The state account of a commitment.
#[derive(Clone, Debug, PartialEq, Eq)]
pub struct ZaffrePDA {
    pub address: [u8; 32],
    pub bump: u8,
    pub commitment: Commitment,
}

/// Why an account was refused.
#[derive(Clone, Copy, Debug, PartialEq, Eq)]
pub enum ZaffreError {
    /// The account is not the one derived from the seeds.
    InvalidPDA,
    /// The nullifier's record holds a slot.
    NullifierAlreadySpent,
}

/// The state account of a commitment under a program, or `None` where no
/// address can be derived.
pub fn derive_zaffre_pda(program_id: &[u8; 32], commitment: &Commitment) -> (pda: Option<ZaffrePDA>)
    ensures
        pda is Some <==> zaffre_address(program_id@, commitment@) is Some,
        pda is Some ==> {
            &&& pda.unwrap().address@ == zaffre_address(program_id@, commitment@).unwrap().0
            &&& pda.unwrap().bump == zaffre_address(program_id@, commitment@).unwrap().1
            &&& pda.unwrap().commitment == *commitment
        },
{
    let prefix = ZAFFRE_SEED_PREFIX;
    let seeds: [&[u8]; 2] = [prefix.as_slice(), commitment.as_bytes().as_slice()];
    assert(parts_view(seeds@) =~= seq![ZAFFRE_SEED_PREFIX@, commitment@]);
    match try_find_program_address(seeds.as_slice(), program_id) {
        Some((address, bump)) => Some(ZaffrePDA { address, bump, commitment: *commitment }),
        None => None,
    }
}

/// The record account of a nullifier under a program, with its bump seed,
/// or `None` where no address can be derived.
pub fn derive_nullifier_pda(program_id: &[u8; 32], nullifier: &Nullifier) -> (pda: Option<
    ([u8; 32], u8),
>)
    ensures
        pda is Some <==> nullifier_address(program_id@, nullifier@) is Some,
        pda is Some ==> {
            &&& pda.unwrap().0@ == nullifier_address(program_id@, nullifier@).unwrap().0
            &&& pda.unwrap().1 == nullifier_address(program_id@, nullifier@).unwrap().1
        },
{
    let prefix = NULLIFIER_SEED_PREFIX;
    let seeds: [&[u8]; 2] = [prefix.as_slice(), nullifier.as_bytes().as_slice()];
    assert(parts_view(seeds@) =~= seq![NULLIFIER_SEED_PREFIX@, nullifier@]);
    try_find_program_address(seeds.as_slice(), program_id)
}

/// Checks that `provided_pda` is the state account of `commitment` and
/// gives its bump seed.
pub fn validate_zaffre_pda(program_id: &[u8; 32], commitment: &[u8; 32], provided_pda: &[u8; 32]) -> (bump:
    Result<u8, ZaffreError>)
    ensures
        bump is Ok <==> zaffre_address(program_id@, commitment@) is Some && zaffre_address(
            program_id@,
            commitment@,
        ).unwrap().0 == provided_pda@,
        bump is Ok ==> bump.unwrap() == zaffre_address(program_id@, commitment@).unwrap().1,
        bump is Err ==> bump.unwrap_err() == ZaffreError::InvalidPDA,
{
    let prefix = ZAFFRE_SEED_PREFIX;
    let seeds: [&[u8]; 2] = [prefix.as_slice(), commitment.as_slice()];
    assert(parts_view(seeds@) =~= seq![ZAFFRE_SEED_PREFIX@, commitment@]);
    match try_find_program_address(seeds.as_slice(), program_id) {
        Some((derived, bump)) => {
            if bytes_equal(derived.as_slice(), provided_pda.as_slice()) {
                Ok(bump)
            } else {
                Err(ZaffreError::InvalidPDA)
            }
        },
        None => Err(ZaffreError::InvalidPDA),
    }
}

/// Checks that `provided_pda` is the record account of `nullifier` and
/// gives its bump seed.
pub fn validate_nullifier_pda(program_id: &[u8; 32], nullifier: &[u8; 32], provided_pda: &[u8; 32]) -> (bump:
    Result<u8, ZaffreError>)
    ensures
        bump is Ok <==> nullifier_address(program_id@, nullifier@) is Some && nullifier_address(
            program_id@,
            nullifier@,
        ).unwrap().0 == provided_pda@,
        bump is Ok ==> bump.unwrap() == nullifier_address(program_id@, nullifier@).unwrap().1,
        bump is Err ==> bump.unwrap_err() == ZaffreError::InvalidPDA,
{
    let prefix = NULLIFIER_SEED_PREFIX;
    let seeds: [&[u8]; 2] = [prefix.as_slice(), nullifier.as_slice()];
    assert(parts_view(seeds@) =~= seq![NULLIFIER_SEED_PREFIX@, nullifier@]);
    match try_find_program_address(seeds.as_slice(), program_id) {
        Some((derived, bump)) => {
            if bytes_equal(derived.as_slice(), provided_pda.as_slice()) {
                Ok(bump)
            } else {
                Err(ZaffreError::InvalidPDA)
            }
        },
        None => Err(ZaffreError::InvalidPDA),
    }
}

/// The record of a nullifier: the slot at which it was spent, and 0 while
/// it is unspent. Once a slot is recorded the record does not change.
#[derive(Clone, Copy, Debug, PartialEq, Eq)]
pub struct NullifierStateData {
    pub spent_at_slot: u64,
}

impl NullifierStateData {
    /// The record that holds `slot`.
    pub fn new(slot: u64) -> (state: NullifierStateData)
        ensures
            state.spent_at_slot == slot,
    {
        NullifierStateData { spent_at_slot: slot }
    }

    /// The record's wire form: the slot in eight little-endian bytes.
    pub fn to_bytes(&self) -> (bytes: [u8; 8])
        ensures
            bytes@ == le_bytes(self.spent_at_slot as nat, 8),
    {
        u64_le_bytes(self.spent_at_slot)
    }

    /// The record that eight bytes hold.
    pub fn from_bytes(bytes: &[u8; 8]) -> (state: NullifierStateData)
        ensures
            state.spent_at_slot as nat == le_value(bytes@),
    {
        assert(bytes@.subrange(0, 8) =~= bytes@);
        NullifierStateData { spent_at_slot: read_le_u64(bytes.as_slice(), 0) }
    }

    /// Whether the nullifier has been spent.
    pub fn is_spent(&self) -> (spent: bool)
        ensures
            spent <==> self.spent_at_slot != 0,
    {
        self.spent_at_slot != 0
    }

    /// Records `slot` as the slot at which the nullifier is spent. A record
    /// that holds a slot is refused and stays as it is.
    pub fn spend(&mut self, slot: u64) -> (done: Result<(), ZaffreError>)
        ensures
            done is Ok <==> old(self).spent_at_slot == 0,
            done is Ok ==> final(self).spent_at_slot == slot,
            done is Err ==> *final(self) == *old(self) && done.unwrap_err()
                == ZaffreError::NullifierAlreadySpent,
    {
        if self.spent_at_slot != 0 {
            return Err(ZaffreError::NullifierAlreadySpent);
        }
        self.spent_at_slot = slot;
        Ok(())
    }
}

/// A record read back from its wire form is the record, and the wire form
/// of a record read from eight bytes is those bytes.
pub proof fn lemma_nullifier_state_round_trip(slot: u64, bytes: Seq<u8>)
    requires
        bytes.len() == 8,
    ensures
        le_value(le_bytes(slot as nat, 8)) == slot,
        le_bytes(le_value(bytes), 8) == bytes,
{
    lemma_pow256_small();
    lemma_le_bytes_value(slot as nat, 8);
    lemma_le_value_bytes(bytes);
}

} // verus!
