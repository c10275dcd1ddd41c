use solana_program::pubkey::Pubkey;
use zaffre::pda::{
    derive_nullifier_pda, derive_zaffre_pda, validate_nullifier_pda, validate_zaffre_pda,
    NullifierStateData, ZaffreError, NULLIFIER_SEED_PREFIX, NULLIFIER_STATE_SIZE,
    ZAFFRE_SEED_PREFIX,
};
use zaffre::types::{Commitment, Nullifier};

#[test]
fn test_valid_pda() {
    let program_id = Pubkey::new_unique();
    let commitment = [1u8; 32];
    let (expected, _) =
        Pubkey::find_program_address(&[&ZAFFRE_SEED_PREFIX[..], &commitment], &program_id);

    let (derived, _) =
        Pubkey::find_program_address(&[&ZAFFRE_SEED_PREFIX[..], &commitment], &program_id);
    assert_eq!(expected, derived);
}

#[test]
fn test_pda_determinism() {
    let commitment = Commitment::from_bytes([1u8; 32]);
    let program_id = Pubkey::new_unique();
    let pda1 = derive_zaffre_pda(&program_id.to_bytes(), &commitment).unwrap();
    let pda2 = derive_zaffre_pda(&program_id.to_bytes(), &commitment).unwrap();
    assert_eq!(pda1.address, pda2.address);
    assert_eq!(pda1.bump, pda2.bump);
}

#[test]
fn test_different_commitments_different_pdas() {
    let c1 = Commitment::from_bytes([1u8; 32]);
    let c2 = Commitment::from_bytes([2u8; 32]);
    let program_id = Pubkey::new_unique();
    let pda1 = derive_zaffre_pda(&program_id.to_bytes(), &c1).unwrap();
    let pda2 = derive_zaffre_pda(&program_id.to_bytes(), &c2).unwrap();
    assert_ne!(pda1.address, pda2.address);
}

#[test]
fn test_pda_derivation() {
    let commitment = Commitment::from_bytes([1u8; 32]);
    let program_id = Pubkey::new_unique();
    let pda = derive_zaffre_pda(&program_id.to_bytes(), &commitment).unwrap();

    let pda2 = derive_zaffre_pda(&program_id.to_bytes(), &commitment).unwrap();
    assert_eq!(pda.address, pda2.address);
}

#[test]
fn test_nullifier_derivation() {
    let nullifier = Nullifier::from_bytes([1u8; 32]);
    let program_id = Pubkey::new_unique();
    let (nul_pda, _) = derive_nullifier_pda(&program_id.to_bytes(), &nullifier).unwrap();

    assert_ne!(nul_pda, Pubkey::default().to_bytes());
}

#[test]
fn seed_prefixes_are_the_two_words() {
    assert_eq!(&ZAFFRE_SEED_PREFIX[..], b"zaffre");
    assert_eq!(&NULLIFIER_SEED_PREFIX[..], b"nullifier");
    assert_eq!(NULLIFIER_STATE_SIZE, 8);
}

#[test]
fn derived_addresses_are_those_of_the_runtime() {
    let program_id = Pubkey::new_from_array([7u8; 32]);
    let commitment = Commitment::from_bytes([1u8; 32]);
    let (expected, bump) =
        Pubkey::find_program_address(&[b"zaffre", commitment.as_bytes()], &program_id);
    let pda = derive_zaffre_pda(&program_id.to_bytes(), &commitment).unwrap();
    assert_eq!(pda.address, expected.to_bytes());
    assert_eq!(pda.bump, bump);
    assert_eq!(pda.commitment, commitment);
    assert_ne!(pda.address, program_id.to_bytes());

    let nullifier = Nullifier::from_bytes([2u8; 32]);
    let (expected, bump) =
        Pubkey::find_program_address(&[b"nullifier", nullifier.as_bytes()], &program_id);
    assert_eq!(
        derive_nullifier_pda(&program_id.to_bytes(), &nullifier),
        Some((expected.to_bytes(), bump))
    );
}

#[test]
fn validation_accepts_the_derived_address_only() {
    let program_id = [7u8; 32];
    let commitment = [1u8; 32];
    let pda = derive_zaffre_pda(&program_id, &Commitment::from_bytes(commitment)).unwrap();
    assert_eq!(validate_zaffre_pda(&program_id, &commitment, &pda.address), Ok(pda.bump));
    assert_eq!(
        validate_zaffre_pda(&program_id, &commitment, &[0u8; 32]),
        Err(ZaffreError::InvalidPDA)
    );
    assert_eq!(
        validate_nullifier_pda(&program_id, &commitment, &pda.address),
        Err(ZaffreError::InvalidPDA)
    );
    let (address, bump) =
        derive_nullifier_pda(&program_id, &Nullifier::from_bytes(commitment)).unwrap();
    assert_eq!(validate_nullifier_pda(&program_id, &commitment, &address), Ok(bump));
}

#[test]
fn nullifier_record_is_the_slot_in_little_endian() {
    let state = NullifierStateData::new(0x0102030405060708);
    assert_eq!(state.to_bytes(), [8u8, 7, 6, 5, 4, 3, 2, 1]);
    assert_eq!(NullifierStateData::from_bytes(&[8u8, 7, 6, 5, 4, 3, 2, 1]), state);
    assert_eq!(NullifierStateData::from_bytes(&[0u8; 8]).spent_at_slot, 0);
    assert_eq!(NullifierStateData::from_bytes(&[255u8; 8]).spent_at_slot, u64::MAX);
    assert_eq!(NullifierStateData::new(u64::MAX).to_bytes(), [255u8; 8]);
}

#[test]
fn nullifier_is_spent_once() {
    let mut state = NullifierStateData::new(0);
    assert!(!state.is_spent());
    assert_eq!(state.spend(77), Ok(()));
    assert!(state.is_spent());
    assert_eq!(state.spent_at_slot, 77);
    assert_eq!(state.spend(78), Err(ZaffreError::NullifierAlreadySpent));
    assert_eq!(state.spent_at_slot, 77);
}
