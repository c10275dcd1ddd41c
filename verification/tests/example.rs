use solana_program::pubkey::Pubkey;
use zaffre::example::{
    derive_config_pda, derive_state_pda, initialize, prepare, update_verifier, Config, DemoState,
    ExampleError, NullifierState, CONFIG_SEED, SET_VALUE_DISCRIMINATOR,
};

#[test]
fn seeds_and_sizes_are_those_of_the_program() {
    assert_eq!(&CONFIG_SEED[..], b"zaffre_config");
    assert_eq!(&SET_VALUE_DISCRIMINATOR, b"setvalue");
    assert_eq!(DemoState::STATE_SIZE, 41);
    assert_eq!(Config::STATE_SIZE, 64);
    assert_eq!(NullifierState::STATE_SIZE, 8);
}

#[test]
fn state_and_config_addresses_are_those_of_the_runtime() {
    let program_id = Pubkey::new_from_array([9u8; 32]);
    let commitment = [1u8; 32];
    let (state, bump) = Pubkey::find_program_address(&[b"zaffre", &commitment], &program_id);
    assert_eq!(
        derive_state_pda(&program_id.to_bytes(), &commitment),
        Some((state.to_bytes(), bump))
    );
    let (config, bump) = Pubkey::find_program_address(&[b"zaffre_config"], &program_id);
    assert_eq!(derive_config_pda(&program_id.to_bytes()), Some((config.to_bytes(), bump)));
}

#[test]
fn initialize_sets_the_authority_and_the_verifier() {
    let mut config = Config { authority: [0u8; 32], verifier_program: [0u8; 32] };
    initialize(&mut config, &[1u8; 32], &[2u8; 32]);
    assert_eq!(config, Config { authority: [1u8; 32], verifier_program: [2u8; 32] });
}

#[test]
fn only_the_authority_replaces_the_verifier() {
    let mut config = Config { authority: [1u8; 32], verifier_program: [2u8; 32] };
    assert_eq!(update_verifier(&mut config, &[9u8; 32], &[3u8; 32]), Err(ExampleError::NotAuthority));
    assert_eq!(config.verifier_program, [2u8; 32]);
    assert_eq!(update_verifier(&mut config, &[1u8; 32], &[3u8; 32]), Ok(()));
    assert_eq!(config, Config { authority: [1u8; 32], verifier_program: [3u8; 32] });
}

#[test]
fn prepare_does_nothing() {
    assert_eq!(prepare([1u8; 32], [2u8; 32]), Ok(()));
}
