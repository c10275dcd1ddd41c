use solana_program::pubkey::Pubkey;
use zaffre::encoding::{
    check_action_binding, compute_action_hash, compute_domain_separator, encode_public_witness,
    extract_public_inputs, extract_public_inputs_strict, serialize_public_inputs,
    serialize_public_witness, BindingError, PublicInputs,
    OWNERSHIP_ACTION_PARAMS_MAX_LEN, PUBLIC_INPUT_BYTES, PUBLIC_INPUT_COUNT,
    PUBLIC_WITNESS_HEADER_LEN, PUBLIC_WITNESS_SIZE,
};
use zaffre::pda::{derive_nullifier_pda, derive_zaffre_pda};
use zaffre::types::{Commitment, Nullifier};

#[test]
fn test_serialize_public_inputs() {
    let commitment = [1u8; 32];
    let pda = Pubkey::new_unique();
    let program_id = Pubkey::new_unique();
    let action_hash = [2u8; 32];
    let nullifier = [3u8; 32];

    let bytes = serialize_public_inputs(
        &commitment,
        &pda.to_bytes(),
        &program_id.to_bytes(),
        &action_hash,
        &nullifier,
    );

    assert_eq!(bytes.len(), PUBLIC_INPUT_BYTES);
    assert_eq!(&bytes[0..32], &commitment);
    assert_eq!(&bytes[32..64], &pda.to_bytes());
    assert_eq!(&bytes[64..96], &program_id.to_bytes());
    assert_eq!(&bytes[96..128], &action_hash);
    assert_eq!(&bytes[128..PUBLIC_INPUT_BYTES], &nullifier);
}

#[test]
fn test_public_witness_roundtrip() {
    let commitment = [3u8; 32];
    let pda = Pubkey::new_unique();
    let program_id = Pubkey::new_unique();
    let action_hash = [4u8; 32];
    let nullifier = [5u8; 32];

    let witness = serialize_public_witness(
        &commitment,
        &pda.to_bytes(),
        &program_id.to_bytes(),
        &action_hash,
        &nullifier,
    );
    assert_eq!(witness.len(), PUBLIC_WITNESS_SIZE);

    let raw = extract_public_inputs(&witness).expect("witness should decode");
    assert_eq!(&raw[0..32], &commitment);
    assert_eq!(&raw[32..64], &pda.to_bytes());
    assert_eq!(&raw[64..96], &program_id.to_bytes());
    assert_eq!(&raw[96..128], &action_hash);
    assert_eq!(&raw[128..PUBLIC_INPUT_BYTES], &nullifier);
}

#[test]
fn test_compute_action_hash_deterministic() {
    let program_id = Pubkey::new_unique();
    let pda = Pubkey::new_unique();
    let discriminator = *b"transfer";
    let params = [42u8; 16];
    let nonce = 12345u64;

    let hash1 =
        compute_action_hash(&program_id.to_bytes(), &pda.to_bytes(), &discriminator, &params, nonce);
    let hash2 =
        compute_action_hash(&program_id.to_bytes(), &pda.to_bytes(), &discriminator, &params, nonce);

    assert_eq!(hash1, hash2);
    assert_eq!(hash1.len(), 32);
}

#[test]
fn test_action_hash_different_nonce() {
    let program_id = Pubkey::new_unique();
    let pda = Pubkey::new_unique();
    let discriminator = *b"transfer";
    let params = [];

    let hash1 =
        compute_action_hash(&program_id.to_bytes(), &pda.to_bytes(), &discriminator, &params, 1);
    let hash2 =
        compute_action_hash(&program_id.to_bytes(), &pda.to_bytes(), &discriminator, &params, 2);

    assert_ne!(hash1, hash2);
}

#[test]
fn encoding_test_public_inputs_struct() {
    let commitment = [1u8; 32];
    let pda = Pubkey::new_unique();
    let program_id = Pubkey::new_unique();
    let action_hash = [2u8; 32];
    let nullifier = [3u8; 32];

    let inputs = PublicInputs::new(
        commitment,
        &pda.to_bytes(),
        &program_id.to_bytes(),
        action_hash,
        nullifier,
    );
    let bytes = inputs.to_bytes();

    assert_eq!(bytes.len(), PUBLIC_INPUT_BYTES);
    assert_eq!(&bytes[0..32], &commitment);
}

#[test]
fn test_public_witness_header_and_entries() {
    let commitment = [1u8; 32];
    let pda = Pubkey::new_from_array([2u8; 32]);
    let program_id = Pubkey::new_from_array([3u8; 32]);
    let action_hash = [4u8; 32];
    let nullifier = [5u8; 32];

    let witness = serialize_public_witness(
        &commitment,
        &pda.to_bytes(),
        &program_id.to_bytes(),
        &action_hash,
        &nullifier,
    );
    assert_eq!(witness.len(), PUBLIC_WITNESS_SIZE);

    let expected_count = (PUBLIC_INPUT_COUNT as u32).to_be_bytes();
    assert_eq!(&witness[0..4], &expected_count);
    assert_eq!(&witness[4..8], &0u32.to_be_bytes());
    assert_eq!(&witness[8..12], &expected_count);

    let first_entry = PUBLIC_WITNESS_HEADER_LEN;
    assert!(witness[first_entry..first_entry + 31].iter().all(|b| *b == 0));
    assert_eq!(witness[first_entry + 31], commitment[0]);

    let action_hash_entry = PUBLIC_WITNESS_HEADER_LEN + 32 * 96;
    assert!(witness[action_hash_entry..action_hash_entry + 31].iter().all(|b| *b == 0));
    assert_eq!(witness[action_hash_entry + 31], action_hash[0]);

    let nullifier_entry = PUBLIC_WITNESS_HEADER_LEN + 32 * 128;
    assert!(witness[nullifier_entry..nullifier_entry + 31].iter().all(|b| *b == 0));
    assert_eq!(witness[nullifier_entry + 31], nullifier[0]);
}

#[test]
fn encoding_test_domain_separator() {
    let program_id = Pubkey::new_unique();
    let sep1 = compute_domain_separator(&program_id.to_bytes());
    let sep2 = compute_domain_separator(&program_id.to_bytes());

    assert_eq!(sep1, sep2);
    assert_eq!(sep1.len(), 32);

    let other_program = Pubkey::new_unique();
    let sep3 = compute_domain_separator(&other_program.to_bytes());
    assert_ne!(sep1, sep3);
}

#[test]
fn test_full_workflow() {
    let commitment = Commitment::from_bytes([1u8; 32]);

    let program_id = Pubkey::new_unique();
    let pda = derive_zaffre_pda(&program_id.to_bytes(), &commitment).unwrap();

    let action_hash =
        compute_action_hash(&program_id.to_bytes(), &pda.address, b"test\0\0\0\0", &[], 12345);
    let nullifier = Nullifier::from_bytes([9u8; 32]);

    let public_inputs = serialize_public_inputs(
        commitment.as_bytes(),
        &pda.address,
        &program_id.to_bytes(),
        &action_hash,
        nullifier.as_bytes(),
    );
    let public_witness = serialize_public_witness(
        commitment.as_bytes(),
        &pda.address,
        &program_id.to_bytes(),
        &action_hash,
        nullifier.as_bytes(),
    );

    assert_eq!(public_inputs.len(), PUBLIC_INPUT_BYTES);
    assert_eq!(public_witness.len(), PUBLIC_WITNESS_SIZE);
}

#[test]
fn test_nullifier_workflow() {
    let program_id = Pubkey::new_unique();
    let nullifier = Nullifier::from_bytes([2u8; 32]);

    let (nullifier_pda, _bump) = derive_nullifier_pda(&program_id.to_bytes(), &nullifier).unwrap();
    assert_ne!(nullifier_pda, Pubkey::default().to_bytes());
}

#[test]
fn test_action_hash_computation() {
    let program_id = Pubkey::new_unique();
    let pda = Pubkey::new_unique();
    let discriminator = *b"transfer";
    let params = [1u8, 2, 3, 4];
    let nonce = 12345u64;

    let hash1 =
        compute_action_hash(&program_id.to_bytes(), &pda.to_bytes(), &discriminator, &params, nonce);
    let hash2 =
        compute_action_hash(&program_id.to_bytes(), &pda.to_bytes(), &discriminator, &params, nonce);

    assert_eq!(hash1, hash2);

    let hash3 = compute_action_hash(
        &program_id.to_bytes(),
        &pda.to_bytes(),
        &discriminator,
        &params,
        nonce + 1,
    );
    assert_ne!(hash1, hash3);
}

#[test]
fn test_public_inputs_serialization() {
    let commitment = [1u8; 32];
    let pda = Pubkey::new_unique();
    let program_id = Pubkey::new_unique();
    let action_hash = [2u8; 32];
    let nullifier = [3u8; 32];

    let bytes = serialize_public_inputs(
        &commitment,
        &pda.to_bytes(),
        &program_id.to_bytes(),
        &action_hash,
        &nullifier,
    );

    assert_eq!(bytes.len(), 160);

    assert_eq!(&bytes[0..32], &commitment);
    assert_eq!(&bytes[32..64], &pda.to_bytes());
    assert_eq!(&bytes[64..96], &program_id.to_bytes());
    assert_eq!(&bytes[96..128], &action_hash);
    assert_eq!(&bytes[128..160], &nullifier);
}

#[test]
fn integration_test_public_inputs_struct() {
    let commitment = [1u8; 32];
    let pda = Pubkey::new_unique();
    let program_id = Pubkey::new_unique();
    let action_hash = [2u8; 32];
    let nullifier = [3u8; 32];

    let inputs = PublicInputs::new(
        commitment,
        &pda.to_bytes(),
        &program_id.to_bytes(),
        action_hash,
        nullifier,
    );
    let bytes = inputs.to_bytes();

    assert_eq!(bytes.len(), 160);
    assert_eq!(&bytes[0..32], &commitment);
}

#[test]
fn integration_test_domain_separator() {
    let program_id = Pubkey::new_unique();
    let sep1 = compute_domain_separator(&program_id.to_bytes());
    let sep2 = compute_domain_separator(&program_id.to_bytes());

    assert_eq!(sep1, sep2);

    let other = Pubkey::new_unique();
    let sep3 = compute_domain_separator(&other.to_bytes());
    assert_ne!(sep1, sep3);
}

#[test]
fn constants_have_their_values() {
    assert_eq!(PUBLIC_INPUT_BYTES, 160);
    assert_eq!(PUBLIC_INPUT_COUNT, 160);
    assert_eq!(PUBLIC_WITNESS_HEADER_LEN, 12);
    assert_eq!(PUBLIC_WITNESS_SIZE, 5132);
    assert_eq!(OWNERSHIP_ACTION_PARAMS_MAX_LEN, 32);
}

#[test]
fn action_hash_is_sha256_of_the_parts_in_order() {
    let digest =
        compute_action_hash(&[1u8; 32], &[2u8; 32], b"transfer", &[1u8, 2, 3, 4], 12345);
    let expected = [
        11u8, 40, 59, 242, 81, 18, 142, 12, 17, 128, 214, 132, 147, 94, 85, 201, 121, 229, 230,
        144, 224, 134, 155, 105, 108, 164, 47, 220, 25, 84, 31, 193,
    ];
    assert_eq!(digest, expected);
}

#[test]
fn action_hash_takes_parameters_of_every_length_up_to_the_limit() {
    let short = compute_action_hash(&[1u8; 32], &[2u8; 32], b"transfer", &[], 1);
    let full = compute_action_hash(&[1u8; 32], &[2u8; 32], b"transfer", &[0u8; 32], 1);
    assert_ne!(short, full);
}

#[test]
fn domain_separator_is_sha256_of_the_program_id() {
    let expected = [
        114u8, 205, 110, 132, 34, 196, 7, 251, 109, 9, 134, 144, 241, 19, 11, 125, 237, 126, 194,
        247, 245, 225, 211, 11, 217, 213, 33, 240, 21, 54, 55, 147,
    ];
    assert_eq!(compute_domain_separator(&[1u8; 32]), expected);
}

#[test]
fn encode_then_decode_gives_the_payload() {
    let mut raw = [0u8; 160];
    for (i, b) in raw.iter_mut().enumerate() {
        *b = (i * 7 % 256) as u8;
    }
    let witness = encode_public_witness(&raw);
    assert_eq!(witness.len(), 5132);
    assert_eq!(&witness[0..12], &[0u8, 0, 0, 160, 0, 0, 0, 0, 0, 0, 0, 160]);
    assert_eq!(extract_public_inputs(&witness), Some(raw));
}

#[test]
fn decode_then_encode_gives_a_zero_padded_witness_back() {
    let raw = [9u8; 160];
    let witness = encode_public_witness(&raw);
    let decoded = extract_public_inputs(&witness).unwrap();
    assert_eq!(encode_public_witness(&decoded), witness);
}

#[test]
fn decode_ignores_the_padding_of_an_element() {
    let raw = [9u8; 160];
    let mut witness = encode_public_witness(&raw);
    witness[12] = 1;
    let decoded = extract_public_inputs(&witness).unwrap();
    assert_eq!(decoded, raw);
    assert_ne!(encode_public_witness(&decoded), witness);
}

#[test]
fn decode_refuses_a_wrong_length() {
    let witness = encode_public_witness(&[1u8; 160]);
    assert_eq!(extract_public_inputs(&witness[..5131]), None);
    let mut longer = witness.clone();
    longer.push(0);
    assert_eq!(extract_public_inputs(&longer), None);
    assert_eq!(extract_public_inputs(&[]), None);
}

#[test]
fn decode_refuses_a_wrong_header() {
    let witness = encode_public_witness(&[1u8; 160]);
    for at in [3usize, 7, 11] {
        let mut bad = witness.clone();
        bad[at] ^= 1;
        assert_eq!(extract_public_inputs(&bad), None);
    }
    let mut high = witness.clone();
    high[0] = 1;
    assert_eq!(extract_public_inputs(&high), None);
}

#[test]
fn public_inputs_make_their_witness() {
    let inputs = PublicInputs::new([1u8; 32], &[2u8; 32], &[3u8; 32], [4u8; 32], [5u8; 32]);
    let witness = inputs.to_public_witness();
    assert_eq!(witness, encode_public_witness(&inputs.to_bytes()));
    assert_eq!(
        witness,
        serialize_public_witness(&[1u8; 32], &[2u8; 32], &[3u8; 32], &[4u8; 32], &[5u8; 32])
    );
    assert_eq!(witness[12 + 32 * 64 + 31], 3);
}

#[test]
fn strict_decode_accepts_what_encode_produces_only() {
    let raw = [9u8; 160];
    let mut witness = encode_public_witness(&raw);
    assert_eq!(extract_public_inputs_strict(&witness), Some(raw));
    witness[12] = 1;
    assert_eq!(extract_public_inputs_strict(&witness), None);
    assert_eq!(extract_public_inputs(&witness), Some(raw));
    witness[12] = 0;
    witness[5131 - 1] = 1;
    assert_eq!(extract_public_inputs_strict(&witness), None);
    witness[5131 - 1] = 0;
    witness[5131] = 200;
    let mut changed = raw;
    changed[159] = 200;
    assert_eq!(extract_public_inputs_strict(&witness), Some(changed));
    witness[3] = 161;
    assert_eq!(extract_public_inputs_strict(&witness), None);
    assert_eq!(extract_public_inputs_strict(&witness[..100]), None);
}

fn bound_witness() -> Vec<u8> {
    let action_hash = compute_action_hash(&[3u8; 32], &[4u8; 32], b"setvalue", &[1, 2], 42);
    serialize_public_witness(&[1u8; 32], &[4u8; 32], &[3u8; 32], &action_hash, &[5u8; 32])
}

#[test]
fn binding_gives_the_commitment_and_the_nullifier() {
    let witness = bound_witness();
    assert_eq!(
        check_action_binding(&witness, &[3u8; 32], &[4u8; 32], b"setvalue", &[1, 2], 42),
        Ok((Commitment::from_bytes([1u8; 32]), Nullifier::from_bytes([5u8; 32])))
    );
}

#[test]
fn binding_refuses_another_action() {
    let witness = bound_witness();
    assert_eq!(
        check_action_binding(&witness, &[3u8; 32], &[4u8; 32], b"setvalue", &[1, 2], 43),
        Err(BindingError::ActionHashMismatch)
    );
    assert_eq!(
        check_action_binding(&witness, &[3u8; 32], &[4u8; 32], b"setvalue", &[1, 3], 42),
        Err(BindingError::ActionHashMismatch)
    );
    assert_eq!(
        check_action_binding(&witness, &[3u8; 32], &[4u8; 32], b"getvalue", &[1, 2], 42),
        Err(BindingError::ActionHashMismatch)
    );
    let mut changed = witness.clone();
    changed[12 + 32 * 96 + 31] ^= 1;
    assert_eq!(
        check_action_binding(&changed, &[3u8; 32], &[4u8; 32], b"setvalue", &[1, 2], 42),
        Err(BindingError::ActionHashMismatch)
    );
}

#[test]
fn binding_refuses_another_resource_or_program() {
    let witness = bound_witness();
    let mut other_resource = witness.clone();
    other_resource[12 + 32 * 32 + 31] ^= 1;
    assert_eq!(
        check_action_binding(&other_resource, &[3u8; 32], &[4u8; 32], b"setvalue", &[1, 2], 42),
        Err(BindingError::ResourceMismatch)
    );
    let mut other_program = witness.clone();
    other_program[12 + 32 * 95 + 31] ^= 1;
    assert_eq!(
        check_action_binding(&other_program, &[3u8; 32], &[4u8; 32], b"setvalue", &[1, 2], 42),
        Err(BindingError::ProgramMismatch)
    );
    assert_eq!(
        check_action_binding(&witness, &[3u8; 32], &[6u8; 32], b"setvalue", &[1, 2], 42),
        Err(BindingError::ActionHashMismatch)
    );
}

#[test]
fn binding_refuses_a_malformed_witness() {
    let witness = bound_witness();
    assert_eq!(
        check_action_binding(&witness[..5131], &[3u8; 32], &[4u8; 32], b"setvalue", &[1, 2], 42),
        Err(BindingError::MalformedWitness)
    );
    let mut bad = witness.clone();
    bad[7] = 1;
    assert_eq!(
        check_action_binding(&bad, &[3u8; 32], &[4u8; 32], b"setvalue", &[1, 2], 42),
        Err(BindingError::MalformedWitness)
    );
}

#[test]
fn binding_leaves_the_nullifier_and_the_commitment_open() {
    let mut witness = bound_witness();
    witness[12 + 31] = 77;
    witness[12 + 32 * 159 + 31] = 78;
    let (commitment, nullifier) =
        check_action_binding(&witness, &[3u8; 32], &[4u8; 32], b"setvalue", &[1, 2], 42).unwrap();
    assert_eq!(commitment.as_bytes()[0], 77);
    assert_eq!(nullifier.as_bytes()[31], 78);
}

#[test]
fn binding_refuses_parameters_of_more_than_32_bytes() {
    let witness = bound_witness();
    assert_eq!(
        check_action_binding(&witness, &[3u8; 32], &[4u8; 32], b"setvalue", &[0u8; 33], 42),
        Err(BindingError::ActionParamsTooLong)
    );
    assert_eq!(
        check_action_binding(&witness[..5], &[3u8; 32], &[4u8; 32], b"setvalue", &[0u8; 33], 42),
        Err(BindingError::ActionParamsTooLong)
    );
    assert_eq!(
        check_action_binding(&witness, &[3u8; 32], &[4u8; 32], b"setvalue", &[0u8; 32], 42),
        Err(BindingError::ActionHashMismatch)
    );
}
