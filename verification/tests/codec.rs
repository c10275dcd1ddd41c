use zaffre::error::{GnarkError, HashFailure, PedersenFailure};
use zaffre::gnark_proof::GnarkProof;
use zaffre::vk::parse_vk;
use zaffre::witness::GnarkWitness;

fn proof_bytes(commitments: usize) -> Vec<u8> {
    let mut bytes = Vec::new();
    bytes.extend_from_slice(&[1u8; 64]);
    bytes.extend_from_slice(&[2u8; 128]);
    bytes.extend_from_slice(&[3u8; 64]);
    bytes.extend_from_slice(&(commitments as u32).to_be_bytes());
    for k in 0..commitments {
        bytes.extend_from_slice(&[10 + k as u8; 64]);
    }
    bytes.extend_from_slice(&[4u8; 64]);
    bytes
}

fn vk_bytes(ic: usize, keys: usize, groups: &[Vec<u64>]) -> Vec<u8> {
    let mut bytes = Vec::new();
    bytes.extend_from_slice(&[1u8; 64]);
    bytes.extend_from_slice(&[2u8; 128]);
    bytes.extend_from_slice(&[3u8; 128]);
    bytes.extend_from_slice(&[4u8; 128]);
    bytes.extend_from_slice(&(ic as u32).to_be_bytes());
    for k in 0..ic {
        bytes.extend_from_slice(&[20 + k as u8; 64]);
    }
    bytes.extend_from_slice(&(keys as u32).to_be_bytes());
    for k in 0..keys {
        bytes.extend_from_slice(&[40 + k as u8; 256]);
    }
    bytes.extend_from_slice(&(groups.len() as u32).to_be_bytes());
    for group in groups {
        bytes.extend_from_slice(&(group.len() as u32).to_be_bytes());
        for index in group {
            bytes.extend_from_slice(&index.to_be_bytes());
        }
    }
    bytes
}

#[test]
fn test_proof_from_bytes() {
    let bytes = [
        12, 13, 185, 113, 204, 181, 32, 215, 140, 23, 106, 112, 13, 51, 186, 118, 103, 22, 127,
        118, 186, 157, 23, 93, 183, 160, 80, 50, 164, 212, 124, 95, 8, 233, 167, 48, 107, 176,
        228, 108, 238, 254, 124, 226, 207, 72, 172, 95, 254, 156, 203, 154, 129, 148, 124, 96,
        167, 143, 89, 96, 83, 67, 17, 158, 7, 173, 37, 140, 199, 178, 136, 171, 151, 240, 28,
        255, 142, 41, 164, 107, 200, 200, 201, 165, 11, 14, 222, 97, 84, 130, 114, 155, 142,
        220, 125, 202, 20, 177, 223, 211, 160, 187, 66, 211, 84, 133, 152, 2, 83, 51, 76, 237,
        181, 29, 139, 163, 154, 142, 10, 49, 2, 144, 211, 182, 5, 9, 63, 198, 35, 130, 241, 48,
        6, 128, 2, 246, 104, 59, 129, 23, 201, 8, 155, 251, 254, 176, 41, 53, 85, 228, 121, 74,
        202, 201, 159, 240, 36, 7, 5, 59, 4, 23, 113, 24, 119, 118, 222, 218, 118, 232, 133,
        30, 66, 137, 48, 49, 217, 108, 175, 175, 192, 137, 120, 184, 242, 188, 147, 212, 32,
        124, 74, 125, 45, 79, 156, 106, 190, 83, 104, 34, 5, 25, 165, 7, 173, 73, 132, 139, 22,
        178, 148, 5, 111, 92, 87, 31, 2, 122, 228, 144, 3, 196, 117, 5, 17, 228, 246, 211, 220,
        59, 96, 111, 101, 251, 209, 162, 142, 222, 111, 197, 247, 102, 67, 74, 104, 91, 63,
        142, 121, 13, 92, 191, 232, 195, 94, 30, 0, 0, 0, 1, 46, 71, 5, 84, 144, 44, 118, 168,
        148, 30, 15, 4, 229, 145, 155, 94, 235, 167, 2, 206, 113, 71, 3, 179, 41, 95, 166, 223,
        124, 121, 64, 11, 41, 26, 203, 114, 227, 35, 77, 72, 156, 240, 241, 123, 13, 170, 172,
        253, 31, 47, 25, 224, 32, 88, 218, 231, 89, 228, 56, 102, 10, 182, 48, 151, 1, 174,
        234, 110, 183, 215, 224, 79, 199, 78, 132, 214, 253, 81, 159, 28, 221, 228, 126, 195,
        122, 82, 201, 39, 201, 0, 112, 89, 20, 104, 69, 201, 8, 164, 36, 9, 148, 93, 75, 3,
        152, 49, 65, 136, 84, 150, 201, 95, 12, 91, 205, 170, 25, 133, 207, 15, 251, 136, 239,
        50, 32, 186, 121, 113,
    ];

    let proof = GnarkProof::from_bytes(&bytes);
    assert!(proof.is_ok())
}

#[test]
fn proof_fields_stand_at_their_offsets() {
    let bytes = proof_bytes(2);
    assert_eq!(bytes.len(), 256 + 4 + 64 * 2 + 64);
    let proof = GnarkProof::from_bytes(&bytes).unwrap();
    assert_eq!(proof.ar, [1u8; 64]);
    assert_eq!(proof.bs, [2u8; 128]);
    assert_eq!(proof.krs, [3u8; 64]);
    assert_eq!(proof.commitments, vec![[10u8; 64], [11u8; 64]]);
    assert_eq!(proof.commitment_pok, [4u8; 64]);
}

#[test]
fn proof_without_commitments_has_324_bytes() {
    let bytes = proof_bytes(0);
    assert_eq!(bytes.len(), 324);
    let proof = GnarkProof::from_bytes(&bytes).unwrap();
    assert!(proof.commitments.is_empty());
    assert_eq!(proof.commitment_pok, [4u8; 64]);
}

#[test]
fn truncated_proof_is_a_conversion_error() {
    let bytes = proof_bytes(1);
    for len in [0usize, 8, 323, 324, 387] {
        assert_eq!(
            GnarkProof::from_bytes(&bytes[..len]),
            Err(GnarkError::ProofConversionError)
        );
    }
}

#[test]
fn padded_proof_is_a_conversion_error() {
    let mut bytes = proof_bytes(1);
    bytes.push(0);
    assert_eq!(GnarkProof::from_bytes(&bytes), Err(GnarkError::ProofConversionError));
    let mut bytes = proof_bytes(0);
    bytes.extend_from_slice(&[0u8; 64]);
    assert_eq!(GnarkProof::from_bytes(&bytes), Err(GnarkError::ProofConversionError));
}

#[test]
fn proof_that_announces_too_many_commitments_is_a_conversion_error() {
    let mut bytes = proof_bytes(1);
    bytes[256..260].copy_from_slice(&u32::MAX.to_be_bytes());
    assert_eq!(GnarkProof::from_bytes(&bytes), Err(GnarkError::ProofConversionError));
    bytes[256..260].copy_from_slice(&2u32.to_be_bytes());
    assert_eq!(GnarkProof::from_bytes(&bytes), Err(GnarkError::ProofConversionError));
}

#[test]
fn witness_entries_follow_the_header() {
    let mut bytes = vec![0u8, 0, 0, 2, 0, 0, 0, 0, 0, 0, 0, 2];
    bytes.extend_from_slice(&[5u8; 32]);
    bytes.extend_from_slice(&[6u8; 32]);
    let witness = GnarkWitness::from_bytes(&bytes, 2).unwrap();
    assert_eq!(witness.entries, vec![[5u8; 32], [6u8; 32]]);
}

#[test]
fn witness_header_is_not_read() {
    let mut bytes = vec![9u8; 12];
    bytes.extend_from_slice(&[5u8; 32]);
    let witness = GnarkWitness::from_bytes(&bytes, 1).unwrap();
    assert_eq!(witness.entries, vec![[5u8; 32]]);
}

#[test]
fn witness_of_another_length_is_a_parsing_error() {
    let bytes = vec![0u8; 12 + 64];
    assert_eq!(
        GnarkWitness::from_bytes(&bytes, 1),
        Err(GnarkError::PublicWitnessParsingError)
    );
    assert_eq!(
        GnarkWitness::from_bytes(&bytes, 3),
        Err(GnarkError::PublicWitnessParsingError)
    );
    assert_eq!(
        GnarkWitness::from_bytes(&bytes[..75], 2),
        Err(GnarkError::PublicWitnessParsingError)
    );
    assert_eq!(
        GnarkWitness::from_bytes(&[], 0),
        Err(GnarkError::PublicWitnessParsingError)
    );
    assert_eq!(
        GnarkWitness::from_bytes(&bytes, usize::MAX),
        Err(GnarkError::PublicWitnessParsingError)
    );
    assert!(GnarkWitness::from_bytes(&bytes, 2).is_ok());
    assert_eq!(GnarkWitness::from_bytes(&bytes[..12], 0).unwrap().entries.len(), 0);
}

#[test]
fn witness_of_one_input_holds_its_value() {
    let mut bytes = vec![0u8, 0, 0, 1, 0, 0, 0, 0, 0, 0, 0, 1];
    let mut entry = [0u8; 32];
    entry[30] = 0x13;
    entry[31] = 0x88;
    bytes.extend_from_slice(&entry);
    let witness = GnarkWitness::from_bytes(&bytes, 1).unwrap();
    let value = witness.entries[0].iter().fold(0u64, |acc, b| acc * 256 + *b as u64);
    assert_eq!(value, 5000);
}

#[test]
fn key_fields_stand_at_their_offsets() {
    let groups = vec![vec![1u64, 2], vec![]];
    let bytes = vk_bytes(5, 2, &groups);
    let vk = parse_vk(&bytes).unwrap();
    assert_eq!(vk.nr_pubinputs, 2);
    assert_eq!(vk.alpha_g1, [1u8; 64]);
    assert_eq!(vk.beta_g2, [2u8; 128]);
    assert_eq!(vk.gamma_g2, [3u8; 128]);
    assert_eq!(vk.delta_g2, [4u8; 128]);
    assert_eq!(vk.ic.len(), 5);
    assert_eq!(vk.ic[0], [20u8; 64]);
    assert_eq!(vk.ic[4], [24u8; 64]);
    assert_eq!(vk.pedersen_params, vec![[40u8; 256], [41u8; 256]]);
    assert_eq!(vk.committed_indices, groups);
}

#[test]
fn key_without_commitments_parses() {
    let bytes = vk_bytes(2, 0, &[]);
    assert_eq!(bytes.len(), 452 + 128 + 4 + 4);
    let vk = parse_vk(&bytes).unwrap();
    assert_eq!(vk.nr_pubinputs, 1);
    assert!(vk.pedersen_params.is_empty());
    assert!(vk.committed_indices.is_empty());
}

#[test]
fn key_indices_are_64_bit_big_endian() {
    let bytes = vk_bytes(3, 1, &[vec![0x0102030405060708, 1]]);
    let vk = parse_vk(&bytes).unwrap();
    assert_eq!(vk.committed_indices, vec![vec![0x0102030405060708u64, 1]]);
}

#[test]
fn truncated_key_is_a_serialization_error() {
    let bytes = vk_bytes(5, 2, &[vec![1u64, 2], vec![3]]);
    for len in 0..bytes.len() {
        assert_eq!(
            parse_vk(&bytes[..len]),
            Err(GnarkError::ArkworksSerializationError),
            "length {}",
            len
        );
    }
    assert!(parse_vk(&bytes).is_ok());
}

#[test]
fn padded_key_is_a_serialization_error() {
    let mut bytes = vk_bytes(5, 2, &[vec![1u64, 2], vec![3]]);
    bytes.push(0);
    assert_eq!(parse_vk(&bytes), Err(GnarkError::ArkworksSerializationError));
}

#[test]
fn key_with_too_short_an_ic_vector_is_incompatible() {
    let bytes = vk_bytes(2, 2, &[vec![], vec![]]);
    assert_eq!(parse_vk(&bytes), Err(GnarkError::IncompatibleVerifyingKeyWithNrPublicInputs));
    let bytes = vk_bytes(0, 0, &[]);
    assert_eq!(parse_vk(&bytes), Err(GnarkError::IncompatibleVerifyingKeyWithNrPublicInputs));
    let bytes = vk_bytes(3, 2, &[vec![], vec![]]);
    assert_eq!(parse_vk(&bytes).unwrap().nr_pubinputs, 0);
}

#[test]
fn key_that_announces_too_much_is_a_serialization_error() {
    let mut bytes = vk_bytes(2, 0, &[]);
    bytes[448..452].copy_from_slice(&u32::MAX.to_be_bytes());
    assert_eq!(parse_vk(&bytes), Err(GnarkError::ArkworksSerializationError));
    let mut bytes = vk_bytes(2, 1, &[vec![1]]);
    let at = bytes.len() - 12;
    bytes[at..at + 4].copy_from_slice(&u32::MAX.to_be_bytes());
    assert_eq!(parse_vk(&bytes), Err(GnarkError::ArkworksSerializationError));
}

#[test]
fn error_codes_are_the_stable_ones() {
    let all = [
        GnarkError::IncompatibleVerifyingKeyWithNrPublicInputs,
        GnarkError::ProofVerificationFailed,
        GnarkError::PreparingInputsG1AdditionFailed,
        GnarkError::PreparingInputsG1MulFailed,
        GnarkError::InvalidG1Length,
        GnarkError::InvalidG2Length,
        GnarkError::InvalidPublicInputsLength,
        GnarkError::DecompressingG1Failed,
        GnarkError::DecompressingG2Failed,
        GnarkError::PublicInputGreaterThanFieldSize,
        GnarkError::ArkworksSerializationError,
        GnarkError::ProofConversionError,
        GnarkError::SolanaBN254Error,
        GnarkError::HashError(HashFailure::DstTooLong),
        GnarkError::PedersenVerificationError(PedersenFailure::SharedG2Mismatch),
        GnarkError::PublicWitnessParsingError,
    ];
    for (expected, error) in all.iter().enumerate() {
        assert_eq!(error.code(), expected as u32);
        assert_eq!(u32::from(*error), expected as u32);
    }
    assert_eq!(GnarkError::HashError(HashFailure::LengthTooLarge).code(), 13);
    assert_eq!(
        GnarkError::PedersenVerificationError(PedersenFailure::CommitmentsLenMismatch).code(),
        14
    );
    assert_eq!(
        GnarkError::PedersenVerificationError(PedersenFailure::PedersenPairingFailed).code(),
        14
    );
}
