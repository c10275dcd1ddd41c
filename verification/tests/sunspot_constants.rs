use zaffre::encoding::{PUBLIC_INPUT_BYTES, PUBLIC_WITNESS_SIZE};
use zaffre::sunspot::{ownership_proof_instruction, SunspotError, GROTH16_PROOF_SIZE};

#[test]
fn test_constants() {
    assert_eq!(PUBLIC_INPUT_BYTES, 160);
    assert_eq!(PUBLIC_WITNESS_SIZE, 5132);
    assert_eq!(GROTH16_PROOF_SIZE, 388);
}

#[test]
fn instruction_is_the_proof_then_the_witness() {
    let proof = vec![1u8; 388];
    let witness = vec![2u8; 5132];
    let data = ownership_proof_instruction(&proof, &witness).unwrap();
    assert_eq!(data.len(), 5520);
    assert_eq!(&data[..388], &proof[..]);
    assert_eq!(&data[388..], &witness[..]);
}

#[test]
fn instruction_refuses_wrong_lengths_the_proof_first() {
    assert_eq!(
        ownership_proof_instruction(&[0u8; 387], &[0u8; 5132]),
        Err(SunspotError::InvalidProofLength)
    );
    assert_eq!(
        ownership_proof_instruction(&[0u8; 388], &[0u8; 5131]),
        Err(SunspotError::InvalidPublicWitnessLength)
    );
    assert_eq!(
        ownership_proof_instruction(&[0u8; 8], &[0u8; 8]),
        Err(SunspotError::InvalidProofLength)
    );
}
