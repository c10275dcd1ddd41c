use zaffre::types::{Commitment, Nullifier, Secret};

#[test]
fn test_secret_from_bytes() {
    let bytes = [42u8; 32];
    let secret = Secret::from_bytes(bytes);
    assert_eq!(secret.as_bytes(), &bytes);
}

#[test]
fn types_test_secret_generation() {
    let s1 = Secret::generate().unwrap();
    let s2 = Secret::generate().unwrap();
    assert_ne!(s1.as_bytes(), s2.as_bytes());
}

#[test]
fn secret_zeroize_clears_every_byte() {
    let mut secret = Secret::from_bytes([9u8; 32]);
    secret.zeroize();
    assert_eq!(secret.as_bytes(), &[0u8; 32]);
}

#[test]
fn commitment_and_nullifier_keep_their_bytes() {
    let c = Commitment::from_bytes([1u8; 32]);
    let n = Nullifier::from_bytes([2u8; 32]);
    assert_eq!(c.as_bytes(), &[1u8; 32]);
    assert_eq!(n.as_bytes(), &[2u8; 32]);
    assert_eq!(c.as_ref(), &[1u8; 32][..]);
    assert_eq!(n.as_ref(), &[2u8; 32][..]);
    assert_eq!(c, Commitment([1u8; 32]));
    assert_ne!(n, Nullifier([3u8; 32]));
}

#[test]
fn drawn_bytes_become_the_secret_as_they_are() {
    let mut bytes = [0u8; 32];
    for (i, b) in bytes.iter_mut().enumerate() {
        *b = 200u8.wrapping_add(i as u8);
    }
    let secret = Secret::from_random_source(Ok(bytes)).unwrap();
    assert_eq!(secret.as_bytes(), &bytes);
}

#[test]
fn failed_draw_gives_no_secret() {
    assert!(Secret::from_random_source(Err(getrandom::Error::UNSUPPORTED)).is_none());
    assert!(Secret::from_random_source(Err(getrandom::Error::UNEXPECTED)).is_none());
}
