use secure_delete::crypto::{aead_decrypt, aead_encrypt, derive_kek, random_bytes, CryptoError};

#[test]
fn aead_roundtrip_and_tamper() {
    let key = [7u8; 32];
    let nonce = [1u8; 12];
    let ct = aead_encrypt(&key, &nonce, b"attack at dawn", b"aad").unwrap();
    assert_eq!(ct.len(), 14 + 16);
    assert_ne!(&ct[..14], b"attack at dawn");
    assert_eq!(aead_decrypt(&key, &nonce, &ct, b"aad").unwrap(), b"attack at dawn");
    assert_eq!(aead_decrypt(&key, &nonce, &ct, b"other").unwrap_err(), CryptoError::Decrypt);
    assert_eq!(aead_decrypt(&[8u8; 32], &nonce, &ct, b"aad").unwrap_err(), CryptoError::Decrypt);
    assert_eq!(aead_decrypt(&key, &nonce, &ct[..10], b"aad").unwrap_err(), CryptoError::Decrypt);
}

#[test]
fn kdf_is_deterministic_and_checks_inputs() {
    let a = derive_kek(b"pw", b"saltsalt", 8, 1, 1).unwrap();
    let b = derive_kek(b"pw", b"saltsalt", 8, 1, 1).unwrap();
    assert_eq!(a, b);
    assert_eq!(a.len(), 32);
    assert_ne!(a, derive_kek(b"pw2", b"saltsalt", 8, 1, 1).unwrap());
    assert_eq!(derive_kek(b"pw", b"short", 8, 1, 1).unwrap_err(), CryptoError::KdfFailed);
    assert_eq!(derive_kek(b"pw", b"saltsalt", 7, 1, 1).unwrap_err(), CryptoError::KdfParams);
    assert_eq!(derive_kek(b"pw", b"saltsalt", 8, 0, 1).unwrap_err(), CryptoError::KdfParams);
    assert_eq!(derive_kek(b"pw", b"saltsalt", 8, 1, 2).unwrap_err(), CryptoError::KdfParams);
    assert_eq!(derive_kek(b"pw", b"saltsalt", 8, 1, 0x1FFF_FFFF).unwrap_err(), CryptoError::KdfParams);
}

#[test]
fn random_bytes_have_the_asked_length() {
    let a = random_bytes(32).unwrap();
    let b = random_bytes(32).unwrap();
    assert_eq!(a.len(), 32);
    assert_ne!(a, b);
    assert!(random_bytes(0).unwrap().is_empty());
}
