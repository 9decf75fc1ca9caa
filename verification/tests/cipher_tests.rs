use rpm::crypto::CryptoManager;
use rpm::crypto::SecureKey;
use rpm::errors::RpmError;

fn mgr() -> CryptoManager {
    CryptoManager::new().unwrap()
}

#[test]
fn encrypt_decrypt_round_trip() {
    let crypto = mgr();
    let key = [7u8; 32];
    let (ct, nonce) = crypto.encrypt_password("s3cret! пароль 密码", &key).unwrap();
    assert_eq!(nonce.len(), 12);
    let back = crypto.decrypt_password(&ct, &nonce, &key).unwrap();
    assert_eq!(back, "s3cret! пароль 密码");
}

#[test]
fn encrypt_data_round_trip() {
    let crypto = mgr();
    let key = [1u8; 32];
    let data = vec![0u8, 255, 3, 9, 128];
    let (ct, nonce) = crypto.encrypt_data(&data, &key).unwrap();
    assert_eq!(ct.len(), data.len() + 16);
    let back = crypto.decrypt_data(&ct, &nonce, &key).unwrap();
    assert_eq!(back, data);
}

#[test]
fn wrong_key_is_crypto_error() {
    let crypto = mgr();
    let k1 = [7u8; 32];
    let k2 = [8u8; 32];
    let (ct, nonce) = crypto.encrypt_password("secret", &k1).unwrap();
    let r = crypto.decrypt_password(&ct, &nonce, &k2);
    assert!(matches!(r, Err(RpmError::Crypto(_))));
}

#[test]
fn tampering_any_single_bit_fails() {
    let crypto = mgr();
    let key = [9u8; 32];
    let (ct, nonce) = crypto.encrypt_password("tamper me", &key).unwrap();
    for byte in 0..ct.len() {
        for bit in 0..8 {
            let mut bad = ct.clone();
            bad[byte] ^= 1u8 << bit;
            let r = crypto.decrypt_password(&bad, &nonce, &key);
            assert!(matches!(r, Err(RpmError::Crypto(_))));
        }
    }
    for byte in 0..nonce.len() {
        for bit in 0..8 {
            let mut bad = nonce.clone();
            bad[byte] ^= 1u8 << bit;
            let r = crypto.decrypt_password(&ct, &bad, &key);
            assert!(matches!(r, Err(RpmError::Crypto(_))));
        }
    }
}

#[test]
fn short_key_rejected_before_cipher() {
    let crypto = mgr();
    let key = [7u8; 31];
    assert!(matches!(
        crypto.encrypt_password("x", &key),
        Err(RpmError::Crypto(_))
    ));
    assert!(matches!(
        crypto.decrypt_password(&[0u8; 20], &[0u8; 12], &key),
        Err(RpmError::Crypto(_))
    ));
}

#[test]
fn bad_nonce_length_rejected() {
    let crypto = mgr();
    let key = [7u8; 32];
    let r = crypto.decrypt_password(&[0u8; 20], &[0u8; 11], &key);
    assert!(matches!(r, Err(RpmError::Crypto(_))));
}

#[test]
fn token_is_64_lowercase_hex_digits() {
    let crypto = mgr();
    let t1 = crypto.generate_token().unwrap();
    let t2 = crypto.generate_token().unwrap();
    assert_eq!(t1.len(), 64);
    assert!(t1.chars().all(|c| c.is_ascii_hexdigit() && !c.is_ascii_uppercase()));
    assert_ne!(t1, t2);
}

#[test]
fn password_hash_verifies_and_rejects() {
    let crypto = mgr();
    let hash = crypto.hash_password("correct").unwrap();
    assert_eq!(crypto.verify_password("correct", &hash).unwrap(), true);
    assert_eq!(crypto.verify_password("wrong", &hash).unwrap(), false);
    let again = crypto.hash_password("correct").unwrap();
    assert_ne!(hash, again);
    assert!(matches!(
        crypto.verify_password("x", "not a phc string"),
        Err(RpmError::Crypto(_))
    ));
}

#[test]
fn secure_key_holds_and_wipes() {
    let mut k = SecureKey::new(vec![1, 2, 3, 4]);
    assert_eq!(k.as_slice(), &[1, 2, 3, 4]);
    k.wipe();
    assert!(k.as_slice().is_empty());
}
