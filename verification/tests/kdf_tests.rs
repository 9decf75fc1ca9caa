use rpm::errors::RpmError;
use rpm::key_derivation::derive_key;

#[test]
fn derive_key_is_deterministic() {
    let salt = [5u8; 16];
    let k1 = derive_key("master", Some(&salt)).unwrap();
    let k2 = derive_key("master", Some(&salt)).unwrap();
    assert_eq!(k1.len(), 32);
    assert_eq!(k1, k2);
}

#[test]
fn different_salts_give_different_keys() {
    let s1 = [5u8; 16];
    let s2 = [6u8; 16];
    let k1 = derive_key("master", Some(&s1)).unwrap();
    let k2 = derive_key("master", Some(&s2)).unwrap();
    assert_ne!(k1, k2);
}

#[test]
fn different_passwords_give_different_keys() {
    let salt = [5u8; 16];
    let k1 = derive_key("master", Some(&salt)).unwrap();
    let k2 = derive_key("masteR", Some(&salt)).unwrap();
    assert_ne!(k1, k2);
}

#[test]
fn salt_length_limits() {
    assert!(matches!(
        derive_key("pw", Some(&[1u8; 2])),
        Err(RpmError::Crypto(_))
    ));
    assert!(matches!(
        derive_key("pw", Some(&[1u8; 5])),
        Err(RpmError::Crypto(_))
    ));
    assert_eq!(derive_key("pw", Some(&[1u8; 6])).unwrap().len(), 32);
    assert_eq!(derive_key("pw", Some(&[1u8; 48])).unwrap().len(), 32);
    assert!(matches!(
        derive_key("pw", Some(&[1u8; 49])),
        Err(RpmError::Crypto(_))
    ));
}

#[test]
fn generated_salt_when_none_supplied() {
    let k = derive_key("pw", None).unwrap();
    assert_eq!(k.len(), 32);
}

#[test]
fn matches_reference_argon2_derivation() {
    // The same computation the engine performs, done directly against the
    // argon2 crate: the salt bytes are rendered as unpadded base64 and the
    // rendering's ASCII bytes are the effective salt.
    let salt = [9u8; 16];
    let rendered = base64::Engine::encode(
        &base64::engine::general_purpose::STANDARD_NO_PAD,
        salt,
    );
    let mut expected = [0u8; 32];
    argon2::Argon2::default()
        .hash_password_into("master".as_bytes(), rendered.as_bytes(), &mut expected)
        .unwrap();
    let got = derive_key("master", Some(&salt)).unwrap();
    assert_eq!(got, expected.to_vec());
}
