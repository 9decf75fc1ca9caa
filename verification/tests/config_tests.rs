use rpm::config::Config;
use rpm::config::DirectoryConfig;
use rpm::crypto::CryptoManager;
use rpm::errors::RpmError;
use rpm::key_derivation::derive_key;

#[test]
fn default_config_values() {
    let c = Config::default();
    assert_eq!(c.server_port, 8765);
    assert_eq!(c.server_host, "127.0.0.1");
    assert!(c.master_password_hash.is_none());
    assert_eq!(c.encryption_algorithm, "aes256-gcm");
    assert!(c.passwords_directory.is_none());
    assert!(c.encryption_key_salt.is_none());
    assert_eq!(c.clipboard_timeout_seconds, 30);
    assert_eq!(c.theme, "textual_dark");
    assert_eq!(c.language, "en");
}

#[test]
fn provision_sets_both_credentials_at_once() {
    let c = DirectoryConfig::provision("master pw").unwrap();
    assert!(c.has_master_password());
    let crypto = CryptoManager::new().unwrap();
    let hash = c.master_password_hash.clone().unwrap();
    assert_eq!(crypto.verify_password("master pw", &hash).unwrap(), true);
    assert_eq!(crypto.verify_password("other", &hash).unwrap(), false);
    let salt = c.encryption_key_salt.clone().unwrap();
    let raw = DirectoryConfig::decode_salt(&salt).unwrap();
    assert_eq!(raw.len(), 32);
}

#[test]
fn unlock_accepts_correct_password_and_matches_derivation() {
    let c = DirectoryConfig::provision("master pw").unwrap();
    let k1 = c.unlock("master pw").unwrap();
    let k2 = c.unlock("master pw").unwrap();
    assert_eq!(k1.len(), 32);
    assert_eq!(k1, k2);
    let raw = DirectoryConfig::decode_salt(c.encryption_key_salt.as_ref().unwrap()).unwrap();
    let direct = derive_key("master pw", Some(&raw)).unwrap();
    assert_eq!(k1, direct);
}

#[test]
fn unlock_rejects_wrong_password() {
    let c = DirectoryConfig::provision("master pw").unwrap();
    assert!(matches!(
        c.unlock("wrong"),
        Err(RpmError::AuthenticationFailed)
    ));
}

#[test]
fn unlock_of_unprovisioned_directory_fails() {
    let c = DirectoryConfig {
        master_password_hash: None,
        encryption_key_salt: None,
    };
    assert!(!c.has_master_password());
    assert!(matches!(
        c.unlock("anything"),
        Err(RpmError::AuthenticationFailed)
    ));
}

#[test]
fn salt_decoding_accepts_both_paddings() {
    let raw = [13u8; 32];
    let unpadded =
        base64::Engine::encode(&base64::engine::general_purpose::STANDARD_NO_PAD, raw);
    let padded = base64::Engine::encode(&base64::engine::general_purpose::STANDARD, raw);
    assert_eq!(DirectoryConfig::decode_salt(&unpadded).unwrap(), raw.to_vec());
    assert_eq!(DirectoryConfig::decode_salt(&padded).unwrap(), raw.to_vec());
    assert!(matches!(
        DirectoryConfig::decode_salt("!!!not base64!!!"),
        Err(RpmError::Crypto(_))
    ));
}

#[test]
fn legacy_padded_salt_still_unlocks() {
    let mut c = DirectoryConfig::provision("master pw").unwrap();
    let raw =
        DirectoryConfig::decode_salt(c.encryption_key_salt.as_ref().unwrap()).unwrap();
    let k1 = c.unlock("master pw").unwrap();
    c.encryption_key_salt = Some(base64::Engine::encode(
        &base64::engine::general_purpose::STANDARD,
        &raw,
    ));
    let k2 = c.unlock("master pw").unwrap();
    assert_eq!(k1, k2);
}

#[test]
fn hex_rendering_matches_reference() {
    let data = [0u8, 1, 15, 16, 171, 255];
    let ours = rpm::hexstr::hex_encode(&data);
    assert_eq!(String::from_utf8(ours).unwrap(), hex::encode(data));
}
