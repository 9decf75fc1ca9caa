use rpm::config::Config;
use rpm::crypto::CryptoManager;
use rpm::errors::RpmError;
use rpm::models::DefFile;
use rpm::models::DefFileEntry;
use rpm::models::PasswordFile;
use rpm::storage::PasswordStorage;

fn storage() -> PasswordStorage {
    let mut config = Config::default();
    config.passwords_directory = Some("vault".to_owned());
    PasswordStorage::new(&config, CryptoManager::new().unwrap())
}

const KEY: [u8; 32] = [42u8; 32];

#[test]
fn missing_index_file_is_empty_index() {
    let st = storage();
    let def = st.load_def_file(None, &KEY).unwrap();
    assert_eq!(def.entries.len(), 0);
}

#[test]
fn index_round_trip_keeps_both_entries() {
    let st = storage();
    let mut def = DefFile { entries: Vec::new() };
    let id1 = st.add_entry(&mut def, "Gmail", &KEY).unwrap();
    let id2 = st.add_entry(&mut def, "Bank", &KEY).unwrap();
    assert_ne!(id1, id2);
    let saved = st.save_def_file(&def, &KEY).unwrap();
    let reloaded = st.load_def_file(Some(&saved), &KEY).unwrap();
    let names = st.list_decrypted_names(&reloaded, &KEY).unwrap();
    assert_eq!(names.len(), 2);
    let mut pairs: Vec<(String, String)> = names;
    pairs.sort();
    let mut expected = vec![(id1, "Gmail".to_owned()), (id2, "Bank".to_owned())];
    expected.sort();
    assert_eq!(pairs, expected);
}

#[test]
fn lifecycle_add_find_remove() {
    let st = storage();
    let mut def = DefFile { entries: Vec::new() };
    let id = st.add_entry(&mut def, "Gmail", &KEY).unwrap();
    assert!(id.ends_with(".pwd"));
    assert_eq!(id.len(), 40);
    let found = st.find_filename_by_name(&def, "Gmail", &KEY).unwrap();
    assert_eq!(found, Some(id.clone()));
    st.delete_entry(&mut def, &id);
    let gone = st.find_filename_by_name(&def, "Gmail", &KEY).unwrap();
    assert_eq!(gone, None);
    assert_eq!(def.entries.len(), 0);
}

#[test]
fn duplicate_names_resolve_to_first_inserted() {
    let st = storage();
    let mut def = DefFile { entries: Vec::new() };
    let id1 = st.add_entry(&mut def, "Gmail", &KEY).unwrap();
    let _id2 = st.add_entry(&mut def, "Gmail", &KEY).unwrap();
    let found = st.find_filename_by_name(&def, "Gmail", &KEY).unwrap();
    assert_eq!(found, Some(id1));
}

#[test]
fn rename_entry_changes_lookup() {
    let st = storage();
    let mut def = DefFile { entries: Vec::new() };
    let id = st.add_entry(&mut def, "Gmail", &KEY).unwrap();
    st.update_entry(&mut def, &id, "Mail", &KEY).unwrap();
    assert_eq!(st.find_filename_by_name(&def, "Gmail", &KEY).unwrap(), None);
    assert_eq!(
        st.find_filename_by_name(&def, "Mail", &KEY).unwrap(),
        Some(id)
    );
}

#[test]
fn rename_of_absent_id_is_a_no_op() {
    let st = storage();
    let mut def = DefFile { entries: Vec::new() };
    let _id = st.add_entry(&mut def, "Gmail", &KEY).unwrap();
    st.update_entry(&mut def, "no-such-id.pwd", "Mail", &KEY).unwrap();
    assert_eq!(
        st.find_filename_by_name(&def, "Gmail", &KEY).unwrap().is_some(),
        true
    );
    assert_eq!(st.find_filename_by_name(&def, "Mail", &KEY).unwrap(), None);
}

#[test]
fn index_under_wrong_key_fails() {
    let st = storage();
    let mut def = DefFile { entries: Vec::new() };
    st.add_entry(&mut def, "Gmail", &KEY).unwrap();
    let saved = st.save_def_file(&def, &KEY).unwrap();
    let other = [1u8; 32];
    let r = st.load_def_file(Some(&saved), &other);
    assert!(matches!(r, Err(RpmError::Crypto(_))));
}

#[test]
fn short_index_file_is_rejected() {
    let st = storage();
    let r = st.load_def_file(Some(&vec![1u8; 11]), &KEY);
    assert!(matches!(r, Err(RpmError::Crypto(_))));
}

#[test]
fn tampered_index_byte_is_rejected() {
    let st = storage();
    let mut def = DefFile { entries: Vec::new() };
    st.add_entry(&mut def, "Gmail", &KEY).unwrap();
    let mut saved = st.save_def_file(&def, &KEY).unwrap();
    let last = saved.len() - 1;
    saved[last] ^= 1;
    let r = st.load_def_file(Some(&saved), &KEY);
    assert!(matches!(r, Err(RpmError::Crypto(_))));
}

#[test]
fn index_serialization_matches_reference_json() {
    let e = DefFileEntry {
        encrypted_filename: "abc.pwd".to_owned(),
        encrypted_name: "QUJD".to_owned(),
        nonce: "Tk9O".to_owned(),
    };
    let def = DefFile { entries: vec![e] };
    let ours = rpm::jsoncodec::serialize_def_file(&def);
    let mut entry = serde_json::Map::new();
    entry.insert(
        "encrypted_filename".to_owned(),
        serde_json::Value::String("abc.pwd".to_owned()),
    );
    entry.insert(
        "encrypted_name".to_owned(),
        serde_json::Value::String("QUJD".to_owned()),
    );
    entry.insert(
        "nonce".to_owned(),
        serde_json::Value::String("Tk9O".to_owned()),
    );
    let mut top = serde_json::Map::new();
    top.insert(
        "entries".to_owned(),
        serde_json::Value::Array(vec![serde_json::Value::Object(entry)]),
    );
    let reference = serde_json::to_string(&serde_json::Value::Object(top)).unwrap();
    assert_eq!(String::from_utf8(ours).unwrap(), reference);
}

#[test]
fn index_parse_rejects_garbage() {
    let r = rpm::jsoncodec::parse_def_file(b"{\"entries\":");
    assert!(matches!(r, Err(RpmError::Serialization(_))));
    let r2 = rpm::jsoncodec::parse_def_file(b"hello");
    assert!(matches!(r2, Err(RpmError::Serialization(_))));
}

#[test]
fn record_round_trip_and_tampering() {
    let st = storage();
    let (fname, bytes) = st.save_password_file("hunter2", &KEY).unwrap();
    assert!(fname.ends_with(".pwd"));
    let back = st.load_password_file(&bytes, &KEY).unwrap();
    assert_eq!(back, "hunter2");
    let other = [3u8; 32];
    assert!(matches!(
        st.load_password_file(&bytes, &other),
        Err(RpmError::Crypto(_))
    ));
    let updated = st.update_password_file("hunter3", &KEY).unwrap();
    assert_eq!(st.load_password_file(&updated, &KEY).unwrap(), "hunter3");
    assert!(matches!(
        st.load_password_file(b"not json", &KEY),
        Err(RpmError::Serialization(_))
    ));
}

#[test]
fn record_serialization_matches_reference_json() {
    let p = PasswordFile {
        encrypted_password: "QUJD".to_owned(),
        nonce: "Tk9O".to_owned(),
    };
    let ours = rpm::jsoncodec::serialize_password_file(&p);
    let mut top = serde_json::Map::new();
    top.insert(
        "encrypted_password".to_owned(),
        serde_json::Value::String("QUJD".to_owned()),
    );
    top.insert(
        "nonce".to_owned(),
        serde_json::Value::String("Tk9O".to_owned()),
    );
    let reference = serde_json::to_string(&serde_json::Value::Object(top)).unwrap();
    assert_eq!(String::from_utf8(ours).unwrap(), reference);
}

#[test]
fn filename_crypto_round_trip() {
    let st = storage();
    let (enc, nonce) = st.encrypt_filename("Видео 账户 name", &KEY).unwrap();
    let back = st.decrypt_filename(&enc, &nonce, &KEY).unwrap();
    assert_eq!(back, "Видео 账户 name");
    assert!(matches!(
        st.decrypt_filename("*bad*", &nonce, &KEY),
        Err(RpmError::Crypto(_))
    ));
}

#[test]
fn paths_join_the_vault_directory() {
    let st = storage();
    assert_eq!(st.def_file_path(), "vault/def");
    assert_eq!(st.password_file_path("x.pwd"), "vault/x.pwd");
}

#[test]
fn empty_index_round_trips() {
    let st = storage();
    let def = DefFile { entries: Vec::new() };
    let saved = st.save_def_file(&def, &KEY).unwrap();
    let reloaded = st.load_def_file(Some(&saved), &KEY).unwrap();
    assert_eq!(reloaded.entries.len(), 0);
    assert!(st.list_decrypted_names(&reloaded, &KEY).unwrap().is_empty());
}

#[test]
fn empty_secret_round_trips() {
    let st = storage();
    let (_fname, bytes) = st.save_password_file("", &KEY).unwrap();
    assert_eq!(st.load_password_file(&bytes, &KEY).unwrap(), "");
}

#[test]
fn filename_under_wrong_key_fails() {
    let st = storage();
    let (enc, nonce) = st.encrypt_filename("Gmail", &KEY).unwrap();
    let other = [9u8; 32];
    assert!(matches!(
        st.decrypt_filename(&enc, &nonce, &other),
        Err(RpmError::Crypto(_))
    ));
}

#[test]
fn wf_check_accepts_engine_entries_and_rejects_quotes() {
    let st = storage();
    let mut def = DefFile { entries: Vec::new() };
    st.add_entry(&mut def, "Gmail", &KEY).unwrap();
    assert!(rpm::models::def_is_wf(&def));
    let bad = DefFile {
        entries: vec![DefFileEntry {
            encrypted_filename: "a\"b.pwd".to_owned(),
            encrypted_name: "QUJD".to_owned(),
            nonce: "Tk9O".to_owned(),
        }],
    };
    assert!(!rpm::models::def_is_wf(&bad));
}
