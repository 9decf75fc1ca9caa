use crate::b64::b64_core;
use crate::b64::b64_decode_std;
use crate::b64::b64_decode_std_no_pad;
use crate::b64::b64_encode_std_no_pad;
use crate::b64::b64_padded;
use crate::crypto::phc_verifies;
use crate::crypto::phc_wellformed;
use crate::crypto::random_bytes;
use crate::crypto::CryptoManager;
use crate::errors::RpmError;
use crate::errors::RpmResult;
use crate::key_derivation::argon2id_key_of;
use crate::key_derivation::derive_key;
use crate::key_derivation::effective_salt;
use vstd::prelude::*;
use vstd::string::StringExecFns;
use vstd::utf8::encode_utf8;

verus! {

/// Relies on dirs' `config_dir`: the platform's configuration directory, if
/// the environment defines one.
#[verifier::external_body]
fn os_config_dir() -> (r: Option<String>) {
    dirs::config_dir().map(|p| p.to_string_lossy().into_owned())
}

/// Relies on dirs' `data_dir`: the platform's data directory, if the
/// environment defines one.
#[verifier::external_body]
fn os_data_dir() -> (r: Option<String>) {
    dirs::data_dir().map(|p| p.to_string_lossy().into_owned())
}

pub fn default_theme() -> (r: String)
    ensures
        r@ == "textual_dark"@,
{
    "textual_dark".to_owned()
}

pub fn default_clipboard_timeout() -> (r: u64)
    ensures
        r == 30,
{
    30
}

pub fn default_language() -> (r: String)
    ensures
        r@ == "en"@,
{
    "en".to_owned()
}

/// Application-level configuration. The vault engine reads only the
/// passwords directory from it; the rest belongs to the surrounding
/// application.
#[derive(Debug, Clone)]
pub struct Config {
    pub server_port: u16,
    pub server_host: String,
    pub master_password_hash: Option<String>,
    pub encryption_algorithm: String,
    pub passwords_directory: Option<String>,
    pub encryption_key_salt: Option<String>,
    pub clipboard_timeout_seconds: u64,
    pub theme: String,
    pub language: String,
}

impl Default for Config {
    fn default() -> (r: Self)
        ensures
            r.server_port == 8765,
            r.server_host@ == "127.0.0.1"@,
            r.master_password_hash is None,
            r.encryption_algorithm@ == "aes256-gcm"@,
            r.passwords_directory is None,
            r.encryption_key_salt is None,
            r.clipboard_timeout_seconds == 30,
            r.theme@ == "textual_dark"@,
            r.language@ == "en"@,
    {
        Config {
            server_port: 8765,
            server_host: "127.0.0.1".to_owned(),
            master_password_hash: None,
            encryption_algorithm: "aes256-gcm".to_owned(),
            passwords_directory: None,
            encryption_key_salt: None,
            clipboard_timeout_seconds: default_clipboard_timeout(),
            theme: default_theme(),
            language: default_language(),
        }
    }
}

impl Config {
    /// The path of the application configuration file, under the platform's
    /// configuration directory.
    pub fn config_file_path(&self) -> (r: RpmResult<String>)
        ensures
            r is Ok,
            r matches Ok(s) ==> (exists|base: Seq<char>| s@ == base + "/rpm/config.toml"@),
    {
        let base = match os_config_dir() {
            Some(b) => b,
            None => ".".to_owned(),
        };
        Ok(base.concat("/rpm/config.toml"))
    }

    /// The directory holding the vault, from the configuration where set,
    /// otherwise under the platform's data directory.
    pub fn passwords_directory_path(&self) -> (r: String)
        ensures
            self.passwords_directory matches Some(d) ==> r@ == d@,
    {
        match &self.passwords_directory {
            Some(d) => d.clone(),
            None => {
                let base = match os_data_dir() {
                    Some(b) => b,
                    None => ".".to_owned(),
                };
                base.concat("/rpm/passwords")
            },
        }
    }
}

/// The per-directory credential record: the master password hash for
/// authentication and the key-derivation salt, both set together at
/// provisioning. Unprovisioned until then.
#[derive(Debug, Clone)]
pub struct DirectoryConfig {
    pub master_password_hash: Option<String>,
    pub encryption_key_salt: Option<String>,
}

/// The stored salt string decodes to these raw bytes: the canonical form is
/// unpadded base64, and the padded form is accepted on read for
/// compatibility.
pub open spec fn salt_decodes_to(s: Seq<char>, raw: Seq<u8>) -> bool {
    encode_utf8(s) == b64_core(raw) || encode_utf8(s) == b64_padded(raw)
}

impl DirectoryConfig {
    /// Whether a master password has been set: callers choose between the
    /// create flow and the unlock flow by this, freshly on every open.
    pub fn has_master_password(&self) -> (r: bool)
        ensures
            r == (self.master_password_hash is Some),
    {
        self.master_password_hash.is_some()
    }

    /// Provision a vault directory in one step: hash the master password for
    /// authentication and generate an independent random 32-byte
    /// key-derivation salt, stored in its canonical unpadded base64 form.
    /// Writing both fields together keeps authentication and decryption
    /// capability in step.
    pub fn provision(password: &str) -> (r: RpmResult<DirectoryConfig>)
        ensures
            r matches Ok(c) ==> (c.master_password_hash matches Some(h) && phc_wellformed(h@)
                && phc_verifies(encode_utf8(password@), h@)),
            r matches Ok(c) ==> (c.encryption_key_salt matches Some(s) && (
            exists|raw: Seq<u8>| raw.len() == 32 && encode_utf8(s@) == b64_core(raw))),
            r matches Err(e) ==> e is Crypto,
    {
        let crypto = match CryptoManager::new() {
            Ok(c) => c,
            Err(_) => {
                return Err(RpmError::Crypto("cipher unavailable".to_owned()));
            },
        };
        let hash = match crypto.hash_password(password) {
            Ok(h) => h,
            Err(e) => {
                return Err(e);
            },
        };
        let raw_salt = random_bytes(32);
        let salt = b64_encode_std_no_pad(raw_salt.as_slice());
        Ok(DirectoryConfig { master_password_hash: Some(hash), encryption_key_salt: Some(salt) })
    }

    /// Decode the stored key-derivation salt, accepting the canonical
    /// unpadded form first and the padded form for compatibility.
    pub fn decode_salt(salt: &str) -> (r: RpmResult<Vec<u8>>)
        ensures
            r matches Ok(v) ==> salt_decodes_to(salt@, v@),
            r matches Err(e) ==> (e is Crypto && !(exists|raw: Seq<u8>| salt_decodes_to(
                salt@,
                raw,
            ))),
    {
        match b64_decode_std_no_pad(salt) {
            Ok(v) => Ok(v),
            Err(_) => {
                match b64_decode_std(salt) {
                    Ok(v) => Ok(v),
                    Err(_) => Err(RpmError::Crypto("Invalid salt".to_owned())),
                }
            },
        }
    }

    /// Authenticate against the stored hash, then derive the master key with
    /// the stored salt. A wrong password is an authentication failure; a
    /// missing hash, missing or malformed salt is reported as the matching
    /// error kind; success returns the 32-byte master key.
    pub fn unlock(&self, password: &str) -> (r: RpmResult<Vec<u8>>)
        ensures
            r matches Ok(k) ==> (self.master_password_hash matches Some(h) && phc_wellformed(h@)
                && phc_verifies(encode_utf8(password@), h@)),
            r matches Ok(k) ==> (self.encryption_key_salt matches Some(s) && (
            exists|raw: Seq<u8>|
                salt_decodes_to(s@, raw) && k@ == argon2id_key_of(
                    encode_utf8(password@),
                    effective_salt(raw),
                ))),
            r matches Ok(k) ==> k@.len() == 32,
            self.master_password_hash is None ==> (r matches Err(e) && e is AuthenticationFailed),
            (self.master_password_hash matches Some(h) && phc_wellformed(h@) && !phc_verifies(
                encode_utf8(password@),
                h@,
            )) ==> (r matches Err(e) && e is AuthenticationFailed),
            self.master_password_hash matches Some(h) ==> (self.encryption_key_salt matches Some(
                s,
            ) ==> ((phc_wellformed(h@) && phc_verifies(encode_utf8(password@), h@) && (
            exists|raw: Seq<u8>| salt_decodes_to(s@, raw) && 6 <= raw.len() <= 48)
                && encode_utf8(password@).len() <= 0xFFFF_FFFF) ==> r is Ok)),
    {
        let hash = match &self.master_password_hash {
            Some(h) => h,
            None => {
                return Err(RpmError::AuthenticationFailed);
            },
        };
        let crypto = match CryptoManager::new() {
            Ok(c) => c,
            Err(_) => {
                return Err(RpmError::Crypto("cipher unavailable".to_owned()));
            },
        };
        match crypto.verify_password(password, hash.as_str()) {
            Ok(true) => {},
            Ok(false) => {
                return Err(RpmError::AuthenticationFailed);
            },
            Err(e) => {
                return Err(e);
            },
        }
        let salt_str = match &self.encryption_key_salt {
            Some(s) => s,
            None => {
                return Err(RpmError::Config("missing encryption key salt".to_owned()));
            },
        };
        let raw = match Self::decode_salt(salt_str.as_str()) {
            Ok(v) => v,
            Err(e) => {
                return Err(e);
            },
        };
        proof {
            if exists|rb: Seq<u8>| salt_decodes_to(salt_str@, rb) && 6 <= rb.len() <= 48 {
                let rb = choose|rb: Seq<u8>|
                    salt_decodes_to(salt_str@, rb) && 6 <= rb.len() <= 48;
                lemma_salt_decode_unique(salt_str@, raw@, rb);
            }
        }
        derive_key(password, Some(raw.as_slice()))
    }
}

/// Unlocking is deterministic in the stored record and password: two
/// successful unlocks of the same record with the same password yield the
/// same master key.
pub proof fn lemma_unlock_deterministic(
    s: Seq<char>,
    password: Seq<char>,
    k1: Seq<u8>,
    k2: Seq<u8>,
)
    requires
        exists|raw: Seq<u8>|
            salt_decodes_to(s, raw) && k1 == argon2id_key_of(
                encode_utf8(password),
                effective_salt(raw),
            ),
        exists|raw: Seq<u8>|
            salt_decodes_to(s, raw) && k2 == argon2id_key_of(
                encode_utf8(password),
                effective_salt(raw),
            ),
    ensures
        k1 == k2,
{
    let r1 = choose|raw: Seq<u8>|
        salt_decodes_to(s, raw) && k1 == argon2id_key_of(
            encode_utf8(password),
            effective_salt(raw),
        );
    let r2 = choose|raw: Seq<u8>|
        salt_decodes_to(s, raw) && k2 == argon2id_key_of(
            encode_utf8(password),
            effective_salt(raw),
        );
    lemma_salt_decode_unique(s, r1, r2);
}

/// A stored salt string decodes to at most one byte sequence, whichever of
/// the two accepted paddings it uses.
pub proof fn lemma_salt_decode_unique(s: Seq<char>, r1: Seq<u8>, r2: Seq<u8>)
    requires
        salt_decodes_to(s, r1),
        salt_decodes_to(s, r2),
    ensures
        r1 == r2,
{
    crate::b64::lemma_b64_core_alphabet(r1);
    crate::b64::lemma_b64_core_alphabet(r2);
    if encode_utf8(s) == b64_core(r1) && encode_utf8(s) == b64_core(r2) {
        crate::b64::lemma_b64_core_injective(r1, r2);
    } else if encode_utf8(s) == b64_padded(r1) && encode_utf8(s) == b64_padded(r2) {
        crate::b64::lemma_b64_padded_injective(r1, r2);
    } else if encode_utf8(s) == b64_core(r1) && encode_utf8(s) == b64_padded(r2) {
        lemma_core_padded_same(r1, r2);
    } else {
        lemma_core_padded_same(r2, r1);
    }
}

/// When the unpadded rendering of one byte sequence equals the padded
/// rendering of another, the sequences are the same (the padded form then
/// carries no '=' at all).
proof fn lemma_core_padded_same(a: Seq<u8>, b: Seq<u8>)
    requires
        b64_core(a) == b64_padded(b),
    ensures
        a == b,
{
    crate::b64::lemma_b64_core_alphabet(a);
    let cb = b64_core(b);
    let fb = Seq::new(crate::b64::b64_pad_len(b.len()), |i: int| 61u8);
    assert(b64_padded(b) == cb + fb);
    if fb.len() > 0 {
        let k = cb.len() as int;
        assert(b64_padded(b)[k] == fb[0]);
        assert(b64_core(a)[k] == 61);
        assert(crate::b64::is_b64_digit_byte(b64_core(a)[k]));
        assert(false);
    }
    assert(b64_core(a) =~= cb);
    crate::b64::lemma_b64_core_injective(a, b);
}

} // verus!
