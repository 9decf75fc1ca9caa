use crate::errors::RpmError;
use crate::errors::RpmResult;
use crate::hexstr::hex_bytes;
use crate::hexstr::hex_encode;
use crate::strconv::bytes_to_string;
use crate::strconv::lemma_ascii_bytes_valid_utf8;
use crate::strconv::lemma_encode_utf8_injective;
use crate::strconv::str_bytes;
use aes_gcm::aead::Aead;
use aes_gcm::aead::AeadCore;
use aes_gcm::aead::KeyInit;
use aes_gcm::Aes256Gcm;
use argon2::PasswordHasher;
use argon2::PasswordVerifier;
use rand::RngCore;
use vstd::prelude::*;
use vstd::utf8::encode_utf8;
use vstd::utf8::valid_utf8;
use zeroize::Zeroize;

verus! {

/// The longest plaintext AES-GCM accepts (2^36 bytes).
pub open spec fn aead_plaintext_max() -> int {
    0x10_0000_0000
}

/// What AES-256-GCM produces for a key, a nonce and a plaintext: the
/// ciphertext with its 16-byte authentication tag appended. A function of
/// the three arguments alone.
pub uninterp spec fn seal_of(key: Seq<u8>, nonce: Seq<u8>, plaintext: Seq<u8>) -> Seq<u8>;

/// Relies on aes_gcm's `Aes256Gcm` (`Aead::encrypt`): deterministic in key,
/// nonce and plaintext; the output is the ciphertext with the 16-byte tag
/// appended; it fails only on plaintexts longer than 2^36 bytes.
/// `Key::from_slice` and `Nonce::from_slice` panic on other lengths, so the
/// lengths are required.
#[verifier::external_body]
fn aes_seal(key: &[u8], nonce: &[u8], plaintext: &[u8]) -> (r: Result<Vec<u8>, ()>)
    requires
        key@.len() == 32,
        nonce@.len() == 12,
    ensures
        r matches Ok(ct) ==> ct@ == seal_of(key@, nonce@, plaintext@) && ct@.len() == plaintext@.len() + 16,
        r is Ok ==> plaintext@.len() <= aead_plaintext_max(),
        r is Err ==> plaintext@.len() > aead_plaintext_max(),
{
    let cipher = Aes256Gcm::new(aes_gcm::Key::<Aes256Gcm>::from_slice(key));
    cipher.encrypt(aes_gcm::Nonce::from_slice(nonce), plaintext).map_err(|_| ())
}

/// Relies on aes_gcm's `Aes256Gcm` (`Aead::decrypt`): it succeeds exactly
/// when the ciphertext carries a valid tag under the key and nonce, that is,
/// exactly on what `encrypt` produced for them, and then returns the
/// plaintext that was sealed.
#[verifier::external_body]
fn aes_open(key: &[u8], nonce: &[u8], ciphertext: &[u8]) -> (r: Result<Vec<u8>, ()>)
    requires
        key@.len() == 32,
        nonce@.len() == 12,
    ensures
        r matches Ok(pt) ==> pt@.len() <= aead_plaintext_max(),
        r matches Ok(pt) ==> ciphertext@ == seal_of(key@, nonce@, pt@) && pt@.len() + 16
            == ciphertext@.len() && (forall|other: Seq<u8>|
            ciphertext@ == seal_of(key@, nonce@, other) && other.len() <= aead_plaintext_max()
                ==> other == pt@),
        r is Err ==> !(exists|pt: Seq<u8>|
            pt.len() <= aead_plaintext_max() && ciphertext@ == seal_of(key@, nonce@, pt)),
{
    let cipher = Aes256Gcm::new(aes_gcm::Key::<Aes256Gcm>::from_slice(key));
    cipher.decrypt(aes_gcm::Nonce::from_slice(nonce), ciphertext).map_err(|_| ())
}

/// Relies on aes_gcm's `AeadCore::generate_nonce` over `OsRng`: twelve bytes
/// from the operating system's secure random source.
#[verifier::external_body]
fn aes_generate_nonce() -> (r: Vec<u8>)
    ensures
        r@.len() == 12,
{
    Aes256Gcm::generate_nonce(&mut aes_gcm::aead::OsRng).to_vec()
}

/// Relies on rand's `thread_rng().fill_bytes`: fills the buffer with bytes
/// from a secure random source.
#[verifier::external_body]
pub(crate) fn random_bytes(n: usize) -> (r: Vec<u8>)
    ensures
        r@.len() == n,
{
    let mut b = vec![0u8; n];
    rand::thread_rng().fill_bytes(&mut b);
    b
}

/// Whether argon2's `PasswordVerifier::verify_password` accepts the password
/// against the PHC hash string: the hash string carries its own algorithm,
/// parameters and salt, so this is a function of the two arguments alone.
pub uninterp spec fn phc_verifies(password: Seq<u8>, hash: Seq<char>) -> bool;

/// Whether password_hash's `PasswordHash::new` parses the string: a function
/// of the string alone.
pub uninterp spec fn phc_wellformed(hash: Seq<char>) -> bool;

/// Relies on argon2's `PasswordHasher::hash_password` with a fresh random
/// salt from `SaltString::generate`: on success the PHC string it returns
/// parses with `PasswordHash::new`, and recomputing the hash for the same
/// password with the salt and parameters embedded in that string matches, so
/// `verify_password` accepts it.
#[verifier::external_body]
fn phc_hash_password(password: &str) -> (r: Result<String, ()>)
    ensures
        r matches Ok(h) ==> phc_wellformed(h@) && phc_verifies(encode_utf8(password@), h@),
{
    let salt = argon2::password_hash::SaltString::generate(
        &mut argon2::password_hash::rand_core::OsRng,
    );
    argon2::Argon2::default().hash_password(password.as_bytes(), &salt).map(
        |h| h.to_string(),
    ).map_err(|_| ())
}

/// Relies on password_hash's `PasswordHash::new` and argon2's
/// `PasswordVerifier::verify_password`: parsing succeeds exactly on
/// well-formed PHC strings, and verification recomputes the hash with the
/// parameters and salt from the string and compares, a deterministic
/// function of password and string.
#[verifier::external_body]
fn phc_verify_password(password: &str, hash: &str) -> (r: Result<bool, ()>)
    ensures
        r matches Ok(b) ==> phc_wellformed(hash@) && b == phc_verifies(
            encode_utf8(password@),
            hash@,
        ),
        r is Err ==> !phc_wellformed(hash@),
{
    match argon2::PasswordHash::new(hash) {
        Ok(parsed) => Ok(
            argon2::Argon2::default().verify_password(password.as_bytes(), &parsed).is_ok(),
        ),
        Err(_) => Err(()),
    }
}

/// Relies on zeroize's `Vec::zeroize`: overwrites the vector's contents and
/// spare capacity with zeros through a volatile write the compiler will not
/// elide, then truncates it to length zero.
#[verifier::external_body]
fn zeroize_vec(v: &mut Vec<u8>)
    ensures
        final(v)@.len() == 0,
{
    v.zeroize();
}

/// What `encrypt_password`/`encrypt_data` promise of a result for a
/// plaintext byte sequence and key.
pub open spec fn encrypt_post(
    plaintext: Seq<u8>,
    key: Seq<u8>,
    r: Result<(Vec<u8>, Vec<u8>), RpmError>,
) -> bool {
    &&& (r matches Ok(p) ==> key.len() == 32 && p.1@.len() == 12 && p.0@ == seal_of(
        key,
        p.1@,
        plaintext,
    ) && p.0@.len() == plaintext.len() + 16 && plaintext.len() <= aead_plaintext_max())
    &&& (r matches Err(e) ==> e is Crypto)
    &&& (key.len() != 32 ==> r is Err)
    &&& (key.len() == 32 && plaintext.len() <= aead_plaintext_max() ==> r is Ok)
}

/// What `decrypt_data` promises of a result: success returns exactly the
/// bytes whose seal under the key and nonce is the ciphertext, and it does
/// succeed whenever such bytes exist; it never returns unauthenticated
/// plaintext.
pub open spec fn decrypt_data_post(
    ciphertext: Seq<u8>,
    nonce: Seq<u8>,
    key: Seq<u8>,
    r: Result<Vec<u8>, RpmError>,
) -> bool {
    &&& (r matches Ok(pt) ==> key.len() == 32 && nonce.len() == 12 && ciphertext == seal_of(
        key,
        nonce,
        pt@,
    ) && pt@.len() <= aead_plaintext_max())
    &&& (r matches Err(e) ==> e is Crypto)
    &&& (key.len() == 32 && nonce.len() == 12 ==> (forall|pt: Seq<u8>|
        ciphertext == seal_of(key, nonce, pt) && pt.len() <= aead_plaintext_max() ==> (r
            matches Ok(v) && v@ == pt)))
}

/// What `decrypt_password` promises of a result: as `decrypt_data_post`,
/// with the plaintext decoded from UTF-8.
pub open spec fn decrypt_password_post(
    ciphertext: Seq<u8>,
    nonce: Seq<u8>,
    key: Seq<u8>,
    r: Result<String, RpmError>,
) -> bool {
    &&& (r matches Ok(s) ==> key.len() == 32 && nonce.len() == 12 && ciphertext == seal_of(
        key,
        nonce,
        encode_utf8(s@),
    ) && encode_utf8(s@).len() <= aead_plaintext_max())
    &&& (r matches Err(e) ==> e is Crypto)
    &&& (key.len() == 32 && nonce.len() == 12 ==> (forall|pt: Seq<u8>|
        ciphertext == seal_of(key, nonce, pt) && pt.len() <= aead_plaintext_max() && valid_utf8(
            pt,
        ) ==> (r matches Ok(s) && encode_utf8(s@) == pt)))
}

/// The AEAD cipher layer: authenticated encryption and decryption under an
/// explicit 32-byte key, and random token generation.
#[derive(Clone)]
pub struct CryptoManager {}

impl CryptoManager {
    pub fn new() -> (r: RpmResult<Self>)
        ensures
            r is Ok,
    {
        Ok(CryptoManager {  })
    }

    /// Hash a master password for authentication checks, with a fresh salt
    /// embedded in the returned PHC string.
    pub fn hash_password(&self, password: &str) -> (r: RpmResult<String>)
        ensures
            r matches Ok(h) ==> phc_wellformed(h@) && phc_verifies(encode_utf8(password@), h@),
            r matches Err(e) ==> e is Crypto,
    {
        match phc_hash_password(password) {
            Ok(h) => Ok(h),
            Err(_) => Err(RpmError::Crypto("Password hashing failed".to_owned())),
        }
    }

    /// Check a password against a stored PHC hash string. A mismatch returns
    /// `Ok(false)`, never an error; only a malformed hash string is an error.
    pub fn verify_password(&self, password: &str, hash: &str) -> (r: RpmResult<bool>)
        ensures
            r matches Ok(b) ==> phc_wellformed(hash@) && b == phc_verifies(
                encode_utf8(password@),
                hash@,
            ),
            r matches Err(e) ==> e is Crypto && !phc_wellformed(hash@),
            phc_wellformed(hash@) ==> r is Ok,
    {
        match phc_verify_password(password, hash) {
            Ok(b) => Ok(b),
            Err(_) => Err(RpmError::Crypto("Invalid hash format".to_owned())),
        }
    }

    /// Encrypt a secret string under a 32-byte key with a fresh random
    /// nonce; returns the sealed bytes and the nonce.
    pub fn encrypt_password(&self, password: &str, key: &[u8]) -> (r: RpmResult<
        (Vec<u8>, Vec<u8>),
    >)
        ensures
            encrypt_post(encode_utf8(password@), key@, r),
    {
        let bytes = str_bytes(password);
        self.encrypt_data(bytes.as_slice(), key)
    }

    /// Encrypt raw bytes under a 32-byte key with a fresh random nonce;
    /// returns the sealed bytes and the nonce.
    pub fn encrypt_data(&self, data: &[u8], key: &[u8]) -> (r: RpmResult<(Vec<u8>, Vec<u8>)>)
        ensures
            encrypt_post(data@, key@, r),
    {
        if key.len() != 32 {
            return Err(RpmError::Crypto("Key must be 32 bytes for AES-256".to_owned()));
        }
        let nonce = aes_generate_nonce();
        match aes_seal(key, nonce.as_slice(), data) {
            Ok(ct) => Ok((ct, nonce)),
            Err(_) => Err(RpmError::Crypto("Encryption failed".to_owned())),
        }
    }

    /// Decrypt sealed bytes back to the secret string. Fails with a Crypto
    /// error on a wrong key, a tampered ciphertext or nonce, or plaintext
    /// that is not UTF-8; never returns unauthenticated plaintext.
    pub fn decrypt_password(&self, ciphertext: &[u8], nonce: &[u8], key: &[u8]) -> (r: RpmResult<
        String,
    >)
        ensures
            decrypt_password_post(ciphertext@, nonce@, key@, r),
    {
        let pt = match self.decrypt_data(ciphertext, nonce, key) {
            Ok(pt) => pt,
            Err(e) => {
                return Err(e);
            },
        };
        match bytes_to_string(pt) {
            Ok(s) => Ok(s),
            Err(_) => Err(RpmError::Crypto("Invalid UTF-8 in decrypted data".to_owned())),
        }
    }

    /// Decrypt sealed bytes back to the plaintext bytes. Fails with a Crypto
    /// error on a wrong key or a tampered ciphertext or nonce; never returns
    /// unauthenticated plaintext.
    pub fn decrypt_data(&self, ciphertext: &[u8], nonce: &[u8], key: &[u8]) -> (r: RpmResult<
        Vec<u8>,
    >)
        ensures
            decrypt_data_post(ciphertext@, nonce@, key@, r),
    {
        if key.len() != 32 {
            return Err(RpmError::Crypto("Key must be 32 bytes for AES-256".to_owned()));
        }
        if nonce.len() != 12 {
            return Err(RpmError::Crypto("Nonce must be 12 bytes for AES-GCM".to_owned()));
        }
        match aes_open(key, nonce, ciphertext) {
            Ok(pt) => Ok(pt),
            Err(_) => Err(RpmError::Crypto("Decryption failed".to_owned())),
        }
    }

    /// A fresh session token: 32 random bytes, rendered as 64 lowercase
    /// hexadecimal digits.
    pub fn generate_token(&self) -> (r: RpmResult<String>)
        ensures
            r is Ok,
            r matches Ok(t) ==> (exists|raw: Seq<u8>|
                raw.len() == 32 && encode_utf8(t@) == hex_bytes(raw)),
    {
        let raw = random_bytes(32);
        let digits = hex_encode(raw.as_slice());
        proof {
            crate::hexstr::lemma_hex_bytes_shape(raw@);
            lemma_ascii_bytes_valid_utf8(digits@);
        }
        match bytes_to_string(digits) {
            Ok(t) => Ok(t),
            Err(_) => {
                proof {
                    assert(false);
                }
                Err(RpmError::Crypto("Token encoding failed".to_owned()))
            },
        }
    }
}

/// Round trip at the cipher layer: whatever `encrypt_password` sealed,
/// `decrypt_password` under the same key and nonce returns, and it returns
/// exactly the original string.
pub proof fn lemma_encrypt_then_decrypt(
    key: Seq<u8>,
    nonce: Seq<u8>,
    s: Seq<char>,
    ct: Seq<u8>,
    r: Result<String, RpmError>,
)
    requires
        key.len() == 32,
        nonce.len() == 12,
        encode_utf8(s).len() <= aead_plaintext_max(),
        ct == seal_of(key, nonce, encode_utf8(s)),
        decrypt_password_post(ct, nonce, key, r),
    ensures
        r matches Ok(out) && out@ == s,
{
    vstd::utf8::encode_utf8_valid_utf8(s);
    assert(r matches Ok(out) && encode_utf8(out@) == encode_utf8(s));
    if let Ok(out) = r {
        lemma_encode_utf8_injective(out@, s);
    }
}

/// Round trip for raw bytes: whatever `encrypt_data` sealed, `decrypt_data`
/// under the same key and nonce returns unchanged.
pub proof fn lemma_encrypt_then_decrypt_data(
    key: Seq<u8>,
    nonce: Seq<u8>,
    data: Seq<u8>,
    ct: Seq<u8>,
    r: Result<Vec<u8>, RpmError>,
)
    requires
        key.len() == 32,
        nonce.len() == 12,
        data.len() <= aead_plaintext_max(),
        ct == seal_of(key, nonce, data),
        decrypt_data_post(ct, nonce, key, r),
    ensures
        r matches Ok(out) && out@ == data,
{
}

/// A container for the 32-byte master key. The backing bytes can be wiped,
/// which overwrites them with zeros before releasing them. Wiping is the
/// holder's last step with the key: verified code has no destructor to hook,
/// so a container dropped without `wipe` releases its bytes unzeroed.
pub struct SecureKey {
    key: Vec<u8>,
}

impl SecureKey {
    /// What the container holds.
    pub closed spec fn view(&self) -> Seq<u8> {
        self.key@
    }

    pub fn new(key: Vec<u8>) -> (r: Self)
        ensures
            r@ == key@,
    {
        SecureKey { key }
    }

    pub fn as_slice(&self) -> (r: &[u8])
        ensures
            r@ == self@,
    {
        self.key.as_slice()
    }

    /// Overwrite the key bytes with zeros and empty the container.
    pub fn wipe(&mut self)
        ensures
            final(self)@.len() == 0,
    {
        zeroize_vec(&mut self.key);
    }
}

} // verus!
