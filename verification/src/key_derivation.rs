use crate::b64::b64_core;
use crate::b64::b64_encode_std_no_pad;
use crate::b64::lemma_b64_core_len;
use crate::crypto::random_bytes;
use crate::errors::RpmError;
use crate::errors::RpmResult;
use crate::strconv::str_bytes;
use vstd::prelude::*;
use vstd::utf8::encode_utf8;

verus! {

/// What argon2's `hash_password_into` derives, with the crate's default
/// Argon2id parameters, into a 32-byte buffer, for a password and a raw salt
/// byte sequence. A function of the two arguments alone.
pub uninterp spec fn argon2id_key_of(password: Seq<u8>, salt: Seq<u8>) -> Seq<u8>;

/// Relies on argon2's `Argon2::default().hash_password_into`: with a 32-byte
/// output buffer it succeeds exactly when the password is at most 2^32 - 1
/// bytes and the salt between 8 and 2^32 - 1 bytes, and fills the buffer
/// deterministically from the two.
#[verifier::external_body]
fn argon2_derive(password: &[u8], salt: &[u8]) -> (r: Result<Vec<u8>, ()>)
    ensures
        r matches Ok(k) ==> k@ == argon2id_key_of(password@, salt@) && k@.len() == 32,
        r is Err <==> (password@.len() > 0xFFFF_FFFF || salt@.len() < 8 || salt@.len()
            > 0xFFFF_FFFF),
{
    let mut okm = [0u8; 32];
    match argon2::Argon2::default().hash_password_into(password, salt, &mut okm) {
        Ok(_) => Ok(okm.to_vec()),
        Err(_) => Err(()),
    }
}

/// The effective salt handed to the key-derivation function for raw salt
/// bytes: the ASCII bytes of their unpadded base64 rendering, the same form
/// the salt takes inside a PHC salt string.
pub open spec fn effective_salt(salt: Seq<u8>) -> Seq<u8> {
    b64_core(salt)
}

/// What `derive_key` promises for an explicitly supplied salt.
pub open spec fn derive_key_post(
    password: Seq<char>,
    salt: Seq<u8>,
    r: Result<Vec<u8>, RpmError>,
) -> bool {
    &&& (r matches Ok(k) ==> k@ == argon2id_key_of(encode_utf8(password), effective_salt(salt))
        && k@.len() == 32)
    &&& (r matches Err(e) ==> e is Crypto)
    &&& (r is Ok <==> (6 <= salt.len() <= 48 && encode_utf8(password).len() <= 0xFFFF_FFFF))
}

/// Derive the 32-byte master key from a password with Argon2id. A supplied
/// salt must render to a salt string of 4 to 64 characters (3 to 48 bytes)
/// and be long enough for the derivation function (8 characters, 6 bytes);
/// with no salt supplied, a fresh random 16-byte salt is generated, as at
/// provisioning time.
pub fn derive_key(password: &str, salt: Option<&[u8]>) -> (r: RpmResult<Vec<u8>>)
    ensures
        salt matches Some(s) ==> derive_key_post(password@, s@, r),
        salt is None ==> (r matches Ok(k) ==> k@.len() == 32 && (exists|sb: Seq<u8>|
            sb.len() == 16 && k@ == argon2id_key_of(encode_utf8(password@), effective_salt(sb)))),
        salt is None ==> (r is Ok <==> encode_utf8(password@).len() <= 0xFFFF_FFFF),
        r matches Err(e) ==> e is Crypto,
{
    let pw_bytes = str_bytes(password);
    match salt {
        Some(s) => {
            if s.len() < 3 || s.len() > 48 {
                proof {
                    lemma_b64_core_len(s@);
                }
                return Err(RpmError::Crypto("Invalid salt".to_owned()));
            }
            let rendered = b64_encode_std_no_pad(s);
            let salt_chars = str_bytes(rendered.as_str());
            proof {
                lemma_b64_core_len(s@);
            }
            match argon2_derive(pw_bytes.as_slice(), salt_chars.as_slice()) {
                Ok(k) => Ok(k),
                Err(_) => Err(RpmError::Crypto("Key derivation failed".to_owned())),
            }
        },
        None => {
            let fresh = random_bytes(16);
            let rendered = b64_encode_std_no_pad(fresh.as_slice());
            let salt_chars = str_bytes(rendered.as_str());
            proof {
                lemma_b64_core_len(fresh@);
            }
            match argon2_derive(pw_bytes.as_slice(), salt_chars.as_slice()) {
                Ok(k) => Ok(k),
                Err(_) => Err(RpmError::Crypto("Key derivation failed".to_owned())),
            }
        },
    }
}

/// Key derivation is deterministic: two results for the same password and
/// salt are the same key, and they succeed or fail together.
pub proof fn lemma_derive_key_deterministic(
    password: Seq<char>,
    salt: Seq<u8>,
    r1: Result<Vec<u8>, RpmError>,
    r2: Result<Vec<u8>, RpmError>,
)
    requires
        derive_key_post(password, salt, r1),
        derive_key_post(password, salt, r2),
    ensures
        r1 is Ok <==> r2 is Ok,
        (r1 is Ok && r2 is Ok) ==> r1->Ok_0@ == r2->Ok_0@,
{
}

} // verus!
