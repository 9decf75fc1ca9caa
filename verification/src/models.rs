use crate::strconv::str_bytes;
use vstd::prelude::*;
use vstd::utf8::encode_utf8;

verus! {

/// One entry of the encrypted index: the storage filename (an opaque id with
/// a `.pwd` suffix), the display name sealed under the master key, and the
/// nonce of that sealing, the latter two in base64.
#[derive(Debug, Clone)]
pub struct DefFileEntry {
    pub encrypted_filename: String,
    pub encrypted_name: String,
    pub nonce: String,
}

/// The decrypted content of the index ("def") file: the list of entries.
/// It is the sole source of truth for which secrets exist.
#[derive(Debug, Clone)]
pub struct DefFile {
    pub entries: Vec<DefFileEntry>,
}

/// The stored form of one secret record: ciphertext and nonce, in base64.
#[derive(Debug, Clone)]
pub struct PasswordFile {
    pub encrypted_password: String,
    pub nonce: String,
}

/// A sealed secret held in memory.
#[derive(Debug, Clone)]
pub struct EncryptedPassword {
    pub ciphertext: Vec<u8>,
    pub nonce: Vec<u8>,
    pub algorithm: String,
}

/// A request to create a secret, as the HTTP layer hands it in.
#[derive(Debug)]
pub struct CreatePasswordRequest {
    pub title: String,
    pub username: Option<String>,
    pub password: String,
    pub url: Option<String>,
    pub notes: Option<String>,
    pub tags: Vec<String>,
}

/// A request to update a secret; absent fields stay unchanged.
#[derive(Debug)]
pub struct UpdatePasswordRequest {
    pub title: Option<String>,
    pub username: Option<String>,
    pub password: Option<String>,
    pub url: Option<String>,
    pub notes: Option<String>,
    pub tags: Option<Vec<String>>,
}

/// An authentication request carrying the master password.
#[derive(Debug)]
pub struct AuthRequest {
    pub master_password: String,
}

/// A byte that may stand inside a serialized string without escaping:
/// printable ASCII other than the quote and the backslash.
pub open spec fn json_safe_byte(b: u8) -> bool {
    0x20 <= b < 0x7f && b != 34 && b != 92
}

/// All bytes of the sequence are safe inside a serialized string.
pub open spec fn json_safe(s: Seq<u8>) -> bool {
    forall|i: int| 0 <= i < s.len() ==> json_safe_byte(#[trigger] s[i])
}

/// The three byte sequences an index entry serializes to.
pub open spec fn entry_view(e: DefFileEntry) -> (Seq<u8>, Seq<u8>, Seq<u8>) {
    (
        encode_utf8(e.encrypted_filename@),
        encode_utf8(e.encrypted_name@),
        encode_utf8(e.nonce@),
    )
}

/// An index entry whose fields can stand in the serialized form unescaped.
/// Entries the engine builds satisfy this: filenames are an opaque id and a
/// `.pwd` suffix, the other fields base64.
pub open spec fn entry_wf(e: DefFileEntry) -> bool {
    json_safe(entry_view(e).0) && json_safe(entry_view(e).1) && json_safe(entry_view(e).2)
}

/// The byte-level view of a sequence of entries.
pub open spec fn entries_view(es: Seq<DefFileEntry>) -> Seq<(Seq<u8>, Seq<u8>, Seq<u8>)> {
    Seq::new(es.len(), |i: int| entry_view(es[i]))
}

/// The byte-level view of the index: the entries' field byte sequences.
pub open spec fn def_view(d: DefFile) -> Seq<(Seq<u8>, Seq<u8>, Seq<u8>)> {
    entries_view(d.entries@)
}

/// All entries of the index are well-formed.
pub open spec fn def_wf(d: DefFile) -> bool {
    forall|i: int| 0 <= i < d.entries@.len() ==> entry_wf(#[trigger] d.entries@[i])
}

/// The two byte sequences a secret record serializes to.
pub open spec fn pwd_file_view(p: PasswordFile) -> (Seq<u8>, Seq<u8>) {
    (encode_utf8(p.encrypted_password@), encode_utf8(p.nonce@))
}

/// A secret record whose fields can stand in the serialized form unescaped.
pub open spec fn pwd_file_wf(p: PasswordFile) -> bool {
    json_safe(pwd_file_view(p).0) && json_safe(pwd_file_view(p).1)
}


/// Check at run time that a string's bytes may stand unescaped in the
/// canonical serialized form.
pub fn str_is_json_safe(s: &str) -> (r: bool)
    ensures
        r == json_safe(encode_utf8(s@)),
{
    let b = str_bytes(s);
    let mut i: usize = 0;
    while i < b.len()
        invariant
            b@ == encode_utf8(s@),
            i <= b@.len(),
            forall|j: int| 0 <= j < i ==> json_safe_byte(#[trigger] b@[j]),
        decreases b@.len() - i,
    {
        let c = b[i];
        if !(0x20 <= c && c < 0x7f && c != 34 && c != 92) {
            return false;
        }
        i = i + 1;
    }
    true
}

/// Check at run time that an entry's fields may stand unescaped.
pub fn entry_is_wf(e: &DefFileEntry) -> (r: bool)
    ensures
        r == entry_wf(*e),
{
    str_is_json_safe(e.encrypted_filename.as_str()) && str_is_json_safe(e.encrypted_name.as_str())
        && str_is_json_safe(e.nonce.as_str())
}

/// Check at run time that every entry of an index may stand unescaped in the
/// canonical serialized form; callers outside the verifier's reach guard
/// `save_def_file` with this.
pub fn def_is_wf(d: &DefFile) -> (r: bool)
    ensures
        r == def_wf(*d),
{
    let mut i: usize = 0;
    while i < d.entries.len()
        invariant
            i <= d.entries@.len(),
            forall|j: int| 0 <= j < i ==> entry_wf(#[trigger] d.entries@[j]),
        decreases d.entries@.len() - i,
    {
        if !entry_is_wf(&d.entries[i]) {
            return false;
        }
        i = i + 1;
    }
    true
}


} // verus!
