use crate::b64::b64_decode_std;
use crate::b64::b64_encode_std;
use crate::b64::b64_padded;
use crate::b64::is_b64_digit_byte;
use crate::b64::lemma_b64_padded_alphabet;
use crate::b64::lemma_b64_padded_injective;
use crate::config::Config;
use crate::crypto::aead_plaintext_max;
use crate::crypto::seal_of;
use crate::crypto::CryptoManager;
use crate::errors::RpmError;
use crate::errors::RpmResult;
use crate::jsoncodec::json_def;
use crate::jsoncodec::json_pwd;
use crate::jsoncodec::parse_def_file;
use crate::jsoncodec::parse_password_file;
use crate::jsoncodec::serialize_def_file;
use crate::jsoncodec::serialize_password_file;
use crate::models::def_view;
use crate::models::def_wf;
use crate::models::entry_view;
use crate::models::entry_wf;
use crate::models::json_safe;
use crate::models::json_safe_byte;
use crate::models::pwd_file_view;
use crate::models::DefFile;
use crate::models::DefFileEntry;
use crate::models::PasswordFile;
use crate::strconv::lemma_encode_utf8_injective;
use crate::strconv::str_eq;
use crate::strconv::str_bytes;
use vstd::prelude::*;
use vstd::string::StringExecFns;
use vstd::utf8::encode_utf8;
use vstd::utf8::is_ascii_chars;
use vstd::utf8::is_ascii_chars_encode_utf8;
use vstd::utf8::valid_utf8;

verus! {

/// Relies on uuid's `Uuid::new_v4` and its hyphenated lowercase `Display`
/// form: 36 ASCII characters, hexadecimal digits with hyphens.
#[verifier::external_body]
fn uuid_v4_string() -> (r: String)
    ensures
        r@.len() == 36,
        is_ascii_chars(r@),
        forall|i: int|
            0 <= i < 36 ==> ((48 <= #[trigger] r@[i] as u8 <= 57) || (97 <= r@[i] as u8 <= 102)
                || r@[i] as u8 == 45),
{
    uuid::Uuid::new_v4().to_string()
}

/// An opaque storage id as the engine mints it: 40 ASCII characters ending
/// in `.pwd`, all of them safe inside a serialized string.
pub open spec fn filename_wf(f: Seq<char>) -> bool {
    &&& f.len() == 40
    &&& is_ascii_chars(f)
    &&& json_safe(encode_utf8(f))
    &&& f.subrange(36, 40) == ".pwd"@
}

/// Mint a fresh opaque storage id: a random identifier and the `.pwd`
/// suffix.
fn fresh_filename() -> (r: String)
    ensures
        filename_wf(r@),
{
    let base = uuid_v4_string();
    let r = base.concat(".pwd");
    proof {
        reveal_strlit(".pwd");
        assert(".pwd"@.len() == 4);
        assert(is_ascii_chars(".pwd"@)) by {
            assert(".pwd"@[0] == '.' && ".pwd"@[1] == 'p' && ".pwd"@[2] == 'w' && ".pwd"@[3]
                == 'd');
        }
        assert(is_ascii_chars(r@)) by {
            assert(forall|i: int| 0 <= i < 36 ==> r@[i] == base@[i]);
            assert(forall|i: int| 36 <= i < 40 ==> r@[i] == ".pwd"@[i - 36]);
        }
        is_ascii_chars_encode_utf8(r@);
        assert(json_safe(encode_utf8(r@))) by {
            assert forall|i: int|
                0 <= i < encode_utf8(r@).len() implies json_safe_byte(
                #[trigger] encode_utf8(r@)[i],
            ) by {
                assert(encode_utf8(r@)[i] == r@[i] as u8);
                if i < 36 {
                    assert(r@[i] == base@[i]);
                } else {
                    assert(r@[i] == ".pwd"@[i - 36]);
                }
            }
        }
        assert(r@.subrange(36, 40) =~= ".pwd"@);
    }
    r
}

/// The entry's sealed display name is this plaintext: its nonce and
/// ciphertext fields are the base64 renderings of a 12-byte nonce and of the
/// seal of the name under the key with it.
pub open spec fn entry_named(e: DefFileEntry, key: Seq<u8>, name: Seq<u8>) -> bool {
    &&& name.len() <= aead_plaintext_max()
    &&& exists|nn: Seq<u8>|
        nn.len() == 12 && encode_utf8(e.nonce@) == b64_padded(nn) && encode_utf8(
            e.encrypted_name@,
        ) == b64_padded(seal_of(key, nn, name))
}

/// The first index whose entry carries this storage id, or -1.
pub open spec fn find_idx(es: Seq<DefFileEntry>, fname: Seq<char>) -> int
    decreases es.len(),
{
    if es.len() == 0 {
        -1
    } else if es[0].encrypted_filename@ == fname {
        0
    } else {
        if find_idx(es.drop_first(), fname) < 0 {
            -1
        } else {
            find_idx(es.drop_first(), fname) + 1
        }
    }
}

/// The entries left after dropping every entry with this storage id.
pub open spec fn remove_named(es: Seq<DefFileEntry>, fname: Seq<char>) -> Seq<DefFileEntry>
    decreases es.len(),
{
    if es.len() == 0 {
        Seq::empty()
    } else if es[0].encrypted_filename@ == fname {
        remove_named(es.drop_first(), fname)
    } else {
        seq![es[0]] + remove_named(es.drop_first(), fname)
    }
}

/// Appending an entry extends the removal result, unless it carries the
/// dropped id.
proof fn lemma_remove_named_push(es: Seq<DefFileEntry>, x: DefFileEntry, fname: Seq<char>)
    ensures
        x.encrypted_filename@ == fname ==> remove_named(es.push(x), fname) == remove_named(
            es,
            fname,
        ),
        x.encrypted_filename@ != fname ==> remove_named(es.push(x), fname) == remove_named(
            es,
            fname,
        ) + seq![x],
    decreases es.len(),
{
    if es.len() == 0 {
        assert(es.push(x)[0] == x);
        assert(es.push(x).len() == 1);
        assert(es.push(x).drop_first() =~= Seq::<DefFileEntry>::empty());
        assert(remove_named(Seq::<DefFileEntry>::empty(), fname) == Seq::<DefFileEntry>::empty());
        assert(remove_named(es, fname) == Seq::<DefFileEntry>::empty());
        if x.encrypted_filename@ == fname {
            assert(remove_named(es.push(x), fname) == remove_named(
                es.push(x).drop_first(),
                fname,
            ));
            assert(remove_named(es.push(x), fname) =~= remove_named(es, fname));
        } else {
            assert(remove_named(es.push(x), fname) == seq![es.push(x)[0]] + remove_named(
                es.push(x).drop_first(),
                fname,
            ));
            assert(remove_named(es.push(x), fname) =~= remove_named(es, fname) + seq![x]);
        }
    } else {
        assert(es.push(x)[0] == es[0]);
        assert(es.push(x).drop_first() =~= es.drop_first().push(x));
        lemma_remove_named_push(es.drop_first(), x, fname);
        if x.encrypted_filename@ == fname {
            assert(remove_named(es.push(x), fname) =~= remove_named(es, fname));
        } else {
            assert(remove_named(es.push(x), fname) =~= remove_named(es, fname) + seq![x]);
        }
    }
}

/// What removal leaves: no entry with the dropped id, and every survivor is
/// one of the original entries.
pub proof fn lemma_remove_named_shape(es: Seq<DefFileEntry>, fname: Seq<char>)
    ensures
        forall|i: int|
            0 <= i < remove_named(es, fname).len() ==> (#[trigger] remove_named(es, fname)[i])
                .encrypted_filename@ != fname,
        forall|i: int|
            0 <= i < remove_named(es, fname).len() ==> (exists|j: int|
                0 <= j < es.len() && es[j] == #[trigger] remove_named(es, fname)[i]),
    decreases es.len(),
{
    if es.len() > 0 {
        let tail = es.drop_first();
        lemma_remove_named_shape(tail, fname);
        let rm = remove_named(es, fname);
        let rt = remove_named(tail, fname);
        if es[0].encrypted_filename@ == fname {
            assert(rm == rt);
            assert forall|i: int|
                0 <= i < rm.len() implies (exists|j: int|
                0 <= j < es.len() && es[j] == #[trigger] rm[i]) by {
                assert(rt[i] == rm[i]);
                let w = choose|j: int| 0 <= j < tail.len() && tail[j] == rt[i];
                assert(tail[w] == es[w + 1]);
                assert(es[w + 1] == rm[i]);
            }
        } else {
            assert(rm == seq![es[0]] + rt);
            assert forall|i: int|
                0 <= i < rm.len() implies (exists|j: int|
                0 <= j < es.len() && es[j] == #[trigger] rm[i]) by {
                if i == 0 {
                    assert(rm[0] == es[0]);
                } else {
                    assert(rm[i] == rt[i - 1]);
                    let w = choose|j: int| 0 <= j < tail.len() && tail[j] == rt[i - 1];
                    assert(tail[w] == es[w + 1]);
                    assert(es[w + 1] == rm[i]);
                }
            }
            assert forall|i: int|
                0 <= i < rm.len() implies (#[trigger] rm[i]).encrypted_filename@ != fname by {
                if i > 0 {
                    assert(rm[i] == rt[i - 1]);
                }
            }
        }
    }
}

/// The encrypted index and secret record store over one vault directory.
/// The engine computes file contents and interprets them; reading and
/// writing the files themselves is its caller's part.
pub struct PasswordStorage {
    passwords_dir: String,
    crypto: CryptoManager,
}

impl PasswordStorage {
    /// The vault directory this store works over.
    pub closed spec fn dir(&self) -> Seq<char> {
        self.passwords_dir@
    }

    pub fn new(config: &Config, crypto: CryptoManager) -> (r: Self)
        ensures
            config.passwords_directory matches Some(d) ==> r.dir() == d@,
    {
        PasswordStorage { passwords_dir: config.passwords_directory_path(), crypto }
    }

    /// The path of the index file inside the vault directory.
    pub fn def_file_path(&self) -> (r: String)
        ensures
            r@ == self.dir() + "/def"@,
    {
        self.passwords_dir.clone().concat("/def")
    }

    /// The path of a secret record file inside the vault directory.
    pub fn password_file_path(&self, filename: &str) -> (r: String)
        ensures
            r@ == self.dir() + "/"@ + filename@,
    {
        self.passwords_dir.clone().concat("/").concat(filename)
    }

    /// Decrypt the stored index. A missing file is an empty index, not an
    /// error; a present file splits into its 12-byte nonce and ciphertext,
    /// is opened under the key and parsed. Whatever the index file held when
    /// `save_def_file` produced it comes back unchanged.
    pub fn load_def_file(&self, stored: Option<&Vec<u8>>, key: &[u8]) -> (r: RpmResult<DefFile>)
        ensures
            stored is None ==> (r matches Ok(d) && d.entries@.len() == 0),
            r matches Ok(d) ==> def_wf(d),
            r matches Err(e) ==> ((e is Crypto) || (e is Serialization)),
            stored matches Some(c) ==> (c@.len() < 12 ==> (r matches Err(e) && e is Crypto)),
            stored matches Some(c) ==> (r matches Ok(d) ==> (c@.len() >= 12 && c@.subrange(
                12,
                c@.len() as int,
            ) == seal_of(key@, c@.subrange(0, 12), json_def(def_view(d))))),
            stored matches Some(c) ==> (key@.len() == 32 ==> (forall|
                v: Seq<(Seq<u8>, Seq<u8>, Seq<u8>)>,
                nn: Seq<u8>,
            |
                (crate::jsoncodec::entries_wf(v) && nn.len() == 12 && c@ == nn + seal_of(
                    key@,
                    nn,
                    json_def(v),
                ) && json_def(v).len() <= aead_plaintext_max()) ==> (r matches Ok(d)
                    && def_view(d) == v))),
    {
        let content = match stored {
            Some(c) => c,
            None => {
                return Ok(DefFile { entries: Vec::new() });
            },
        };
        if content.len() < 12 {
            proof {
                assert forall|v: Seq<(Seq<u8>, Seq<u8>, Seq<u8>)>, nn: Seq<u8>|
                    !(crate::jsoncodec::entries_wf(v) && nn.len() == 12 && content@ == nn
                        + seal_of(key@, nn, json_def(v)) && json_def(v).len()
                        <= aead_plaintext_max()) by {
                    if nn.len() == 12 && content@ == nn + seal_of(key@, nn, json_def(v)) {
                        assert(content@.len() >= 12);
                    }
                }
            }
            return Err(RpmError::Crypto("Invalid def file format".to_owned()));
        }
        let mut nonce: Vec<u8> = Vec::new();
        let mut i: usize = 0;
        while i < 12
            invariant
                i <= 12,
                content@.len() >= 12,
                nonce@ == content@.subrange(0, i as int),
            decreases 12 - i,
        {
            nonce.push(content[i]);
            proof {
                assert(content@.subrange(0, i as int).push(content@[i as int]) =~= content@
                    .subrange(0, i as int + 1));
            }
            i = i + 1;
        }
        let mut ct: Vec<u8> = Vec::new();
        let mut j: usize = 12;
        while j < content.len()
            invariant
                12 <= j <= content@.len(),
                ct@ == content@.subrange(12, j as int),
            decreases content@.len() - j,
        {
            ct.push(content[j]);
            proof {
                assert(content@.subrange(12, j as int).push(content@[j as int]) =~= content@
                    .subrange(12, j as int + 1));
            }
            j = j + 1;
        }
        let pt = match self.crypto.decrypt_data(ct.as_slice(), nonce.as_slice(), key) {
            Ok(p) => p,
            Err(e) => {
                proof {
                    if key@.len() == 32 {
                        assert forall|v: Seq<(Seq<u8>, Seq<u8>, Seq<u8>)>, nn: Seq<u8>|
                            !(crate::jsoncodec::entries_wf(v) && nn.len() == 12 && content@
                                == nn + seal_of(key@, nn, json_def(v)) && json_def(v).len()
                                <= aead_plaintext_max()) by {
                            if nn.len() == 12 && content@ == nn + seal_of(key@, nn, json_def(v))
                                && json_def(v).len() <= aead_plaintext_max() {
                                assert(nonce@ =~= nn);
                                assert(ct@ =~= seal_of(key@, nn, json_def(v)));
                                assert(ct@ == seal_of(key@, nonce@, json_def(v)));
                            }
                        }
                    }
                }
                return Err(e);
            },
        };
        let d = match parse_def_file(pt.as_slice()) {
            Ok(d) => d,
            Err(e) => {
                proof {
                    if key@.len() == 32 {
                        assert forall|v: Seq<(Seq<u8>, Seq<u8>, Seq<u8>)>, nn: Seq<u8>|
                            !(crate::jsoncodec::entries_wf(v) && nn.len() == 12 && content@
                                == nn + seal_of(key@, nn, json_def(v)) && json_def(v).len()
                                <= aead_plaintext_max()) by {
                            if crate::jsoncodec::entries_wf(v) && nn.len() == 12 && content@
                                == nn + seal_of(key@, nn, json_def(v)) && json_def(v).len()
                                <= aead_plaintext_max() {
                                assert(nonce@ =~= nn);
                                assert(ct@ =~= seal_of(key@, nn, json_def(v)));
                                assert(ct@ == seal_of(key@, nonce@, json_def(v)));
                                assert(pt@ == json_def(v));
                            }
                        }
                    }
                }
                return Err(e);
            },
        };
        proof {
            assert(content@.subrange(0, 12) == nonce@);
            assert(content@.subrange(12, content@.len() as int) == ct@);
            assert forall|v: Seq<(Seq<u8>, Seq<u8>, Seq<u8>)>, nn: Seq<u8>|
                (crate::jsoncodec::entries_wf(v) && nn.len() == 12 && content@ == nn + seal_of(
                    key@,
                    nn,
                    json_def(v),
                ) && json_def(v).len() <= aead_plaintext_max() && key@.len() == 32) implies
                def_view(d) == v by {
                assert(nonce@ =~= nn);
                assert(ct@ =~= seal_of(key@, nn, json_def(v)));
                assert(ct@ == seal_of(key@, nonce@, json_def(v)));
                assert(pt@ == json_def(v));
            }
        }
        Ok(d)
    }

    /// Serialize and encrypt the index under a fresh random nonce; the
    /// returned bytes, the nonce followed by the ciphertext, replace the
    /// index file wholesale.
    pub fn save_def_file(&self, def: &DefFile, key: &[u8]) -> (r: RpmResult<Vec<u8>>)
        requires
            def_wf(*def),
        ensures
            r matches Ok(b) ==> (exists|nn: Seq<u8>|
                nn.len() == 12 && b@ == nn + seal_of(key@, nn, json_def(def_view(*def)))),
            r is Ok ==> json_def(def_view(*def)).len() <= aead_plaintext_max(),
            r matches Err(e) ==> e is Crypto,
            key@.len() != 32 ==> r is Err,
            (key@.len() == 32 && json_def(def_view(*def)).len() <= aead_plaintext_max())
                ==> r is Ok,
    {
        let json = serialize_def_file(def);
        let sealed = match self.crypto.encrypt_data(json.as_slice(), key) {
            Ok(p) => p,
            Err(e) => {
                return Err(e);
            },
        };
        let (ct, nonce) = sealed;
        let mut out = nonce;
        let ghost nn = out@;
        crate::jsoncodec::push_bytes(&mut out, ct.as_slice());
        proof {
            assert(out@ == nn + ct@);
        }
        Ok(out)
    }
}

/// The index round trip: reloading what `save_def_file` produced, under the
/// same key, yields an index with exactly the entries that were saved.
pub proof fn lemma_index_round_trip(
    st: PasswordStorage,
    d: DefFile,
    key: Seq<u8>,
    saved: Vec<u8>,
    r2: Result<DefFile, RpmError>,
)
    requires
        key.len() == 32,
        def_wf(d),
        json_def(def_view(d)).len() <= aead_plaintext_max(),
        exists|nn: Seq<u8>|
            nn.len() == 12 && saved@ == nn + seal_of(key, nn, json_def(def_view(d))),
        forall|v: Seq<(Seq<u8>, Seq<u8>, Seq<u8>)>, nn: Seq<u8>|
            (crate::jsoncodec::entries_wf(v) && nn.len() == 12 && saved@ == nn + seal_of(
                key,
                nn,
                json_def(v),
            ) && json_def(v).len() <= aead_plaintext_max()) ==> (r2 matches Ok(d2)
                && def_view(d2) == v),
    ensures
        r2 matches Ok(d2) && def_view(d2) == def_view(d),
{
    let nn = choose|nn: Seq<u8>|
        nn.len() == 12 && saved@ == nn + seal_of(key, nn, json_def(def_view(d)));
    assert(crate::jsoncodec::entries_wf(def_view(d))) by {
        assert forall|i: int|
            0 <= i < def_view(d).len() implies json_safe(#[trigger] def_view(d)[i].0)
            && json_safe(def_view(d)[i].1) && json_safe(def_view(d)[i].2) by {
            assert(entry_wf(d.entries@[i]));
            assert(def_view(d)[i] == entry_view(d.entries@[i]));
        }
    }
}


/// Every byte of a padded base64 rendering may stand unescaped in a
/// serialized string.
proof fn lemma_b64_padded_json_safe(s: Seq<u8>)
    ensures
        json_safe(b64_padded(s)),
{
    lemma_b64_padded_alphabet(s);
    assert forall|i: int|
        0 <= i < b64_padded(s).len() implies json_safe_byte(#[trigger] b64_padded(s)[i]) by {
        assert(is_b64_digit_byte(b64_padded(s)[i]) || b64_padded(s)[i] == 61);
    }
}

/// The first index whose entry's sealed name is this plaintext, or -1.
pub open spec fn named_idx(es: Seq<DefFileEntry>, key: Seq<u8>, name: Seq<u8>) -> int
    decreases es.len(),
{
    if es.len() == 0 {
        -1
    } else if entry_named(es[0], key, name) {
        0
    } else {
        if named_idx(es.drop_first(), key, name) < 0 {
            -1
        } else {
            named_idx(es.drop_first(), key, name) + 1
        }
    }
}

/// Where the first entry carrying a storage id stands, if anywhere.
pub proof fn lemma_find_idx_shape(es: Seq<DefFileEntry>, fname: Seq<char>)
    ensures
        find_idx(es, fname) < 0 ==> (forall|i: int|
            0 <= i < es.len() ==> (#[trigger] es[i]).encrypted_filename@ != fname),
        find_idx(es, fname) >= 0 ==> (0 <= find_idx(es, fname) < es.len() && es[find_idx(
            es,
            fname,
        )].encrypted_filename@ == fname && (forall|i: int|
            0 <= i < find_idx(es, fname) ==> (#[trigger] es[i]).encrypted_filename@ != fname)),
    decreases es.len(),
{
    if es.len() > 0 {
        lemma_find_idx_shape(es.drop_first(), fname);
        if es[0].encrypted_filename@ != fname {
            assert(forall|i: int|
                1 <= i < es.len() ==> #[trigger] es[i] == es.drop_first()[i - 1]);
        }
    }
}

/// Where the first entry sealed over a name stands, if anywhere.
pub proof fn lemma_named_idx_shape(es: Seq<DefFileEntry>, key: Seq<u8>, name: Seq<u8>)
    ensures
        named_idx(es, key, name) < 0 ==> (forall|i: int|
            0 <= i < es.len() ==> !entry_named(#[trigger] es[i], key, name)),
        named_idx(es, key, name) >= 0 ==> (0 <= named_idx(es, key, name) < es.len()
            && entry_named(es[named_idx(es, key, name)], key, name) && (forall|i: int|
            0 <= i < named_idx(es, key, name) ==> !entry_named(#[trigger] es[i], key, name))),
    decreases es.len(),
{
    if es.len() > 0 {
        lemma_named_idx_shape(es.drop_first(), key, name);
        if !entry_named(es[0], key, name) {
            assert(forall|i: int|
                1 <= i < es.len() ==> #[trigger] es[i] == es.drop_first()[i - 1]);
        }
    }
}

/// Some plaintext that the entry's sealed name decrypts to under the key.
pub open spec fn entry_decryptable(e: DefFileEntry, key: Seq<u8>) -> bool {
    exists|pt: Seq<u8>| valid_utf8(pt) && entry_named(e, key, pt)
}

impl PasswordStorage {
    /// Seal a display name under the key with a fresh nonce; returns the
    /// ciphertext and the nonce, both in padded base64.
    pub fn encrypt_filename(&self, name: &str, key: &[u8]) -> (r: RpmResult<(String, String)>)
        ensures
            r matches Ok(p) ==> (exists|nn: Seq<u8>|
                nn.len() == 12 && encode_utf8(p.1@) == b64_padded(nn) && encode_utf8(p.0@)
                    == b64_padded(seal_of(key@, nn, encode_utf8(name@)))),
            r matches Ok(p) ==> (json_safe(encode_utf8(p.0@)) && json_safe(encode_utf8(p.1@))
                && encode_utf8(name@).len() <= aead_plaintext_max()),
            r matches Err(e) ==> e is Crypto,
            key@.len() != 32 ==> r is Err,
            (key@.len() == 32 && encode_utf8(name@).len() <= aead_plaintext_max()) ==> r is Ok,
    {
        let data = str_bytes(name);
        let sealed = match self.crypto.encrypt_data(data.as_slice(), key) {
            Ok(p) => p,
            Err(e) => {
                return Err(e);
            },
        };
        let (ct, nonce) = sealed;
        let enc = b64_encode_std(ct.as_slice());
        let non = b64_encode_std(nonce.as_slice());
        proof {
            lemma_b64_padded_json_safe(ct@);
            lemma_b64_padded_json_safe(nonce@);
        }
        Ok((enc, non))
    }

    /// Open a sealed display name: decode the two base64 fields, decrypt and
    /// decode the UTF-8 plaintext. Returns exactly the name that
    /// `encrypt_filename` sealed into those fields.
    pub fn decrypt_filename(&self, encrypted_name: &str, nonce: &str, key: &[u8]) -> (r:
        RpmResult<String>)
        ensures
            r matches Ok(s) ==> (exists|nn: Seq<u8>, ct: Seq<u8>|
                nn.len() == 12 && encode_utf8(nonce@) == b64_padded(nn) && encode_utf8(
                    encrypted_name@,
                ) == b64_padded(ct) && ct == seal_of(key@, nn, encode_utf8(s@))),
            r matches Ok(s) ==> encode_utf8(s@).len() <= aead_plaintext_max(),
            r is Ok ==> key@.len() == 32,
            r matches Err(e) ==> e is Crypto,
            key@.len() == 32 ==> (forall|nn: Seq<u8>, pt: Seq<u8>|
                (nn.len() == 12 && pt.len() <= aead_plaintext_max() && valid_utf8(pt)
                    && encode_utf8(nonce@) == b64_padded(nn) && encode_utf8(encrypted_name@)
                    == b64_padded(seal_of(key@, nn, pt))) ==> (r matches Ok(s) && encode_utf8(
                    s@,
                ) == pt)),
    {
        let ct = match b64_decode_std(encrypted_name) {
            Ok(v) => v,
            Err(_) => {
                return Err(RpmError::Crypto("Invalid base64 in encrypted name".to_owned()));
            },
        };
        let nv = match b64_decode_std(nonce) {
            Ok(v) => v,
            Err(_) => {
                return Err(RpmError::Crypto("Invalid base64 in nonce".to_owned()));
            },
        };
        let res = self.crypto.decrypt_password(ct.as_slice(), nv.as_slice(), key);
        proof {
            if key@.len() == 32 {
                assert forall|nn: Seq<u8>, pt: Seq<u8>|
                    (nn.len() == 12 && pt.len() <= aead_plaintext_max() && valid_utf8(pt)
                        && encode_utf8(nonce@) == b64_padded(nn) && encode_utf8(
                        encrypted_name@,
                    ) == b64_padded(seal_of(key@, nn, pt))) implies (res matches Ok(s)
                    && encode_utf8(s@) == pt) by {
                    lemma_b64_padded_injective(nv@, nn);
                    lemma_b64_padded_injective(ct@, seal_of(key@, nn, pt));
                    assert(nv@ == nn);
                    assert(ct@ == seal_of(key@, nv@, pt));
                }
            }
        }
        match res {
            Ok(s) => Ok(s),
            Err(e) => Err(e),
        }
    }

    /// Decrypt every entry's display name, pairing each storage id with its
    /// name, in index order.
    pub fn list_decrypted_names(&self, def: &DefFile, key: &[u8]) -> (r: RpmResult<
        Vec<(String, String)>,
    >)
        ensures
            r matches Ok(l) ==> (l@.len() == def.entries@.len() && (forall|i: int|
                0 <= i < l@.len() ==> ((#[trigger] l@[i]).0@
                    == def.entries@[i].encrypted_filename@ && entry_named(
                    def.entries@[i],
                    key@,
                    encode_utf8(l@[i].1@),
                )))),
            r matches Err(e) ==> e is Crypto,
            (key@.len() == 32 && (forall|i: int|
                0 <= i < def.entries@.len() ==> entry_decryptable(
                    #[trigger] def.entries@[i],
                    key@,
                ))) ==> r is Ok,
    {
        let ghost decryptable_all = forall|i: int|
            0 <= i < def.entries@.len() ==> entry_decryptable(#[trigger] def.entries@[i], key@);
        let mut out: Vec<(String, String)> = Vec::new();
        let mut i: usize = 0;
        while i < def.entries.len()
            invariant
                i <= def.entries@.len(),
                out@.len() == i,
                decryptable_all == (forall|m: int|
                    0 <= m < def.entries@.len() ==> entry_decryptable(
                        #[trigger] def.entries@[m],
                        key@,
                    )),
                forall|m: int|
                    0 <= m < i ==> ((#[trigger] out@[m]).0@
                        == def.entries@[m].encrypted_filename@ && entry_named(
                        def.entries@[m],
                        key@,
                        encode_utf8(out@[m].1@),
                    )),
            decreases def.entries@.len() - i,
        {
            let e = &def.entries[i];
            let name = match self.decrypt_filename(
                e.encrypted_name.as_str(),
                e.nonce.as_str(),
                key,
            ) {
                Ok(s) => s,
                Err(err) => {
                    proof {
                        if key@.len() == 32 && decryptable_all {
                            assert(entry_decryptable(def.entries@[i as int], key@));
                            let pt = choose|pt: Seq<u8>|
                                valid_utf8(pt) && entry_named(def.entries@[i as int], key@, pt);
                            let nn = choose|nn: Seq<u8>|
                                nn.len() == 12 && encode_utf8(def.entries@[i as int].nonce@)
                                    == b64_padded(nn) && encode_utf8(
                                    def.entries@[i as int].encrypted_name@,
                                ) == b64_padded(seal_of(key@, nn, pt));
                            assert(false);
                        }
                    }
                    return Err(err);
                },
            };
            let pair = (e.encrypted_filename.clone(), name);
            out.push(pair);
            proof {
                assert(entry_named(
                    def.entries@[i as int],
                    key@,
                    encode_utf8(out@[i as int].1@),
                )) by {
                    let nn = choose|nn: Seq<u8>, ct: Seq<u8>|
                        nn.len() == 12 && encode_utf8(def.entries@[i as int].nonce@)
                            == b64_padded(nn) && encode_utf8(
                            def.entries@[i as int].encrypted_name@,
                        ) == b64_padded(ct) && ct == seal_of(
                            key@,
                            nn,
                            encode_utf8(out@[i as int].1@),
                        );
                }
            }
            i = i + 1;
        }
        Ok(out)
    }

    /// Mint a fresh opaque id, seal the display name under the key with a
    /// fresh nonce, and append the entry to the index. Returns the id, which
    /// doubles as the secret record's storage key.
    pub fn add_entry(&self, def: &mut DefFile, name: &str, key: &[u8]) -> (r: RpmResult<String>)
        ensures
            r matches Ok(f) ==> (final(def).entries@.len() == old(def).entries@.len() + 1
                && final(def).entries@.subrange(0, old(def).entries@.len() as int) == old(def).entries@ && filename_wf(f@) && final(def).entries@.last().encrypted_filename@
                == f@ && entry_named(final(def).entries@.last(), key@, encode_utf8(name@))
                && entry_wf(final(def).entries@.last())),
            r is Err ==> *final(def) == *old(def),
            r matches Err(e) ==> e is Crypto,
            key@.len() != 32 ==> r is Err,
            (key@.len() == 32 && encode_utf8(name@).len() <= aead_plaintext_max()) ==> r is Ok,
    {
        let sealed = match self.encrypt_filename(name, key) {
            Ok(p) => p,
            Err(e) => {
                return Err(e);
            },
        };
        let (enc, non) = sealed;
        let fname = fresh_filename();
        let entry = DefFileEntry {
            encrypted_filename: fname.clone(),
            encrypted_name: enc,
            nonce: non,
        };
        def.entries.push(entry);
        proof {
            assert(final(def).entries@.subrange(0, old(def).entries@.len() as int) =~= old(def).entries@);
        }
        Ok(fname)
    }

    /// Re-seal the display name of the entry carrying this storage id under
    /// a fresh nonce. Doing nothing when no entry carries it is deliberate:
    /// absence is not an error here.
    pub fn update_entry(&self, def: &mut DefFile, filename: &str, new_name: &str, key: &[u8])
        -> (r: RpmResult<()>)
        ensures
            find_idx(old(def).entries@, filename@) < 0 ==> (*final(def) == *old(def) && r is Ok),
            r is Err ==> *final(def) == *old(def),
            r matches Err(e) ==> e is Crypto,
            (r is Ok && find_idx(old(def).entries@, filename@) >= 0) ==> (final(def).entries@.len() == old(def).entries@.len() && (forall|i: int|
                (0 <= i < old(def).entries@.len() && i != find_idx(
                    old(def).entries@,
                    filename@,
                )) ==> final(def).entries@[i] == old(def).entries@[i]) && final(def).entries@[find_idx(old(def).entries@, filename@)].encrypted_filename@ == old(def).entries@[find_idx(old(def).entries@, filename@)].encrypted_filename@
                && entry_named(
                final(def).entries@[find_idx(old(def).entries@, filename@)],
                key@,
                encode_utf8(new_name@),
            ) && (entry_wf(old(def).entries@[find_idx(old(def).entries@, filename@)])
                ==> entry_wf(final(def).entries@[find_idx(old(def).entries@, filename@)]))),
            (key@.len() == 32 && encode_utf8(new_name@).len() <= aead_plaintext_max())
                ==> r is Ok,
    {
        proof {
            lemma_find_idx_shape(old(def).entries@, filename@);
        }
        let mut i: usize = 0;
        let mut found: Option<usize> = None;
        while i < def.entries.len()
            invariant
                *def == *old(def),
                i <= def.entries@.len(),
                found matches Some(j) ==> (j < i && def.entries@[j as int].encrypted_filename@
                    == filename@ && (forall|m: int|
                    0 <= m < j ==> (#[trigger] def.entries@[m]).encrypted_filename@
                        != filename@)),
                found is None ==> (forall|m: int|
                    0 <= m < i ==> (#[trigger] def.entries@[m]).encrypted_filename@
                        != filename@),
            decreases def.entries@.len() - i,
        {
            if found.is_none() && str_eq(def.entries[i].encrypted_filename.as_str(), filename) {
                found = Some(i);
            }
            i = i + 1;
        }
        let j = match found {
            Some(j) => j,
            None => {
                return Ok(());
            },
        };
        proof {
            let fi = find_idx(old(def).entries@, filename@);
            if fi < 0 {
                assert(false);
            }
            if fi < j {
                assert(old(def).entries@[fi].encrypted_filename@ == filename@);
                assert(false);
            }
            if fi > j {
                assert(old(def).entries@[j as int].encrypted_filename@ != filename@);
                assert(false);
            }
        }
        let sealed = match self.encrypt_filename(new_name, key) {
            Ok(p) => p,
            Err(e) => {
                return Err(e);
            },
        };
        let (enc, non) = sealed;
        let old_name = def.entries[j].encrypted_filename.clone();
        let entry = DefFileEntry { encrypted_filename: old_name, encrypted_name: enc, nonce: non };
        def.entries.set(j, entry);
        Ok(())
    }

    /// Drop every entry carrying this storage id from the index. The caller
    /// also removes the matching record file; a missing file there is not an
    /// error.
    pub fn delete_entry(&self, def: &mut DefFile, filename: &str)
        ensures
            final(def).entries@ == remove_named(old(def).entries@, filename@),
    {
        let ghost orig = old(def).entries@;
        let mut stack: Vec<DefFileEntry> = Vec::new();
        proof {
            assert(orig.take(orig.len() as int) =~= orig);
        }
        loop
            invariant
                def.entries@.len() + stack@.len() == orig.len(),
                def.entries@ == orig.take(def.entries@.len() as int),
                forall|i: int|
                    0 <= i < stack@.len() ==> #[trigger] stack@[i] == orig[orig.len() - 1 - i],
            ensures
                def.entries@.len() == 0,
                stack@.len() == orig.len(),
                forall|i: int|
                    0 <= i < stack@.len() ==> #[trigger] stack@[i] == orig[orig.len() - 1 - i],
            decreases def.entries@.len(),
        {
            let ghost lv = def.entries@.len() as int;
            let e = match def.entries.pop() {
                Some(e) => e,
                None => {
                    break ;
                },
            };
            proof {
                assert(lv >= 1);
                assert(def.entries@ == orig.take(lv).drop_last());
                assert(e == orig.take(lv).last());
                assert(orig.take(lv).last() == orig.take(lv)[lv - 1]);
                assert(orig.take(lv)[lv - 1] == orig[lv - 1]);
                assert(orig.take(lv).drop_last() =~= orig.take(lv - 1));
            }
            stack.push(e);
        }
        proof {
            assert(def.entries@.len() == 0);
            assert(remove_named(orig.take(0), filename@) =~= Seq::<DefFileEntry>::empty());
        }
        loop
            invariant
                stack@.len() <= orig.len(),
                forall|i: int|
                    0 <= i < stack@.len() ==> #[trigger] stack@[i] == orig[orig.len() - 1 - i],
                def.entries@ == remove_named(
                    orig.take((orig.len() - stack@.len()) as int),
                    filename@,
                ),
            ensures
                stack@.len() == 0,
                def.entries@ == remove_named(
                    orig.take((orig.len() - stack@.len()) as int),
                    filename@,
                ),
            decreases stack@.len(),
        {
            let e = match stack.pop() {
                Some(e) => e,
                None => {
                    break ;
                },
            };
            let ghost k = (orig.len() - stack@.len() - 1) as int;
            proof {
                assert(e == orig[k]);
                lemma_remove_named_push(orig.take(k), orig[k], filename@);
                assert(orig.take(k).push(orig[k]) =~= orig.take(k + 1));
            }
            let keep = !str_eq(e.encrypted_filename.as_str(), filename);
            if keep {
                def.entries.push(e);
            }
        }
        proof {
            assert(orig.take(orig.len() as int) =~= orig);
        }
    }

    /// Find the storage id of the first entry whose sealed display name is
    /// this name; ties go to insertion order, and absence is `None`.
    pub fn find_filename_by_name(&self, def: &DefFile, name: &str, key: &[u8]) -> (r: RpmResult<
        Option<String>,
    >)
        ensures
            r matches Ok(o) ==> (o matches Some(f) ==> (named_idx(
                def.entries@,
                key@,
                encode_utf8(name@),
            ) >= 0 && f@ == def.entries@[named_idx(
                def.entries@,
                key@,
                encode_utf8(name@),
            )].encrypted_filename@)),
            r matches Ok(o) ==> (o is None ==> named_idx(def.entries@, key@, encode_utf8(name@))
                < 0),
            r matches Err(e) ==> e is Crypto,
            (key@.len() == 32 && (forall|i: int|
                0 <= i < def.entries@.len() ==> entry_decryptable(
                    #[trigger] def.entries@[i],
                    key@,
                ))) ==> r is Ok,
    {
        let ghost nb = encode_utf8(name@);
        let ghost decryptable_all = forall|m: int|
            0 <= m < def.entries@.len() ==> entry_decryptable(#[trigger] def.entries@[m], key@);
        let mut i: usize = 0;
        while i < def.entries.len()
            invariant
                nb == encode_utf8(name@),
                i <= def.entries@.len(),
                decryptable_all == (forall|m: int|
                    0 <= m < def.entries@.len() ==> entry_decryptable(
                        #[trigger] def.entries@[m],
                        key@,
                    )),
                forall|m: int|
                    0 <= m < i ==> !entry_named(#[trigger] def.entries@[m], key@, nb),
            decreases def.entries@.len() - i,
        {
            let e = &def.entries[i];
            let s = match self.decrypt_filename(e.encrypted_name.as_str(), e.nonce.as_str(), key)
                {
                Ok(s) => s,
                Err(err) => {
                    proof {
                        if key@.len() == 32 && decryptable_all {
                            assert(entry_decryptable(def.entries@[i as int], key@));
                            let pt = choose|pt: Seq<u8>|
                                valid_utf8(pt) && entry_named(def.entries@[i as int], key@, pt);
                            let nn = choose|nn: Seq<u8>|
                                nn.len() == 12 && encode_utf8(def.entries@[i as int].nonce@)
                                    == b64_padded(nn) && encode_utf8(
                                    def.entries@[i as int].encrypted_name@,
                                ) == b64_padded(seal_of(key@, nn, pt));
                            assert(false);
                        }
                    }
                    return Err(err);
                },
            };
            let hit = str_eq(s.as_str(), name);
            proof {
                if hit {
                    assert(entry_named(def.entries@[i as int], key@, nb)) by {
                        let w = choose|nn: Seq<u8>, ct: Seq<u8>|
                            nn.len() == 12 && encode_utf8(def.entries@[i as int].nonce@)
                                == b64_padded(nn) && encode_utf8(
                                def.entries@[i as int].encrypted_name@,
                            ) == b64_padded(ct) && ct == seal_of(key@, nn, encode_utf8(s@));
                    }
                    lemma_named_idx_shape(def.entries@, key@, nb);
                    let ni = named_idx(def.entries@, key@, nb);
                    if ni < 0 {
                        assert(false);
                    }
                    if ni < i {
                        assert(!entry_named(def.entries@[ni], key@, nb));
                        assert(false);
                    }
                    if ni > i {
                        assert(!entry_named(def.entries@[i as int], key@, nb));
                        assert(false);
                    }
                } else {
                    if entry_named(def.entries@[i as int], key@, nb) {
                        assert(key@.len() == 32);
                        vstd::utf8::encode_utf8_valid_utf8(name@);
                        assert(valid_utf8(nb));
                        assert(nb.len() <= aead_plaintext_max());
                        let nn = choose|nn: Seq<u8>|
                            nn.len() == 12 && encode_utf8(def.entries@[i as int].nonce@)
                                == b64_padded(nn) && encode_utf8(
                                def.entries@[i as int].encrypted_name@,
                            ) == b64_padded(seal_of(key@, nn, nb));
                        assert(nn.len() == 12 && nb.len() <= aead_plaintext_max()
                            && valid_utf8(nb) && encode_utf8(def.entries@[i as int].nonce@)
                            == b64_padded(nn) && encode_utf8(
                            def.entries@[i as int].encrypted_name@,
                        ) == b64_padded(seal_of(key@, nn, nb)));
                        assert(encode_utf8(s@) == nb);
                        lemma_encode_utf8_injective(s@, name@);
                        assert(false);
                    }
                }
            }
            if hit {
                return Ok(Some(e.encrypted_filename.clone()));
            }
            i = i + 1;
        }
        proof {
            lemma_named_idx_shape(def.entries@, key@, nb);
            if named_idx(def.entries@, key@, nb) >= 0 {
                assert(entry_named(def.entries@[named_idx(def.entries@, key@, nb)], key@, nb));
                assert(false);
            }
        }
        Ok(None)
    }
}

/// The serialized record that seals this secret under the key.
pub open spec fn record_for(b: Seq<u8>, key: Seq<u8>, pw: Seq<u8>) -> bool {
    &&& pw.len() <= aead_plaintext_max()
    &&& exists|nn: Seq<u8>|
        nn.len() == 12 && b == json_pwd(b64_padded(seal_of(key, nn, pw)), b64_padded(nn))
}

impl PasswordStorage {
    /// Seal a secret under the key with a fresh nonce into the serialized
    /// record form.
    fn seal_record(&self, password: &str, key: &[u8]) -> (r: RpmResult<Vec<u8>>)
        ensures
            r matches Ok(b) ==> record_for(b@, key@, encode_utf8(password@)),
            r matches Err(e) ==> e is Crypto,
            key@.len() != 32 ==> r is Err,
            (key@.len() == 32 && encode_utf8(password@).len() <= aead_plaintext_max())
                ==> r is Ok,
    {
        let sealed = match self.crypto.encrypt_password(password, key) {
            Ok(p) => p,
            Err(e) => {
                return Err(e);
            },
        };
        let (ct, nonce) = sealed;
        let pf = PasswordFile {
            encrypted_password: b64_encode_std(ct.as_slice()),
            nonce: b64_encode_std(nonce.as_slice()),
        };
        proof {
            lemma_b64_padded_json_safe(ct@);
            lemma_b64_padded_json_safe(nonce@);
        }
        let bytes = serialize_password_file(&pf);
        Ok(bytes)
    }

    /// Seal a secret into a fresh record: returns the minted storage id and
    /// the record file's content.
    pub fn save_password_file(&self, password: &str, key: &[u8]) -> (r: RpmResult<
        (String, Vec<u8>),
    >)
        ensures
            r matches Ok(p) ==> (filename_wf(p.0@) && record_for(
                p.1@,
                key@,
                encode_utf8(password@),
            )),
            r matches Err(e) ==> e is Crypto,
            key@.len() != 32 ==> r is Err,
            (key@.len() == 32 && encode_utf8(password@).len() <= aead_plaintext_max())
                ==> r is Ok,
    {
        let bytes = match self.seal_record(password, key) {
            Ok(b) => b,
            Err(e) => {
                return Err(e);
            },
        };
        let fname = fresh_filename();
        Ok((fname, bytes))
    }

    /// Re-seal a secret with a fresh nonce; the returned content overwrites
    /// the existing record file in place.
    pub fn update_password_file(&self, password: &str, key: &[u8]) -> (r: RpmResult<Vec<u8>>)
        ensures
            r matches Ok(b) ==> record_for(b@, key@, encode_utf8(password@)),
            r matches Err(e) ==> e is Crypto,
            key@.len() != 32 ==> r is Err,
            (key@.len() == 32 && encode_utf8(password@).len() <= aead_plaintext_max())
                ==> r is Ok,
    {
        self.seal_record(password, key)
    }

    /// Open a stored record: parse it, decode its fields and decrypt the
    /// secret. Whatever secret the record was sealed over comes back
    /// unchanged; a malformed record is a Serialization error and a failed
    /// decryption a Crypto error.
    pub fn load_password_file(&self, content: &[u8], key: &[u8]) -> (r: RpmResult<String>)
        ensures
            r matches Ok(s) ==> record_for(content@, key@, encode_utf8(s@)),
            r matches Err(e) ==> ((e is Crypto) || (e is Serialization)),
            key@.len() == 32 ==> (forall|pw: Seq<u8>|
                (pw.len() <= aead_plaintext_max() && valid_utf8(pw) && record_for(
                    content@,
                    key@,
                    pw,
                )) ==> (r matches Ok(s) && encode_utf8(s@) == pw)),
    {
        let p = match parse_password_file(content) {
            Ok(p) => p,
            Err(e) => {
                proof {
                    if key@.len() == 32 {
                        assert forall|pw: Seq<u8>|
                            (pw.len() <= aead_plaintext_max() && valid_utf8(pw) && record_for(
                                content@,
                                key@,
                                pw,
                            )) implies crate::jsoncodec::some_canonical_pwd(content@) by {
                            let nn = choose|nn: Seq<u8>|
                                nn.len() == 12 && content@ == json_pwd(
                                    b64_padded(seal_of(key@, nn, pw)),
                                    b64_padded(nn),
                                );
                            lemma_b64_padded_json_safe(seal_of(key@, nn, pw));
                            lemma_b64_padded_json_safe(nn);
                        }
                    }
                }
                return Err(e);
            },
        };
        let ct = match b64_decode_std(p.encrypted_password.as_str()) {
            Ok(v) => v,
            Err(_) => {
                proof {
                    if key@.len() == 32 {
                        assert forall|pw: Seq<u8>|
                            !(pw.len() <= aead_plaintext_max() && valid_utf8(pw) && record_for(
                                content@,
                                key@,
                                pw,
                            )) by {
                            if pw.len() <= aead_plaintext_max() && valid_utf8(pw) && record_for(
                                content@,
                                key@,
                                pw,
                            ) {
                                let nn = choose|nn: Seq<u8>|
                                    nn.len() == 12 && content@ == json_pwd(
                                        b64_padded(seal_of(key@, nn, pw)),
                                        b64_padded(nn),
                                    );
                                lemma_b64_padded_json_safe(seal_of(key@, nn, pw));
                                lemma_b64_padded_json_safe(nn);
                                assert(crate::jsoncodec::parse_pwd_ok_post(content@, p));
                                assert(json_safe(b64_padded(seal_of(key@, nn, pw))));
                                assert(json_safe(b64_padded(nn)));
                                assert(content@ == json_pwd(
                                    b64_padded(seal_of(key@, nn, pw)),
                                    b64_padded(nn),
                                ));
                                assert(crate::models::pwd_file_view(p).0 == b64_padded(
                                    seal_of(key@, nn, pw),
                                ));
                            }
                        }
                    }
                }
                return Err(RpmError::Crypto("Invalid base64 in encrypted password".to_owned()));
            },
        };
        let nv = match b64_decode_std(p.nonce.as_str()) {
            Ok(v) => v,
            Err(_) => {
                proof {
                    if key@.len() == 32 {
                        assert forall|pw: Seq<u8>|
                            !(pw.len() <= aead_plaintext_max() && valid_utf8(pw) && record_for(
                                content@,
                                key@,
                                pw,
                            )) by {
                            if pw.len() <= aead_plaintext_max() && valid_utf8(pw) && record_for(
                                content@,
                                key@,
                                pw,
                            ) {
                                let nn = choose|nn: Seq<u8>|
                                    nn.len() == 12 && content@ == json_pwd(
                                        b64_padded(seal_of(key@, nn, pw)),
                                        b64_padded(nn),
                                    );
                                lemma_b64_padded_json_safe(seal_of(key@, nn, pw));
                                lemma_b64_padded_json_safe(nn);
                                assert(crate::models::pwd_file_view(p).1 == b64_padded(nn));
                            }
                        }
                    }
                }
                return Err(RpmError::Crypto("Invalid base64 in nonce".to_owned()));
            },
        };
        let res = self.crypto.decrypt_password(ct.as_slice(), nv.as_slice(), key);
        proof {
            if key@.len() == 32 {
                assert forall|pw: Seq<u8>|
                    (pw.len() <= aead_plaintext_max() && valid_utf8(pw) && record_for(
                        content@,
                        key@,
                        pw,
                    )) implies (res matches Ok(s) && encode_utf8(s@) == pw) by {
                    let nn = choose|nn: Seq<u8>|
                        nn.len() == 12 && content@ == json_pwd(
                            b64_padded(seal_of(key@, nn, pw)),
                            b64_padded(nn),
                        );
                    lemma_b64_padded_json_safe(seal_of(key@, nn, pw));
                    lemma_b64_padded_json_safe(nn);
                    assert(crate::models::pwd_file_view(p).0 == b64_padded(
                        seal_of(key@, nn, pw),
                    ) && crate::models::pwd_file_view(p).1 == b64_padded(nn));
                    lemma_b64_padded_injective(ct@, seal_of(key@, nn, pw));
                    lemma_b64_padded_injective(nv@, nn);
                    assert(ct@ == seal_of(key@, nv@, pw));
                }
            }
        }
        match res {
            Ok(s) => {
                proof {
                    assert(record_for(content@, key@, encode_utf8(s@))) by {
                        assert(nv@.len() == 12);
                        assert(content@ == json_pwd(b64_padded(ct@), b64_padded(nv@)));
                        assert(ct@ == seal_of(key@, nv@, encode_utf8(s@)));
                    }
                }
                Ok(s)
            },
            Err(e) => Err(e),
        }
    }
}

/// The record round trip: loading what `save_password_file` or
/// `update_password_file` sealed, under the same key, returns exactly the
/// original secret.
pub proof fn lemma_record_round_trip(
    b: Seq<u8>,
    key: Seq<u8>,
    pw: Seq<char>,
    r2: Result<String, RpmError>,
)
    requires
        key.len() == 32,
        record_for(b, key, encode_utf8(pw)),
        forall|pwb: Seq<u8>|
            (pwb.len() <= aead_plaintext_max() && valid_utf8(pwb) && record_for(b, key, pwb))
                ==> (r2 matches Ok(s) && encode_utf8(s@) == pwb),
    ensures
        r2 matches Ok(s) && s@ == pw,
{
    vstd::utf8::encode_utf8_valid_utf8(pw);
    assert(r2 matches Ok(s) && encode_utf8(s@) == encode_utf8(pw));
    if let Ok(s) = r2 {
        lemma_encode_utf8_injective(s@, pw);
    }
}



/// Adding an entry sealed over a name that no existing entry carries makes
/// it the one `find_filename_by_name` finds: the first entry named so is
/// the appended one.
pub proof fn lemma_add_then_find(
    es: Seq<DefFileEntry>,
    e: DefFileEntry,
    key: Seq<u8>,
    name: Seq<u8>,
)
    requires
        entry_named(e, key, name),
        forall|i: int| 0 <= i < es.len() ==> !entry_named(#[trigger] es[i], key, name),
    ensures
        named_idx(es.push(e), key, name) == es.len(),
    decreases es.len(),
{
    if es.len() == 0 {
        assert(es.push(e)[0] == e);
    } else {
        assert(es.push(e)[0] == es[0]);
        assert(!entry_named(es.push(e)[0], key, name));
        assert(es.push(e).drop_first() =~= es.drop_first().push(e));
        assert(forall|i: int|
            0 <= i < es.drop_first().len() ==> !entry_named(
                #[trigger] es.drop_first()[i],
                key,
                name,
            ));
        lemma_add_then_find(es.drop_first(), e, key, name);
    }
}

/// Removing the storage id that every entry sealed over a name carries
/// leaves no entry sealed over it: `find_filename_by_name` then finds none.
pub proof fn lemma_remove_then_find(
    es: Seq<DefFileEntry>,
    fname: Seq<char>,
    key: Seq<u8>,
    name: Seq<u8>,
)
    requires
        forall|i: int|
            0 <= i < es.len() && entry_named(#[trigger] es[i], key, name) ==> es[i]
                .encrypted_filename@ == fname,
    ensures
        named_idx(remove_named(es, fname), key, name) < 0,
{
    lemma_remove_named_shape(es, fname);
    let rm = remove_named(es, fname);
    assert forall|i: int| 0 <= i < rm.len() implies !entry_named(#[trigger] rm[i], key, name) by {
        let j = choose|j: int| 0 <= j < es.len() && es[j] == rm[i];
        if entry_named(rm[i], key, name) {
            assert(entry_named(es[j], key, name));
        }
    }
    lemma_named_idx_shape(rm, key, name);
    if named_idx(rm, key, name) >= 0 {
        assert(entry_named(rm[named_idx(rm, key, name)], key, name));
        assert(false);
    }
}


} // verus!
