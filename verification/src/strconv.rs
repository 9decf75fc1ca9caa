use vstd::prelude::*;
use vstd::string::StrSliceExecFns;
use vstd::utf8::encode_utf8;
use vstd::utf8::encode_utf8_decode_utf8;
use vstd::utf8::is_leading_byte_width_1;
use vstd::utf8::partial_valid_utf8;
use vstd::utf8::partial_valid_utf8_extend_ascii_block;
use vstd::utf8::valid_utf8;

verus! {

/// Relies on std's `String::from_utf8`: it succeeds exactly on valid UTF-8
/// input and returns the string whose UTF-8 encoding is that input.
#[verifier::external_body]
pub fn bytes_to_string(v: Vec<u8>) -> (r: Result<String, ()>)
    ensures
        r matches Ok(s) ==> valid_utf8(v@) && encode_utf8(s@) == v@,
        r is Err ==> !valid_utf8(v@),
{
    String::from_utf8(v).map_err(|_| ())
}

/// The UTF-8 bytes of a string slice, as an owned vector.
pub fn str_bytes(s: &str) -> (r: Vec<u8>)
    ensures
        r@ == encode_utf8(s@),
{
    s.as_bytes_vec()
}

/// Two strings with the same UTF-8 encoding are the same string.
pub proof fn lemma_encode_utf8_injective(s1: Seq<char>, s2: Seq<char>)
    requires
        encode_utf8(s1) == encode_utf8(s2),
    ensures
        s1 == s2,
{
    encode_utf8_decode_utf8(s1);
    encode_utf8_decode_utf8(s2);
}

/// A sequence of bytes below 0x80 is valid UTF-8 (one ASCII scalar each).
pub proof fn lemma_ascii_bytes_valid_utf8(b: Seq<u8>)
    requires
        forall|i: int| 0 <= i < b.len() ==> b[i] < 0x80,
    ensures
        valid_utf8(b),
{
    assert(b.subrange(0, 0) =~= Seq::<u8>::empty());
    assert(partial_valid_utf8(b, 0));
    assert(forall|i: int| 0 <= i < b.len() ==> #[trigger] is_leading_byte_width_1(b[i]));
    partial_valid_utf8_extend_ascii_block(b, 0, b.len() as int);
    assert(b.subrange(0, b.len() as int) =~= b);
}

/// Compare two byte slices.
pub fn bytes_eq(a: &[u8], b: &[u8]) -> (r: bool)
    ensures
        r == (a@ == b@),
{
    if a.len() != b.len() {
        return false;
    }
    let mut i: usize = 0;
    while i < a.len()
        invariant
            a@.len() == b@.len(),
            i <= a@.len(),
            forall|j: int| 0 <= j < i ==> a@[j] == b@[j],
        decreases a@.len() - i,
    {
        if a[i] != b[i] {
            return false;
        }
        i = i + 1;
    }
    proof {
        assert(a@ =~= b@);
    }
    true
}

/// Compare two string slices by their UTF-8 bytes.
pub fn str_eq(a: &str, b: &str) -> (r: bool)
    ensures
        r == (a@ == b@),
{
    let va = str_bytes(a);
    let vb = str_bytes(b);
    let r = bytes_eq(va.as_slice(), vb.as_slice());
    proof {
        if encode_utf8(a@) == encode_utf8(b@) {
            lemma_encode_utf8_injective(a@, b@);
        }
    }
    r
}


} // verus!
