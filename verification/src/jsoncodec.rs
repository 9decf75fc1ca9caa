use crate::models::def_view;
use crate::models::entries_view;
use crate::models::entry_view;
use crate::models::json_safe;
use crate::models::json_safe_byte;
use crate::models::DefFile;
use crate::models::DefFileEntry;
use crate::models::PasswordFile;
use crate::errors::RpmError;
use crate::errors::RpmResult;
use crate::strconv::str_bytes;
use vstd::prelude::*;

verus! {

/// The bytes that open the serialized index: a brace, the `entries` key and
/// the opening bracket of the array.
pub open spec fn lit_def_prefix() -> Seq<u8> {
    seq![
        123u8, 34u8, 101u8, 110u8, 116u8, 114u8, 105u8, 101u8, 115u8, 34u8, 58u8, 91u8,
    ]
}

/// The bytes that open an entry: a brace, the `encrypted_filename` key and
/// an opening quote.
pub open spec fn lit_entry_k1() -> Seq<u8> {
    seq![
        123u8, 34u8, 101u8, 110u8, 99u8, 114u8, 121u8, 112u8, 116u8, 101u8, 100u8, 95u8, 102u8, 105u8, 108u8,
        101u8, 110u8, 97u8, 109u8, 101u8, 34u8, 58u8, 34u8,
    ]
}

/// The bytes between the first and second field: a closing quote, a comma,
/// the `encrypted_name` key and an opening quote.
pub open spec fn lit_entry_k2() -> Seq<u8> {
    seq![
        34u8, 44u8, 34u8, 101u8, 110u8, 99u8, 114u8, 121u8, 112u8, 116u8, 101u8, 100u8, 95u8, 110u8, 97u8,
        109u8, 101u8, 34u8, 58u8, 34u8,
    ]
}

/// The bytes between the second and third field: a closing quote, a comma,
/// the `nonce` key and an opening quote.
pub open spec fn lit_entry_k3() -> Seq<u8> {
    seq![34u8, 44u8, 34u8, 110u8, 111u8, 110u8, 99u8, 101u8, 34u8, 58u8, 34u8]
}

/// The bytes that close an entry: a quote and a brace.
pub open spec fn lit_entry_end() -> Seq<u8> {
    seq![34u8, 125u8]
}

/// The bytes that close the serialized index: a bracket and a brace.
pub open spec fn lit_def_tail() -> Seq<u8> {
    seq![93u8, 125u8]
}

/// The serialized form of one entry.
pub open spec fn json_entry(f: Seq<u8>, n: Seq<u8>, o: Seq<u8>) -> Seq<u8> {
    lit_entry_k1() + f + lit_entry_k2() + n + lit_entry_k3() + o + lit_entry_end()
}

/// The serialized entry list, comma-separated.
pub open spec fn json_entries(v: Seq<(Seq<u8>, Seq<u8>, Seq<u8>)>) -> Seq<u8>
    decreases v.len(),
{
    if v.len() == 0 {
        Seq::empty()
    } else if v.len() == 1 {
        json_entry(v[0].0, v[0].1, v[0].2)
    } else {
        json_entry(v[0].0, v[0].1, v[0].2) + seq![44u8] + json_entries(v.drop_first())
    }
}

/// The canonical serialized index for a sequence of entry field triples.
pub open spec fn json_def(v: Seq<(Seq<u8>, Seq<u8>, Seq<u8>)>) -> Seq<u8> {
    lit_def_prefix() + json_entries(v) + lit_def_tail()
}

/// All fields of all triples can stand unescaped.
pub open spec fn entries_wf(v: Seq<(Seq<u8>, Seq<u8>, Seq<u8>)>) -> bool {
    forall|i: int|
        0 <= i < v.len() ==> json_safe(#[trigger] v[i].0) && json_safe(v[i].1) && json_safe(
            v[i].2,
        )
}

/// The serialized form of a secret record.
pub open spec fn json_pwd(f: Seq<u8>, n: Seq<u8>) -> Seq<u8> {
    lit_pwd_k1() + f + lit_entry_k3() + n + lit_entry_end()
}

/// The bytes that open a secret record: a brace, the `encrypted_password`
/// key and an opening quote.
pub open spec fn lit_pwd_k1() -> Seq<u8> {
    seq![
        123u8, 34u8, 101u8, 110u8, 99u8, 114u8, 121u8, 112u8, 116u8, 101u8, 100u8, 95u8, 112u8, 97u8, 115u8,
        115u8, 119u8, 111u8, 114u8, 100u8, 34u8, 58u8, 34u8,
    ]
}

/// Appending one triple appends its serialized entry, after a comma when the
/// list was not empty.
pub proof fn lemma_json_entries_push(v: Seq<(Seq<u8>, Seq<u8>, Seq<u8>)>, x: (Seq<u8>, Seq<u8>, Seq<u8>))
    ensures
        v.len() == 0 ==> json_entries(v.push(x)) == json_entry(x.0, x.1, x.2),
        v.len() > 0 ==> json_entries(v.push(x)) == json_entries(v) + seq![44u8] + json_entry(
            x.0,
            x.1,
            x.2,
        ),
    decreases v.len(),
{
    if v.len() == 0 {
        assert(v.push(x)[0] == x);
        assert(json_entries(v.push(x)) =~= json_entry(x.0, x.1, x.2));
    } else {
        assert(v.push(x)[0] == v[0]);
        assert(v.push(x).drop_first() =~= v.drop_first().push(x));
        lemma_json_entries_push(v.drop_first(), x);
        if v.len() == 1 {
            assert(v.drop_first().len() == 0);
            assert(json_entries(v.push(x)) =~= json_entries(v) + seq![44u8] + json_entry(
                x.0,
                x.1,
                x.2,
            ));
        } else {
            assert(json_entries(v.push(x)) =~= json_entries(v) + seq![44u8] + json_entry(
                x.0,
                x.1,
                x.2,
            ));
        }
    }
}

/// Append a byte slice to the output.
pub(crate) fn push_bytes(out: &mut Vec<u8>, b: &[u8])
    ensures
        final(out)@ == old(out)@ + b@,
{
    let mut i: usize = 0;
    while i < b.len()
        invariant
            i <= b.len(),
            out@ == old(out)@ + b@.take(i as int),
        decreases b.len() - i,
    {
        out.push(b[i]);
        proof {
            assert(old(out)@ + b@.take(i as int + 1) =~= (old(out)@ + b@.take(i as int)).push(
                b@[i as int],
            ));
        }
        i = i + 1;
    }
    proof {
        assert(old(out)@ + b@.take(b@.len() as int) =~= old(out)@ + b@);
    }
}

/// Append the UTF-8 bytes of a string to the output.
fn push_str(out: &mut Vec<u8>, s: &str)
    ensures
        final(out)@ == old(out)@ + vstd::utf8::encode_utf8(s@),
{
    let b = str_bytes(s);
    push_bytes(out, b.as_slice());
}

/// The opening bytes of the serialized index, as a vector.
fn def_prefix_vec() -> (r: Vec<u8>)
    ensures
        r@ == lit_def_prefix(),
{
    let mut v: Vec<u8> = Vec::new();
    v.push(123);
    v.push(34);
    v.push(101);
    v.push(110);
    v.push(116);
    v.push(114);
    v.push(105);
    v.push(101);
    v.push(115);
    v.push(34);
    v.push(58);
    v.push(91);
    proof {
        assert(v@ =~= lit_def_prefix());
    }
    v
}

/// The opening bytes of an entry, as a vector.
fn entry_k1_vec() -> (r: Vec<u8>)
    ensures
        r@ == lit_entry_k1(),
{
    let mut v: Vec<u8> = Vec::new();
    v.push(123);
    v.push(34);
    v.push(101);
    v.push(110);
    v.push(99);
    v.push(114);
    v.push(121);
    v.push(112);
    v.push(116);
    v.push(101);
    v.push(100);
    v.push(95);
    v.push(102);
    v.push(105);
    v.push(108);
    v.push(101);
    v.push(110);
    v.push(97);
    v.push(109);
    v.push(101);
    v.push(34);
    v.push(58);
    v.push(34);
    proof {
        assert(v@ =~= lit_entry_k1());
    }
    v
}

/// The bytes between the first and second entry field, as a vector.
fn entry_k2_vec() -> (r: Vec<u8>)
    ensures
        r@ == lit_entry_k2(),
{
    let mut v: Vec<u8> = Vec::new();
    v.push(34);
    v.push(44);
    v.push(34);
    v.push(101);
    v.push(110);
    v.push(99);
    v.push(114);
    v.push(121);
    v.push(112);
    v.push(116);
    v.push(101);
    v.push(100);
    v.push(95);
    v.push(110);
    v.push(97);
    v.push(109);
    v.push(101);
    v.push(34);
    v.push(58);
    v.push(34);
    proof {
        assert(v@ =~= lit_entry_k2());
    }
    v
}

/// The bytes between the second and third entry field, as a vector.
fn entry_k3_vec() -> (r: Vec<u8>)
    ensures
        r@ == lit_entry_k3(),
{
    let mut v: Vec<u8> = Vec::new();
    v.push(34);
    v.push(44);
    v.push(34);
    v.push(110);
    v.push(111);
    v.push(110);
    v.push(99);
    v.push(101);
    v.push(34);
    v.push(58);
    v.push(34);
    proof {
        assert(v@ =~= lit_entry_k3());
    }
    v
}

/// The opening bytes of a serialized secret record, as a vector.
fn pwd_k1_vec() -> (r: Vec<u8>)
    ensures
        r@ == lit_pwd_k1(),
{
    let mut v: Vec<u8> = Vec::new();
    v.push(123);
    v.push(34);
    v.push(101);
    v.push(110);
    v.push(99);
    v.push(114);
    v.push(121);
    v.push(112);
    v.push(116);
    v.push(101);
    v.push(100);
    v.push(95);
    v.push(112);
    v.push(97);
    v.push(115);
    v.push(115);
    v.push(119);
    v.push(111);
    v.push(114);
    v.push(100);
    v.push(34);
    v.push(58);
    v.push(34);
    proof {
        assert(v@ =~= lit_pwd_k1());
    }
    v
}

/// Append the serialized form of one entry.
fn push_entry(out: &mut Vec<u8>, e: &DefFileEntry)
    ensures
        final(out)@ == old(out)@ + json_entry(
            entry_view(*e).0,
            entry_view(*e).1,
            entry_view(*e).2,
        ),
{
    let k1 = entry_k1_vec();
    let k2 = entry_k2_vec();
    let k3 = entry_k3_vec();
    push_bytes(out, k1.as_slice());
    push_str(out, e.encrypted_filename.as_str());
    push_bytes(out, k2.as_slice());
    push_str(out, e.encrypted_name.as_str());
    push_bytes(out, k3.as_slice());
    push_str(out, e.nonce.as_str());
    out.push(34);
    out.push(125);
    proof {
        assert(final(out)@ =~= old(out)@ + json_entry(
            entry_view(*e).0,
            entry_view(*e).1,
            entry_view(*e).2,
        ));
    }
}

/// Serialize the index to its canonical byte form. The canonical form
/// splices field bytes verbatim, so every field must be safe to stand
/// unescaped; the engine only ever builds such fields (opaque ids and
/// base64), and `def_is_wf` checks the condition at run time.
pub fn serialize_def_file(d: &DefFile) -> (r: Vec<u8>)
    requires
        crate::models::def_wf(*d),
    ensures
        r@ == json_def(def_view(*d)),
{
    let mut out = def_prefix_vec();
    let ghost dv = def_view(*d);
    let mut i: usize = 0;
    while i < d.entries.len()
        invariant
            i <= d.entries@.len(),
            dv == def_view(*d),
            dv.len() == d.entries@.len(),
            out@ == lit_def_prefix() + json_entries(dv.take(i as int)),
        decreases d.entries@.len() - i,
    {
        if i > 0 {
            out.push(44);
        }
        push_entry(&mut out, &d.entries[i]);
        proof {
            lemma_json_entries_push(dv.take(i as int), dv[i as int]);
            assert(dv.take(i as int).push(dv[i as int]) =~= dv.take(i as int + 1));
            assert(dv[i as int] == entry_view(d.entries@[i as int]));
            assert(out@ =~= lit_def_prefix() + json_entries(dv.take(i as int + 1)));
        }
        i = i + 1;
    }
    out.push(93);
    out.push(125);
    proof {
        assert(dv.take(dv.len() as int) =~= dv);
        assert(out@ =~= json_def(dv));
    }
    out
}

/// Serialize a secret record to its canonical byte form. As with the index,
/// the fields must be safe to stand unescaped.
pub fn serialize_password_file(p: &PasswordFile) -> (r: Vec<u8>)
    requires
        crate::models::pwd_file_wf(*p),
    ensures
        r@ == json_pwd(
            crate::models::pwd_file_view(*p).0,
            crate::models::pwd_file_view(*p).1,
        ),
{
    let mut out = pwd_k1_vec();
    push_str(&mut out, p.encrypted_password.as_str());
    let k3 = entry_k3_vec();
    push_bytes(&mut out, k3.as_slice());
    push_str(&mut out, p.nonce.as_str());
    out.push(34);
    out.push(125);
    proof {
        assert(out@ =~= json_pwd(
            crate::models::pwd_file_view(*p).0,
            crate::models::pwd_file_view(*p).1,
        ));
    }
    out
}


/// True when the pattern occurs in the input at the position.
pub open spec fn is_match(input: Seq<u8>, pos: int, pat: Seq<u8>) -> bool {
    0 <= pos && pos + pat.len() <= input.len() && input.subrange(pos, pos + pat.len()) == pat
}

/// Matching a concatenation is matching its parts in sequence.
pub proof fn lemma_is_match_concat(input: Seq<u8>, pos: int, a: Seq<u8>, b: Seq<u8>)
    ensures
        is_match(input, pos, a + b) <==> (is_match(input, pos, a) && is_match(
            input,
            pos + a.len(),
            b,
        )),
{
    if is_match(input, pos, a + b) {
        assert(input.subrange(pos, pos + a.len()) =~= a) by {
            assert forall|i: int| 0 <= i < a.len() implies input.subrange(
                pos,
                pos + a.len(),
            )[i] == a[i] by {
                assert(input.subrange(pos, pos + (a + b).len())[i] == (a + b)[i]);
            }
        }
        assert(input.subrange(pos + a.len(), pos + a.len() + b.len()) =~= b) by {
            assert forall|i: int| 0 <= i < b.len() implies input.subrange(
                pos + a.len(),
                pos + a.len() + b.len(),
            )[i] == b[i] by {
                assert(input.subrange(pos, pos + (a + b).len())[a.len() + i] == (a + b)[a.len()
                    + i]);
            }
        }
    }
    if is_match(input, pos, a) && is_match(input, pos + a.len(), b) {
        assert(input.subrange(pos, pos + (a + b).len()) =~= a + b) by {
            assert forall|i: int| 0 <= i < (a + b).len() implies input.subrange(
                pos,
                pos + (a + b).len(),
            )[i] == (a + b)[i] by {
                if i < a.len() {
                    assert(input.subrange(pos, pos + a.len())[i] == a[i]);
                } else {
                    assert(input.subrange(pos + a.len(), pos + a.len() + b.len())[i - a.len()]
                        == b[i - a.len()]);
                }
            }
        }
    }
}

/// A sequence that begins the tail of the input occurs there.
pub proof fn lemma_skip_prefix_match(input: Seq<u8>, pos: int, a: Seq<u8>, x: Seq<u8>)
    requires
        0 <= pos <= input.len(),
        input.skip(pos) == a + x,
    ensures
        is_match(input, pos, a),
{
    assert(input.skip(pos).len() == a.len() + x.len());
    assert(pos + a.len() <= input.len());
    assert(input.subrange(pos, pos + a.len()) =~= a) by {
        assert forall|i: int| 0 <= i < a.len() implies input.subrange(pos, pos + a.len())[i]
            == a[i] by {
            assert(input.skip(pos)[i] == input[pos + i]);
            assert((a + x)[i] == a[i]);
        }
    }
}

/// Dropping a concatenation's first part leaves its second.
pub proof fn lemma_concat_skip(s: Seq<u8>, a: Seq<u8>, x: Seq<u8>)
    requires
        s == a + x,
    ensures
        s.skip(a.len() as int) == x,
{
    assert(s.skip(a.len() as int) =~= x);
}

/// A position where a string scan may stop: a quote, with only safe bytes
/// before it.
pub open spec fn scan_ok(input: Seq<u8>, pos: int, k: int) -> bool {
    pos <= k < input.len() && input[k] == 34 && (forall|j: int|
        pos <= j < k ==> json_safe_byte(#[trigger] input[j]))
}

/// A safe field followed by a quote forces the scan: the quote position
/// exists and is the only one.
pub proof fn lemma_scan_forced(input: Seq<u8>, pos: int, f: Seq<u8>)
    requires
        json_safe(f),
        is_match(input, pos, f),
        pos + f.len() < input.len(),
        input[pos + f.len()] == 34,
    ensures
        scan_ok(input, pos, pos + f.len()),
        forall|k: int| scan_ok(input, pos, k) ==> k == pos + f.len(),
{
    assert forall|j: int| pos <= j < pos + f.len() implies json_safe_byte(input[j]) by {
        assert(input.subrange(pos, pos + f.len())[j - pos] == f[j - pos]);
    }
    assert forall|k: int| scan_ok(input, pos, k) implies k == pos + f.len() by {
        if k < pos + f.len() {
            assert(json_safe_byte(input[k]));
        }
        if k > pos + f.len() {
            assert(json_safe_byte(input[pos + f.len()]));
        }
    }
}

/// Does the pattern occur in the input at the position?
fn match_at(input: &[u8], pos: usize, pat: &[u8]) -> (r: bool)
    ensures
        r == is_match(input@, pos as int, pat@),
{
    if pos > input.len() || input.len() - pos < pat.len() {
        return false;
    }
    let mut i: usize = 0;
    while i < pat.len()
        invariant
            input@.len() <= usize::MAX,
            pos + pat@.len() <= input@.len(),
            i <= pat@.len(),
            forall|j: int| 0 <= j < i ==> input@[pos + j] == pat@[j],
        decreases pat@.len() - i,
    {
        if input[pos + i] != pat[i] {
            proof {
                if is_match(input@, pos as int, pat@) {
                    let ghost gi = i as int;
                    assert(input@.subrange(pos as int, pos + pat@.len())[gi] == pat@[gi]);
                }
            }
            return false;
        }
        i = i + 1;
    }
    proof {
        assert(input@.subrange(pos as int, pos + pat@.len()) =~= pat@);
    }
    true
}

/// Scan a string region: collect bytes up to the next quote, requiring every
/// byte before it to be safe. Returns the bytes and the quote's position.
fn scan_string(input: &[u8], pos: usize) -> (r: Option<(Vec<u8>, usize)>)
    requires
        pos <= input@.len(),
    ensures
        r matches Some(p) ==> pos <= p.1 < input@.len() && scan_ok(input@, pos as int, p.1 as int)
            && p.0@ == input@.subrange(pos as int, p.1 as int) && json_safe(p.0@),
        r is None ==> !(exists|k: int| scan_ok(input@, pos as int, k)),
{
    let mut j: usize = pos;
    let mut out: Vec<u8> = Vec::new();
    while j < input.len()
        invariant
            pos <= j <= input@.len(),
            out@ == input@.subrange(pos as int, j as int),
            forall|m: int| pos <= m < j ==> json_safe_byte(#[trigger] input@[m]),
        decreases input@.len() - j,
    {
        let b = input[j];
        if b == 34 {
            return Some((out, j));
        }
        if !(0x20 <= b && b < 0x7f && b != 92) {
            proof {
                assert forall|k: int| !scan_ok(input@, pos as int, k) by {
                    if pos <= k < input@.len() && input@[k] == 34 {
                        if k < j {
                            assert(json_safe_byte(input@[k]));
                        } else if k == j {
                        } else {
                            if scan_ok(input@, pos as int, k) {
                                assert(json_safe_byte(input@[j as int]));
                            }
                        }
                    }
                }
            }
            return None;
        }
        out.push(b);
        proof {
            assert(input@.subrange(pos as int, j as int).push(input@[j as int]) =~= input@
                .subrange(pos as int, j as int + 1));
        }
        j = j + 1;
    }
    proof {
        assert forall|k: int| !scan_ok(input@, pos as int, k) by {
            if pos <= k < input@.len() && input@[k] == 34 {
                assert(json_safe_byte(input@[k]));
            }
        }
    }
    None
}

/// Occurring as an entry at a position pins down all three fields.
pub proof fn lemma_entry_match_unique(
    input: Seq<u8>,
    pos: int,
    f1: Seq<u8>,
    n1: Seq<u8>,
    o1: Seq<u8>,
    f2: Seq<u8>,
    n2: Seq<u8>,
    o2: Seq<u8>,
)
    requires
        json_safe(f1),
        json_safe(n1),
        json_safe(o1),
        json_safe(f2),
        json_safe(n2),
        json_safe(o2),
        is_match(input, pos, json_entry(f1, n1, o1)),
        is_match(input, pos, json_entry(f2, n2, o2)),
    ensures
        f1 == f2,
        n1 == n2,
        o1 == o2,
{
    lemma_entry_decompose(input, pos, f1, n1, o1);
    lemma_entry_decompose(input, pos, f2, n2, o2);
    let p1 = pos + 23;
    lemma_scan_forced(input, p1, f1);
    lemma_scan_forced(input, p1, f2);
    assert(f1.len() == f2.len());
    assert(f1 == f2) by {
        assert(f1 =~= input.subrange(p1, p1 + f1.len()));
        assert(f2 =~= input.subrange(p1, p1 + f2.len()));
    }
    let p2 = p1 + f1.len() + 20;
    lemma_scan_forced(input, p2, n1);
    lemma_scan_forced(input, p2, n2);
    assert(n1.len() == n2.len());
    assert(n1 == n2) by {
        assert(n1 =~= input.subrange(p2, p2 + n1.len()));
        assert(n2 =~= input.subrange(p2, p2 + n2.len()));
    }
    let p3 = p2 + n1.len() + 11;
    lemma_scan_forced(input, p3, o1);
    lemma_scan_forced(input, p3, o2);
    assert(o1.len() == o2.len());
    assert(o1 == o2) by {
        assert(o1 =~= input.subrange(p3, p3 + o1.len()));
        assert(o2 =~= input.subrange(p3, p3 + o2.len()));
    }
}

/// An entry occurrence breaks into its literals and fields, each in place,
/// with a quote after every field. The offsets accumulate the literals:
/// the first key is 23 bytes, the second 20, the third 11, the closer 2.
pub proof fn lemma_entry_decompose(input: Seq<u8>, pos: int, f: Seq<u8>, n: Seq<u8>, o: Seq<u8>)
    requires
        json_safe(f),
        json_safe(n),
        json_safe(o),
        is_match(input, pos, json_entry(f, n, o)),
    ensures
        is_match(input, pos, lit_entry_k1()),
        is_match(input, pos + 23, f),
        pos + 23 + f.len() < input.len(),
        input[pos + 23 + f.len()] == 34,
        is_match(input, pos + 23 + f.len(), lit_entry_k2()),
        is_match(input, pos + 43 + f.len(), n),
        pos + 43 + f.len() + n.len() < input.len(),
        input[pos + 43 + f.len() + n.len()] == 34,
        is_match(input, pos + 43 + f.len() + n.len(), lit_entry_k3()),
        is_match(input, pos + 54 + f.len() + n.len(), o),
        pos + 54 + f.len() + n.len() + o.len() < input.len(),
        input[pos + 54 + f.len() + n.len() + o.len()] == 34,
        is_match(input, pos + 54 + f.len() + n.len() + o.len(), lit_entry_end()),
{
    let a1 = lit_entry_k1();
    let a2 = lit_entry_k1() + f;
    let a3 = a2 + lit_entry_k2();
    let a4 = a3 + n;
    let a5 = a4 + lit_entry_k3();
    let a6 = a5 + o;
    assert(a1.len() == 23 && lit_entry_k2().len() == 20 && lit_entry_k3().len() == 11
        && lit_entry_end().len() == 2);
    assert(json_entry(f, n, o) == a6 + lit_entry_end());
    lemma_is_match_concat(input, pos, a6, lit_entry_end());
    lemma_is_match_concat(input, pos, a5, o);
    lemma_is_match_concat(input, pos, a4, lit_entry_k3());
    lemma_is_match_concat(input, pos, a3, n);
    lemma_is_match_concat(input, pos, a2, lit_entry_k2());
    lemma_is_match_concat(input, pos, a1, f);
    assert(input.subrange(pos + a2.len(), pos + a3.len())[0] == lit_entry_k2()[0]);
    assert(input[pos + a2.len()] == 34);
    assert(input.subrange(pos + a4.len(), pos + a5.len())[0] == lit_entry_k3()[0]);
    assert(input[pos + a4.len()] == 34);
    assert(input.subrange(pos + a6.len(), pos + a6.len() + 2)[0] == lit_entry_end()[0]);
    assert(input[pos + a6.len()] == 34);
}


/// The closing bytes of the serialized index, as a vector.
fn def_tail_vec() -> (r: Vec<u8>)
    ensures
        r@ == lit_def_tail(),
{
    let mut v: Vec<u8> = Vec::new();
    v.push(93);
    v.push(125);
    proof {
        assert(v@ =~= lit_def_tail());
    }
    v
}

/// A nonempty list serializes as its first entry, then a comma and the rest
/// when more follow.
proof fn lemma_json_entries_head(v: Seq<(Seq<u8>, Seq<u8>, Seq<u8>)>)
    requires
        v.len() >= 1,
    ensures
        v.len() == 1 ==> json_entries(v) == json_entry(v[0].0, v[0].1, v[0].2),
        v.len() > 1 ==> json_entries(v) == json_entry(v[0].0, v[0].1, v[0].2) + seq![44u8]
            + json_entries(v.drop_first()),
{
}

/// A longer prefix of the input is the shorter prefix plus the bytes
/// between.
proof fn lemma_take_extend(s: Seq<u8>, a: int, b: int)
    requires
        0 <= a <= b <= s.len(),
    ensures
        s.take(b) == s.take(a) + s.subrange(a, b),
{
    assert(s.take(b) =~= s.take(a) + s.subrange(a, b));
}

/// Consuming a leading piece of the tail advances the tail.
proof fn lemma_skip_advance(s: Seq<u8>, p: int, a: Seq<u8>, x: Seq<u8>)
    requires
        0 <= p <= s.len(),
        s.skip(p) == a + x,
    ensures
        p + a.len() <= s.len(),
        s.skip(p + a.len()) == x,
{
    assert(s.skip(p).len() == s.len() - p);
    assert(s.skip(p + a.len()) =~= x) by {
        assert forall|i: int| 0 <= i < x.len() implies s.skip(p + a.len())[i] == x[i] by {
            assert(s.skip(p)[a.len() + i] == s[p + a.len() + i]);
            assert(s.skip(p)[a.len() + i] == (a + x)[a.len() + i]);
            assert(s.skip(p + a.len())[i] == s[p + a.len() + i]);
        }
    }
}


/// One serialized entry with safe fields occurs at the position.
pub open spec fn entry_at(input: Seq<u8>, pos: int, e: DefFileEntry, end: int) -> bool {
    &&& pos < end <= input.len()
    &&& crate::models::entry_wf(e)
    &&& input.subrange(pos, end) == json_entry(entry_view(e).0, entry_view(e).1, entry_view(e).2)
}

/// No serialized entry with safe fields occurs at the position.
pub open spec fn no_entry_at(input: Seq<u8>, pos: int) -> bool {
    forall|f: Seq<u8>, n: Seq<u8>, o: Seq<u8>|
        json_safe(f) && json_safe(n) && json_safe(o) ==> !is_match(
            input,
            pos,
            #[trigger] json_entry(f, n, o),
        )
}

/// The input is the canonical serialization of some index with safe fields.
pub open spec fn some_canonical_def(input: Seq<u8>) -> bool {
    exists|v: Seq<(Seq<u8>, Seq<u8>, Seq<u8>)>| entries_wf(v) && input == #[trigger] json_def(v)
}

/// What a successful index parse means: the input is the canonical
/// serialization of the result, and of nothing else.
pub open spec fn parse_def_ok_post(input: Seq<u8>, d: DefFile) -> bool {
    &&& input == json_def(def_view(d))
    &&& crate::models::def_wf(d)
    &&& forall|v: Seq<(Seq<u8>, Seq<u8>, Seq<u8>)>|
        entries_wf(v) && input == #[trigger] json_def(v) ==> def_view(d) == v
}

/// Parse one serialized entry at the position. Success consumes exactly the

/// entry's serialization; failure means no entry with safe fields occurs
/// there.
#[verifier::rlimit(100)]
fn parse_entry(input: &[u8], pos: usize) -> (r: Option<(DefFileEntry, usize)>)
    requires
        pos <= input@.len(),
    ensures
        r matches Some(p) ==> entry_at(input@, pos as int, p.0, p.1 as int),
        r is None ==> no_entry_at(input@, pos as int),
{
    let ilen = input.len();
    let k1 = entry_k1_vec();
    let k2 = entry_k2_vec();
    let k3 = entry_k3_vec();
    if !match_at(input, pos, k1.as_slice()) {
        proof {
            assert forall|f: Seq<u8>, n: Seq<u8>, o: Seq<u8>|
                json_safe(f) && json_safe(n) && json_safe(o) implies !is_match(
                input@,
                pos as int,
                json_entry(f, n, o),
            ) by {
                if is_match(input@, pos as int, json_entry(f, n, o)) {
                    lemma_entry_decompose(input@, pos as int, f, n, o);
                }
            }
        }
        return None;
    }
    let p1 = pos + 23;
    let sf = scan_string(input, p1);
    let (fb, q1) = match sf {
        Some(p) => p,
        None => {
            proof {
                assert forall|f: Seq<u8>, n: Seq<u8>, o: Seq<u8>|
                    json_safe(f) && json_safe(n) && json_safe(o) implies !is_match(
                    input@,
                    pos as int,
                    json_entry(f, n, o),
                ) by {
                    if is_match(input@, pos as int, json_entry(f, n, o)) {
                        lemma_entry_decompose(input@, pos as int, f, n, o);
                        lemma_scan_forced(input@, p1 as int, f);
                    }
                }
            }
            return None;
        },
    };
    if !match_at(input, q1, k2.as_slice()) {
        proof {
            assert forall|f: Seq<u8>, n: Seq<u8>, o: Seq<u8>|
                json_safe(f) && json_safe(n) && json_safe(o) implies !is_match(
                input@,
                pos as int,
                json_entry(f, n, o),
            ) by {
                if is_match(input@, pos as int, json_entry(f, n, o)) {
                    lemma_entry_decompose(input@, pos as int, f, n, o);
                    lemma_scan_forced(input@, p1 as int, f);
                }
            }
        }
        return None;
    }
    let p2 = q1 + 20;
    let sn = scan_string(input, p2);
    let (nb, q2) = match sn {
        Some(p) => p,
        None => {
            proof {
                assert forall|f: Seq<u8>, n: Seq<u8>, o: Seq<u8>|
                    json_safe(f) && json_safe(n) && json_safe(o) implies !is_match(
                    input@,
                    pos as int,
                    json_entry(f, n, o),
                ) by {
                    if is_match(input@, pos as int, json_entry(f, n, o)) {
                        lemma_entry_decompose(input@, pos as int, f, n, o);
                        lemma_scan_forced(input@, p1 as int, f);
                        lemma_scan_forced(input@, p2 as int, n);
                    }
                }
            }
            return None;
        },
    };
    if !match_at(input, q2, k3.as_slice()) {
        proof {
            assert forall|f: Seq<u8>, n: Seq<u8>, o: Seq<u8>|
                json_safe(f) && json_safe(n) && json_safe(o) implies !is_match(
                input@,
                pos as int,
                json_entry(f, n, o),
            ) by {
                if is_match(input@, pos as int, json_entry(f, n, o)) {
                    lemma_entry_decompose(input@, pos as int, f, n, o);
                    lemma_scan_forced(input@, p1 as int, f);
                    lemma_scan_forced(input@, p2 as int, n);
                }
            }
        }
        return None;
    }
    let p3 = q2 + 11;
    let so = scan_string(input, p3);
    let (ob, q3) = match so {
        Some(p) => p,
        None => {
            proof {
                assert forall|f: Seq<u8>, n: Seq<u8>, o: Seq<u8>|
                    json_safe(f) && json_safe(n) && json_safe(o) implies !is_match(
                    input@,
                    pos as int,
                    json_entry(f, n, o),
                ) by {
                    if is_match(input@, pos as int, json_entry(f, n, o)) {
                        lemma_entry_decompose(input@, pos as int, f, n, o);
                        lemma_scan_forced(input@, p1 as int, f);
                        lemma_scan_forced(input@, p2 as int, n);
                        lemma_scan_forced(input@, p3 as int, o);
                    }
                }
            }
            return None;
        },
    };
    if !(q3 + 1 < input.len() && input[q3 + 1] == 125) {
        proof {
            assert forall|f: Seq<u8>, n: Seq<u8>, o: Seq<u8>|
                json_safe(f) && json_safe(n) && json_safe(o) implies !is_match(
                input@,
                pos as int,
                json_entry(f, n, o),
            ) by {
                if is_match(input@, pos as int, json_entry(f, n, o)) {
                    lemma_entry_decompose(input@, pos as int, f, n, o);
                    lemma_scan_forced(input@, p1 as int, f);
                    lemma_scan_forced(input@, p2 as int, n);
                    lemma_scan_forced(input@, p3 as int, o);
                    let e0 = pos + 54 + f.len() + n.len() + o.len();
                    assert(input@.subrange(e0, e0 + 2)[1] == lit_entry_end()[1]);
                    assert(input@[e0 + 1] == 125);
                }
            }
        }
        return None;
    }
    let end = q3 + 2;
    let fs = match crate::strconv::bytes_to_string(fb) {
        Ok(x) => x,
        Err(_) => {
            proof {
                crate::strconv::lemma_ascii_bytes_valid_utf8(
                    input@.subrange(p1 as int, q1 as int),
                );
                assert(false);
            }
            return None;
        },
    };
    let ns = match crate::strconv::bytes_to_string(nb) {
        Ok(x) => x,
        Err(_) => {
            proof {
                crate::strconv::lemma_ascii_bytes_valid_utf8(
                    input@.subrange(p2 as int, q2 as int),
                );
                assert(false);
            }
            return None;
        },
    };
    let os = match crate::strconv::bytes_to_string(ob) {
        Ok(x) => x,
        Err(_) => {
            proof {
                crate::strconv::lemma_ascii_bytes_valid_utf8(
                    input@.subrange(p3 as int, q3 as int),
                );
                assert(false);
            }
            return None;
        },
    };
    let e = DefFileEntry { encrypted_filename: fs, encrypted_name: ns, nonce: os };
    proof {
        let gi = input@;
        let gp = pos as int;
        let fv = entry_view(e).0;
        let nv = entry_view(e).1;
        let ov = entry_view(e).2;
        assert(fv == gi.subrange(p1 as int, q1 as int));
        assert(nv == gi.subrange(p2 as int, q2 as int));
        assert(ov == gi.subrange(p3 as int, q3 as int));
        let m1 = lit_entry_k1();
        let m2 = m1 + fv;
        let m3 = m2 + lit_entry_k2();
        let m4 = m3 + nv;
        let m5 = m4 + lit_entry_k3();
        let m6 = m5 + ov;
        assert(is_match(gi, p1 as int, fv)) by {
            assert(gi.subrange(p1 as int, p1 + fv.len()) =~= fv);
        }
        assert(is_match(gi, p2 as int, nv)) by {
            assert(gi.subrange(p2 as int, p2 + nv.len()) =~= nv);
        }
        assert(is_match(gi, p3 as int, ov)) by {
            assert(gi.subrange(p3 as int, p3 + ov.len()) =~= ov);
        }
        assert(is_match(gi, q3 as int, lit_entry_end())) by {
            assert(gi.subrange(q3 as int, q3 + 2) =~= lit_entry_end());
        }
        lemma_is_match_concat(gi, gp, m1, fv);
        lemma_is_match_concat(gi, gp, m2, lit_entry_k2());
        lemma_is_match_concat(gi, gp, m3, nv);
        lemma_is_match_concat(gi, gp, m4, lit_entry_k3());
        lemma_is_match_concat(gi, gp, m5, ov);
        lemma_is_match_concat(gi, gp, m6, lit_entry_end());
        assert(json_entry(fv, nv, ov) == m6 + lit_entry_end());
        assert(gi.subrange(gp, end as int) == json_entry(fv, nv, ov));
    }
    Some((e, end))
}

/// A comma byte when entries precede, nothing otherwise.
pub open spec fn maybe_comma(n: int) -> Seq<u8> {
    if n > 0 {
        seq![44u8]
    } else {
        Seq::empty()
    }
}

/// What the index parser has consumed so far: the prefix, the serialized
/// entries read, and the comma that announced another entry.
pub open spec fn def_consumed_inv(input: Seq<u8>, pos: int, es: Seq<DefFileEntry>) -> bool {
    input.take(pos) == lit_def_prefix() + json_entries(entries_view(es)) + maybe_comma(
        es.len() as int,
    )
}

/// Any index the input canonically serializes agrees with the entries read
/// so far and continues with its remaining entries at the position.
pub open spec fn def_witness_inv(input: Seq<u8>, pos: int, es: Seq<DefFileEntry>) -> bool {
    forall|v: Seq<(Seq<u8>, Seq<u8>, Seq<u8>)>|
        entries_wf(v) && input == #[trigger] json_def(v) ==> (es.len() < v.len()
            && entries_view(es) == v.take(es.len() as int) && input.skip(pos) == json_entries(
            v.skip(es.len() as int),
        ) + lit_def_tail())
}

/// Parse the canonical serialized index. Success returns exactly the index
/// whose serialization is the input; failure means the input is not the
/// canonical serialization of any index with unescaped fields.
#[verifier::rlimit(100)]
pub fn parse_def_file(input: &[u8]) -> (r: RpmResult<DefFile>)
    ensures
        r matches Ok(d) ==> parse_def_ok_post(input@, d),
        r matches Err(e) ==> ((e is Serialization) && !some_canonical_def(input@)),
{
    let ilen = input.len();
    let prefix = def_prefix_vec();
    let tail = def_tail_vec();
    if !match_at(input, 0, prefix.as_slice()) {
        proof {
            assert forall|v: Seq<(Seq<u8>, Seq<u8>, Seq<u8>)>|
                entries_wf(v) && input@ == #[trigger] json_def(v) implies false by {
                assert(json_def(v) =~= lit_def_prefix() + (json_entries(v) + lit_def_tail()));
                assert(input@.subrange(0, input@.len() as int) =~= input@);
                assert(is_match(input@, 0, input@));
                lemma_is_match_concat(input@, 0, lit_def_prefix(), json_entries(v)
                    + lit_def_tail());
            }
        }
        return Err(RpmError::Serialization("malformed index".to_owned()));
    }
    if match_at(input, 12, tail.as_slice()) && input.len() == 14 {
        let d = DefFile { entries: Vec::new() };
        proof {
            assert(def_view(d) =~= Seq::<(Seq<u8>, Seq<u8>, Seq<u8>)>::empty());
            assert(json_entries(def_view(d)) == Seq::<u8>::empty());
            assert(input@ =~= json_def(def_view(d))) by {
                assert(json_def(def_view(d)).len() == 14);
                assert forall|i: int| 0 <= i < 14 implies input@[i] == json_def(def_view(d))[i]
                    by {
                    if i < 12 {
                        assert(input@.subrange(0, 12)[i] == lit_def_prefix()[i]);
                    } else {
                        assert(input@.subrange(12, 14)[i - 12] == lit_def_tail()[i - 12]);
                    }
                }
            }
            assert forall|v: Seq<(Seq<u8>, Seq<u8>, Seq<u8>)>|
                entries_wf(v) && input@ == #[trigger] json_def(v) implies def_view(d) == v by {
                if v.len() > 0 {
                    lemma_json_entries_head(v);
                    assert(json_entries(v).len() >= 56) by {
                        assert(json_entry(v[0].0, v[0].1, v[0].2).len() >= 56);
                        if v.len() > 1 {
                            assert(json_entries(v).len() >= json_entry(
                                v[0].0,
                                v[0].1,
                                v[0].2,
                            ).len());
                        }
                    }
                    assert(input@.len() >= 12 + 56 + 2);
                    assert(false);
                }
                assert(def_view(d) =~= v);
            }
        }
        return Ok(d);
    }
    let mut entries: Vec<DefFileEntry> = Vec::new();
    let mut pos: usize = 12;
    proof {
        assert(input@.take(12) == lit_def_prefix()) by {
            assert(input@.subrange(0, 12) == prefix@);
            assert(input@.take(12) =~= input@.subrange(0, 12));
        }
        assert(entries_view(entries@) =~= Seq::<(Seq<u8>, Seq<u8>, Seq<u8>)>::empty());
        assert(def_consumed_inv(input@, 12, entries@)) by {
            assert(input@.take(12) =~= lit_def_prefix() + json_entries(entries_view(entries@))
                + maybe_comma(0));
        }
        assert forall|v: Seq<(Seq<u8>, Seq<u8>, Seq<u8>)>|
            entries_wf(v) && input@ == #[trigger] json_def(v) implies (entries@.len() < v.len()
            && entries_view(entries@) == v.take(entries@.len() as int) && input@.skip(12)
            == json_entries(v.skip(entries@.len() as int)) + lit_def_tail()) by {
            assert(json_def(v) =~= lit_def_prefix() + (json_entries(v) + lit_def_tail()));
            lemma_concat_skip(input@, lit_def_prefix(), json_entries(v) + lit_def_tail());
            if v.len() == 0 {
                assert(input@.skip(12) =~= lit_def_tail());
                assert(input@.len() == 14);
                assert(input@.subrange(12, 14) =~= input@.skip(12));
                assert(is_match(input@, 12, lit_def_tail()));
                assert(false);
            }
            assert(v.skip(0) =~= v);
            assert(v.take(0) =~= entries_view(entries@));
        }
        assert(def_witness_inv(input@, 12, entries@));
    }
    loop
        invariant
            tail@ == lit_def_tail(),
            12 <= pos <= input@.len(),
            input@.len() <= usize::MAX,
            forall|i: int|
                0 <= i < entries@.len() ==> crate::models::entry_wf(#[trigger] entries@[i]),
            def_consumed_inv(input@, pos as int, entries@),
            def_witness_inv(input@, pos as int, entries@),
        decreases input@.len() - pos,
    {
        let ghost old_entries = entries@;
        let ghost old_pos = pos as int;
        let pr = parse_entry(input, pos);
        let (e, newpos) = match pr {
            Some(p) => p,
            None => {
                proof {
                    assert forall|v: Seq<(Seq<u8>, Seq<u8>, Seq<u8>)>|
                        entries_wf(v) && input@ == #[trigger] json_def(v) implies false by {
                        let k = old_entries.len() as int;
                        let wk = v.skip(k);
                        lemma_json_entries_head(wk);
                        let t0 = wk[0];
                        let je = json_entry(t0.0, t0.1, t0.2);
                        if wk.len() == 1 {
                            assert(input@.skip(old_pos) =~= je + lit_def_tail());
                            lemma_skip_prefix_match(input@, old_pos, je, lit_def_tail());
                        } else {
                            let rest = seq![44u8] + json_entries(wk.drop_first())
                                + lit_def_tail();
                            assert(input@.skip(old_pos) =~= je + rest);
                            lemma_skip_prefix_match(input@, old_pos, je, rest);
                        }
                        assert(t0 == v[k]);
                        assert(json_safe(t0.0) && json_safe(t0.1) && json_safe(t0.2));
                    }
                }
                return Err(RpmError::Serialization("malformed index entry".to_owned()));
            },
        };
        entries.push(e);
        pos = newpos;
        proof {
            lemma_take_extend(input@, old_pos, pos as int);
            lemma_json_entries_push(entries_view(old_entries), entry_view(e));
            assert(entries_view(entries@) =~= entries_view(old_entries).push(entry_view(e)));
            assert(input@.take(pos as int) =~= lit_def_prefix() + json_entries(
                entries_view(entries@),
            ) + Seq::<u8>::empty());
            assert forall|v: Seq<(Seq<u8>, Seq<u8>, Seq<u8>)>|
                entries_wf(v) && input@ == #[trigger] json_def(v) implies (entries_view(
                entries@,
            ) == v.take(entries@.len() as int) && (entries@.len() < v.len() ==> input@.skip(
                pos as int,
            ) == seq![44u8] + json_entries(v.skip(entries@.len() as int)) + lit_def_tail())
                && (entries@.len() >= v.len() ==> (entries@.len() == v.len() && input@.skip(
                pos as int,
            ) == lit_def_tail()))) by {
                let k = old_entries.len() as int;
                let wk = v.skip(k);
                lemma_json_entries_head(wk);
                let t0 = wk[0];
                let je = json_entry(t0.0, t0.1, t0.2);
                let rest: Seq<u8> = if wk.len() == 1 {
                    lit_def_tail()
                } else {
                    seq![44u8] + json_entries(wk.drop_first()) + lit_def_tail()
                };
                assert(input@.skip(old_pos) =~= je + rest);
                lemma_skip_prefix_match(input@, old_pos, je, rest);
                assert(t0 == v[k]);
                lemma_entry_match_unique(
                    input@,
                    old_pos,
                    entry_view(e).0,
                    entry_view(e).1,
                    entry_view(e).2,
                    t0.0,
                    t0.1,
                    t0.2,
                );
                assert(je.len() == json_entry(
                    entry_view(e).0,
                    entry_view(e).1,
                    entry_view(e).2,
                ).len());
                assert(pos as int == old_pos + je.len());
                lemma_skip_advance(input@, old_pos, je, rest);
                assert(entries_view(entries@) =~= v.take(entries@.len() as int)) by {
                    assert(entries_view(old_entries) == v.take(k));
                    assert(entry_view(e) == t0);
                    assert forall|i: int|
                        0 <= i < entries@.len() implies entries_view(entries@)[i] == v.take(
                        entries@.len() as int,
                    )[i] by {
                        if i < k {
                            assert(v.take(k)[i] == v[i]);
                        }
                    }
                }
                assert(wk.drop_first() =~= v.skip(k + 1));
                if wk.len() == 1 {
                    assert(input@.skip(pos as int) == lit_def_tail());
                    assert(entries@.len() == v.len());
                } else {
                    assert(input@.skip(pos as int) =~= seq![44u8] + json_entries(v.skip(k + 1))
                        + lit_def_tail());
                }
            }
        }
        let has_comma = pos < input.len() && input[pos] == 44;
        if has_comma {
            proof {
                assert forall|v: Seq<(Seq<u8>, Seq<u8>, Seq<u8>)>|
                    entries_wf(v) && input@ == #[trigger] json_def(v) implies (entries@.len()
                    < v.len() && input@.skip(pos as int + 1) == json_entries(
                    v.skip(entries@.len() as int),
                ) + lit_def_tail()) by {
                    if entries@.len() >= v.len() {
                        assert(input@.skip(pos as int)[0] == lit_def_tail()[0]);
                        assert(input@[pos as int] == 93);
                    }
                    let rest2 = json_entries(v.skip(entries@.len() as int)) + lit_def_tail();
                    assert(input@.skip(pos as int) =~= seq![44u8] + rest2);
                    lemma_skip_advance(input@, pos as int, seq![44u8], rest2);
                }
                assert(def_witness_inv(input@, pos as int + 1, entries@));
                assert(input@.take(pos as int + 1) =~= lit_def_prefix() + json_entries(
                    entries_view(entries@),
                ) + maybe_comma(entries@.len() as int)) by {
                    lemma_take_extend(input@, pos as int, pos as int + 1);
                    assert(input@.subrange(pos as int, pos as int + 1) =~= seq![44u8]);
                }
                assert(def_consumed_inv(input@, pos as int + 1, entries@));
            }
            pos = pos + 1;
        } else {
            let is_tail = match_at(input, pos, tail.as_slice());
            if is_tail && input.len() - pos == 2 {
                let d = DefFile { entries };
                proof {
                    assert(input@ =~= json_def(def_view(d))) by {
                        lemma_take_extend(input@, pos as int, input@.len() as int);
                        assert(input@.take(input@.len() as int) =~= input@);
                        assert(tail@.len() == 2);
                        assert(is_match(input@, pos as int, lit_def_tail()));
                        assert(input@.subrange(pos as int, pos as int + 2) == lit_def_tail());
                        assert(input@.len() == pos + 2);
                    }
                    assert forall|v: Seq<(Seq<u8>, Seq<u8>, Seq<u8>)>|
                        entries_wf(v) && input@ == #[trigger] json_def(v) implies def_view(d)
                        == v by {
                        if d.entries@.len() < v.len() {
                            assert(input@.skip(pos as int) == seq![44u8] + json_entries(
                                v.skip(d.entries@.len() as int),
                            ) + lit_def_tail());
                            assert(input@.skip(pos as int).len() == 2);
                            assert(json_entries(v.skip(d.entries@.len() as int)).len() >= 56)
                                by {
                                let wk = v.skip(d.entries@.len() as int);
                                lemma_json_entries_head(wk);
                                assert(json_entry(wk[0].0, wk[0].1, wk[0].2).len() >= 56);
                                if wk.len() > 1 {
                                    assert(json_entries(wk).len() >= json_entry(
                                        wk[0].0,
                                        wk[0].1,
                                        wk[0].2,
                                    ).len());
                                }
                            }
                            assert(false);
                        }
                        assert(def_view(d) =~= v) by {
                            assert(entries_view(d.entries@) == v.take(d.entries@.len() as int));
                            assert(v.take(v.len() as int) =~= v);
                        }
                    }
                }
                return Ok(d);
            }
            proof {
                assert forall|v: Seq<(Seq<u8>, Seq<u8>, Seq<u8>)>|
                    entries_wf(v) && input@ == #[trigger] json_def(v) implies false by {
                    if entries@.len() < v.len() {
                        let rest3 = json_entries(v.skip(entries@.len() as int))
                            + lit_def_tail();
                        assert(input@.skip(pos as int) =~= seq![44u8] + rest3);
                        assert((seq![44u8] + rest3)[0] == 44);
                        assert(input@.skip(pos as int).len() >= 1);
                        assert(input@.skip(pos as int)[0] == input@[pos as int]);
                        assert(input@[pos as int] == 44);
                        assert(pos < input@.len());
                    } else {
                        assert(input@.skip(pos as int) == lit_def_tail());
                        assert(input@.skip(pos as int).len() == 2);
                        assert(input@.len() == pos + 2);
                        assert(input@.subrange(pos as int, pos as int + 2) =~= input@.skip(
                            pos as int,
                        ));
                        assert(is_match(input@, pos as int, lit_def_tail()));
                    }
                }
            }
            return Err(RpmError::Serialization("malformed index".to_owned()));
        }
    }
}


/// The input is the canonical serialization of some secret record with safe
/// fields.
pub open spec fn some_canonical_pwd(input: Seq<u8>) -> bool {
    exists|f: Seq<u8>, n: Seq<u8>| json_safe(f) && json_safe(n) && input == #[trigger] json_pwd(
        f,
        n,
    )
}

/// What a successful record parse means: the input is the canonical
/// serialization of the result, and of nothing else.
pub open spec fn parse_pwd_ok_post(input: Seq<u8>, p: PasswordFile) -> bool {
    &&& input == json_pwd(
        crate::models::pwd_file_view(p).0,
        crate::models::pwd_file_view(p).1,
    )
    &&& crate::models::pwd_file_wf(p)
    &&& forall|f: Seq<u8>, n: Seq<u8>|
        json_safe(f) && json_safe(n) && input == #[trigger] json_pwd(f, n) ==> (
        crate::models::pwd_file_view(p).0 == f && crate::models::pwd_file_view(p).1 == n)
}

/// A record serialization breaks into its literals and fields, each in
/// place, with a quote after each field. The opening key is 23 bytes, the
/// separator 11, the closer 2.
proof fn lemma_pwd_decompose(input: Seq<u8>, f: Seq<u8>, n: Seq<u8>)
    requires
        json_safe(f),
        json_safe(n),
        input == json_pwd(f, n),
    ensures
        is_match(input, 0, lit_pwd_k1()),
        is_match(input, 23, f),
        ((23 + f.len()) as int) < input.len(),
        input[23 + f.len() as int] == 34,
        is_match(input, 23 + f.len() as int, lit_entry_k3()),
        is_match(input, 34 + f.len() as int, n),
        ((34 + f.len() + n.len()) as int) < input.len(),
        input[34 + f.len() as int + n.len() as int] == 34,
        is_match(input, 34 + f.len() as int + n.len() as int, lit_entry_end()),
        input.len() == 36 + f.len() + n.len(),
{
    let a1 = lit_pwd_k1();
    let a2 = a1 + f;
    let a3 = a2 + lit_entry_k3();
    let a4 = a3 + n;
    assert(a1.len() == 23 && lit_entry_k3().len() == 11 && lit_entry_end().len() == 2);
    assert(json_pwd(f, n) == a4 + lit_entry_end());
    assert(input.subrange(0, input.len() as int) =~= input);
    assert(is_match(input, 0, a4 + lit_entry_end()));
    lemma_is_match_concat(input, 0, a4, lit_entry_end());
    lemma_is_match_concat(input, 0, a3, n);
    lemma_is_match_concat(input, 0, a2, lit_entry_k3());
    lemma_is_match_concat(input, 0, a1, f);
    assert(input.subrange(a2.len() as int, a3.len() as int)[0] == lit_entry_k3()[0]);
    assert(input[a2.len() as int] == 34);
    assert(input.subrange(a4.len() as int, a4.len() as int + 2)[0] == lit_entry_end()[0]);
    assert(input[a4.len() as int] == 34);
}

/// Parse the canonical serialized secret record. Success returns exactly the
/// record whose serialization is the input; failure means the input is not
/// the canonical serialization of any record with unescaped fields.
#[verifier::rlimit(100)]
pub fn parse_password_file(input: &[u8]) -> (r: RpmResult<PasswordFile>)
    ensures
        r matches Ok(rec) ==> parse_pwd_ok_post(input@, rec),
        r matches Err(e) ==> ((e is Serialization) && !some_canonical_pwd(input@)),
{
    let ilen = input.len();
    let pk1 = pwd_k1_vec();
    let k3 = entry_k3_vec();
    if !match_at(input, 0, pk1.as_slice()) {
        proof {
            assert forall|f: Seq<u8>, n: Seq<u8>|
                json_safe(f) && json_safe(n) && input@ == #[trigger] json_pwd(f, n)
                implies false by {
                lemma_pwd_decompose(input@, f, n);
            }
        }
        return Err(RpmError::Serialization("malformed record".to_owned()));
    }
    let sf = scan_string(input, 23);
    let (fb, q1) = match sf {
        Some(p) => p,
        None => {
            proof {
                assert forall|f: Seq<u8>, n: Seq<u8>|
                    json_safe(f) && json_safe(n) && input@ == #[trigger] json_pwd(f, n)
                    implies false by {
                    lemma_pwd_decompose(input@, f, n);
                    lemma_scan_forced(input@, 23, f);
                }
            }
            return Err(RpmError::Serialization("malformed record".to_owned()));
        },
    };
    if !match_at(input, q1, k3.as_slice()) {
        proof {
            assert forall|f: Seq<u8>, n: Seq<u8>|
                json_safe(f) && json_safe(n) && input@ == #[trigger] json_pwd(f, n)
                implies false by {
                lemma_pwd_decompose(input@, f, n);
                lemma_scan_forced(input@, 23, f);
            }
        }
        return Err(RpmError::Serialization("malformed record".to_owned()));
    }
    let p2 = q1 + 11;
    let sn = scan_string(input, p2);
    let (nb, q2) = match sn {
        Some(p) => p,
        None => {
            proof {
                assert forall|f: Seq<u8>, n: Seq<u8>|
                    json_safe(f) && json_safe(n) && input@ == #[trigger] json_pwd(f, n)
                    implies false by {
                    lemma_pwd_decompose(input@, f, n);
                    lemma_scan_forced(input@, 23, f);
                    lemma_scan_forced(input@, 34 + f.len() as int, n);
                }
            }
            return Err(RpmError::Serialization("malformed record".to_owned()));
        },
    };
    if !(q2 + 1 < ilen && input[q2 + 1] == 125 && ilen - q2 == 2) {
        proof {
            assert forall|f: Seq<u8>, n: Seq<u8>|
                json_safe(f) && json_safe(n) && input@ == #[trigger] json_pwd(f, n)
                implies false by {
                lemma_pwd_decompose(input@, f, n);
                lemma_scan_forced(input@, 23, f);
                lemma_scan_forced(input@, 34 + f.len() as int, n);
                let e0 = 34 + f.len() as int + n.len() as int;
                assert(input@.subrange(e0, e0 + 2)[1] == lit_entry_end()[1]);
                assert(input@[e0 + 1] == 125);
            }
        }
        return Err(RpmError::Serialization("malformed record".to_owned()));
    }
    let fs = match crate::strconv::bytes_to_string(fb) {
        Ok(x) => x,
        Err(_) => {
            proof {
                crate::strconv::lemma_ascii_bytes_valid_utf8(input@.subrange(23, q1 as int));
                assert(false);
            }
            return Err(RpmError::Serialization("malformed record".to_owned()));
        },
    };
    let ns = match crate::strconv::bytes_to_string(nb) {
        Ok(x) => x,
        Err(_) => {
            proof {
                crate::strconv::lemma_ascii_bytes_valid_utf8(
                    input@.subrange(p2 as int, q2 as int),
                );
                assert(false);
            }
            return Err(RpmError::Serialization("malformed record".to_owned()));
        },
    };
    let p = PasswordFile { encrypted_password: fs, nonce: ns };
    proof {
        let gi = input@;
        let fv = crate::models::pwd_file_view(p).0;
        let nv = crate::models::pwd_file_view(p).1;
        assert(fv == gi.subrange(23, q1 as int));
        assert(nv == gi.subrange(p2 as int, q2 as int));
        let m1 = lit_pwd_k1();
        let m2 = m1 + fv;
        let m3 = m2 + lit_entry_k3();
        let m4 = m3 + nv;
        assert(is_match(gi, 23, fv)) by {
            assert(gi.subrange(23, 23 + fv.len() as int) =~= fv);
        }
        assert(is_match(gi, p2 as int, nv)) by {
            assert(gi.subrange(p2 as int, p2 + nv.len()) =~= nv);
        }
        assert(is_match(gi, q2 as int, lit_entry_end())) by {
            assert(gi.subrange(q2 as int, q2 + 2) =~= lit_entry_end());
        }
        lemma_is_match_concat(gi, 0, m1, fv);
        lemma_is_match_concat(gi, 0, m2, lit_entry_k3());
        lemma_is_match_concat(gi, 0, m3, nv);
        lemma_is_match_concat(gi, 0, m4, lit_entry_end());
        assert(json_pwd(fv, nv) == m4 + lit_entry_end());
        assert(gi =~= json_pwd(fv, nv)) by {
            assert(is_match(gi, 0, m4 + lit_entry_end()));
            assert(gi.subrange(0, (m4 + lit_entry_end()).len() as int) == m4
                + lit_entry_end());
            assert(gi.len() == (m4 + lit_entry_end()).len());
        }
        assert forall|f: Seq<u8>, n: Seq<u8>|
            json_safe(f) && json_safe(n) && gi == #[trigger] json_pwd(f, n)
            implies (fv == f && nv == n) by {
            lemma_pwd_decompose(gi, f, n);
            lemma_scan_forced(gi, 23, f);
            assert(q1 as int == 23 + f.len());
            assert(f =~= gi.subrange(23, q1 as int));
            lemma_scan_forced(gi, 34 + f.len() as int, n);
            assert(q2 as int == p2 + n.len());
            assert(n =~= gi.subrange(p2 as int, q2 as int));
        }
    }
    Ok(p)
}

} // verus!
