use vstd::prelude::*;
use vstd::utf8::encode_utf8;
use vstd::utf8::is_ascii_chars;

verus! {

/// The byte (ASCII code) of the standard-alphabet digit for a sextet value.
pub open spec fn b64_digit(v: int) -> u8
    recommends
        0 <= v < 64,
{
    if v < 26 {
        (65 + v) as u8  // 'A'..='Z'
    } else if v < 52 {
        (71 + v) as u8  // 'a'..='z'
    } else if v < 62 {
        (v - 4) as u8  // '0'..='9'
    } else if v == 62 {
        43u8  // '+'
    } else {
        47u8  // '/'
    }
}

/// True for the bytes of the standard base64 alphabet (without padding).
pub open spec fn is_b64_digit_byte(c: u8) -> bool {
    (65 <= c <= 90) || (97 <= c <= 122) || (48 <= c <= 57) || c == 43 || c == 47
}

/// The unpadded standard base64 encoding of a byte sequence: full groups of
/// three bytes become four digits, a trailing group of one or two bytes
/// becomes two or three digits.
pub open spec fn b64_core(s: Seq<u8>) -> Seq<u8>
    decreases s.len(),
{
    if s.len() == 0 {
        Seq::empty()
    } else if s.len() == 1 {
        seq![b64_digit(s[0] as int / 4), b64_digit((s[0] as int % 4) * 16)]
    } else if s.len() == 2 {
        seq![
            b64_digit(s[0] as int / 4),
            b64_digit((s[0] as int % 4) * 16 + s[1] as int / 16),
            b64_digit((s[1] as int % 16) * 4),
        ]
    } else {
        seq![
            b64_digit(s[0] as int / 4),
            b64_digit((s[0] as int % 4) * 16 + s[1] as int / 16),
            b64_digit((s[1] as int % 16) * 4 + s[2] as int / 64),
            b64_digit(s[2] as int % 64),
        ] + b64_core(s.skip(3))
    }
}

/// How many '=' characters the padded form appends.
pub open spec fn b64_pad_len(n: nat) -> nat {
    if n % 3 == 0 {
        0
    } else {
        (3 - n % 3) as nat
    }
}

/// The padded standard base64 encoding: the unpadded digits followed by '='
/// up to a multiple of four characters.
pub open spec fn b64_padded(s: Seq<u8>) -> Seq<u8> {
    b64_core(s) + Seq::new(b64_pad_len(s.len()), |i: int| 61u8)
}

/// Length of the unpadded encoding.
pub proof fn lemma_b64_core_len(s: Seq<u8>)
    ensures
        b64_core(s).len() == 4 * (s.len() / 3) + if s.len() % 3 == 0 {
            0int
        } else {
            (s.len() % 3 + 1) as int
        },
    decreases s.len(),
{
    if s.len() >= 3 {
        lemma_b64_core_len(s.skip(3));
    }
}

/// Every digit byte lies in the alphabet.
pub proof fn lemma_b64_digit_in_alphabet(v: int)
    requires
        0 <= v < 64,
    ensures
        is_b64_digit_byte(b64_digit(v)),
{
}

/// Every byte of the unpadded encoding is an alphabet byte.
pub proof fn lemma_b64_core_alphabet(s: Seq<u8>)
    ensures
        forall|i: int|
            0 <= i < b64_core(s).len() ==> is_b64_digit_byte(#[trigger] b64_core(s)[i]),
    decreases s.len(),
{
    if s.len() == 0 {
    } else if s.len() == 1 {
        assert(is_b64_digit_byte(b64_core(s)[0]));
        assert(is_b64_digit_byte(b64_core(s)[1]));
    } else if s.len() == 2 {
        assert(is_b64_digit_byte(b64_core(s)[0]));
        assert(is_b64_digit_byte(b64_core(s)[1]));
        assert(is_b64_digit_byte(b64_core(s)[2]));
    } else {
        lemma_b64_core_alphabet(s.skip(3));
        let q = seq![
            b64_digit(s[0] as int / 4),
            b64_digit((s[0] as int % 4) * 16 + s[1] as int / 16),
            b64_digit((s[1] as int % 16) * 4 + s[2] as int / 64),
            b64_digit(s[2] as int % 64),
        ];
        let r = b64_core(s.skip(3));
        assert(b64_core(s) == q + r);
        assert forall|i: int| 0 <= i < b64_core(s).len() implies is_b64_digit_byte(
            b64_core(s)[i],
        ) by {
            if i < 4 {
                assert(b64_core(s)[i] == q[i]);
                assert(is_b64_digit_byte(q[0]));
                assert(is_b64_digit_byte(q[1]));
                assert(is_b64_digit_byte(q[2]));
                assert(is_b64_digit_byte(q[3]));
            } else {
                assert(b64_core(s)[i] == r[i - 4]);
            }
        }
    }
}

/// Every byte of the padded encoding is an alphabet byte or '='.
pub proof fn lemma_b64_padded_alphabet(s: Seq<u8>)
    ensures
        forall|i: int|
            0 <= i < b64_padded(s).len() ==> (is_b64_digit_byte(#[trigger] b64_padded(s)[i])
                || b64_padded(s)[i] == 61),
{
    lemma_b64_core_alphabet(s);
    let c = b64_core(s);
    let p = Seq::new(b64_pad_len(s.len()), |i: int| 61u8);
    assert(b64_padded(s) == c + p);
    assert forall|i: int| 0 <= i < b64_padded(s).len() implies (is_b64_digit_byte(
        b64_padded(s)[i],
    ) || b64_padded(s)[i] == 61) by {
        if i < c.len() {
            assert(b64_padded(s)[i] == c[i]);
        } else {
            assert(b64_padded(s)[i] == p[i - c.len()]);
        }
    }
}

/// Distinct sextet values have distinct alphabet bytes.
pub proof fn lemma_b64_digit_injective(v1: int, v2: int)
    requires
        0 <= v1 < 64,
        0 <= v2 < 64,
        b64_digit(v1) == b64_digit(v2),
    ensures
        v1 == v2,
{
}

/// The unpadded encoding determines the length of the encoded bytes.
pub proof fn lemma_b64_core_len_injective(a: Seq<u8>, b: Seq<u8>)
    requires
        b64_core(a).len() == b64_core(b).len(),
    ensures
        a.len() == b.len(),
{
    lemma_b64_core_len(a);
    lemma_b64_core_len(b);
    let la = a.len() as int;
    let lb = b.len() as int;
    assert(la == 3 * (la / 3) + la % 3) by (nonlinear_arith);
    assert(lb == 3 * (lb / 3) + lb % 3) by (nonlinear_arith);
}

/// Recover a byte from its split into a quotient and a remainder part.
proof fn lemma_recompose(x: u8, y: u8, m: int)
    requires
        m == 4 || m == 16 || m == 64,
        x as int / m == y as int / m,
        x as int % m == y as int % m,
    ensures
        x == y,
{
    assert(x == m * (x as int / m) + x as int % m) by (nonlinear_arith)
        requires
            m == 4 || m == 16 || m == 64,
    ;
    assert(y == m * (y as int / m) + y as int % m) by (nonlinear_arith)
        requires
            m == 4 || m == 16 || m == 64,
    ;
}

/// The four digits of a full group determine its three bytes.
proof fn lemma_b64_quad_injective(x0: u8, x1: u8, x2: u8, y0: u8, y1: u8, y2: u8)
    requires
        b64_digit(x0 as int / 4) == b64_digit(y0 as int / 4),
        b64_digit((x0 as int % 4) * 16 + x1 as int / 16) == b64_digit(
            (y0 as int % 4) * 16 + y1 as int / 16,
        ),
        b64_digit((x1 as int % 16) * 4 + x2 as int / 64) == b64_digit(
            (y1 as int % 16) * 4 + y2 as int / 64,
        ),
        b64_digit(x2 as int % 64) == b64_digit(y2 as int % 64),
    ensures
        x0 == y0 && x1 == y1 && x2 == y2,
{
    lemma_b64_digit_injective(x0 as int / 4, y0 as int / 4);
    lemma_b64_digit_injective(
        (x0 as int % 4) * 16 + x1 as int / 16,
        (y0 as int % 4) * 16 + y1 as int / 16,
    );
    lemma_b64_digit_injective(
        (x1 as int % 16) * 4 + x2 as int / 64,
        (y1 as int % 16) * 4 + y2 as int / 64,
    );
    lemma_b64_digit_injective(x2 as int % 64, y2 as int % 64);
    lemma_recompose(x0, y0, 4);
    lemma_recompose(x1, y1, 16);
    lemma_recompose(x2, y2, 64);
}

/// The unpadded encoding is injective: equal encodings come from equal bytes.
pub proof fn lemma_b64_core_injective(a: Seq<u8>, b: Seq<u8>)
    requires
        b64_core(a) == b64_core(b),
    ensures
        a == b,
    decreases a.len(),
{
    lemma_b64_core_len_injective(a, b);
    if a.len() == 0 {
        assert(a =~= b);
    } else if a.len() == 1 {
        lemma_b64_digit_injective(a[0] as int / 4, b[0] as int / 4);
        lemma_b64_digit_injective((a[0] as int % 4) * 16, (b[0] as int % 4) * 16);
        lemma_recompose(a[0], b[0], 4);
        assert(a =~= b);
    } else if a.len() == 2 {
        assert(b64_core(a)[0] == b64_core(b)[0] && b64_core(a)[1] == b64_core(b)[1] && b64_core(
            a,
        )[2] == b64_core(b)[2]);
        lemma_b64_digit_injective(a[0] as int / 4, b[0] as int / 4);
        lemma_b64_digit_injective(
            (a[0] as int % 4) * 16 + a[1] as int / 16,
            (b[0] as int % 4) * 16 + b[1] as int / 16,
        );
        lemma_b64_digit_injective((a[1] as int % 16) * 4, (b[1] as int % 16) * 4);
        lemma_recompose(a[0], b[0], 4);
        lemma_recompose(a[1], b[1], 16);
        assert(a =~= b);
    } else {
        let qa = seq![
            b64_digit(a[0] as int / 4),
            b64_digit((a[0] as int % 4) * 16 + a[1] as int / 16),
            b64_digit((a[1] as int % 16) * 4 + a[2] as int / 64),
            b64_digit(a[2] as int % 64),
        ];
        let qb = seq![
            b64_digit(b[0] as int / 4),
            b64_digit((b[0] as int % 4) * 16 + b[1] as int / 16),
            b64_digit((b[1] as int % 16) * 4 + b[2] as int / 64),
            b64_digit(b[2] as int % 64),
        ];
        let ra = b64_core(a.skip(3));
        let rb = b64_core(b.skip(3));
        assert(b64_core(a) == qa + ra);
        assert(b64_core(b) == qb + rb);
        assert(qa[0] == qb[0] && qa[1] == qb[1] && qa[2] == qb[2] && qa[3] == qb[3]) by {
            assert((qa + ra)[0] == qa[0] && (qa + ra)[1] == qa[1] && (qa + ra)[2] == qa[2] && (qa
                + ra)[3] == qa[3]);
            assert((qb + rb)[0] == qb[0] && (qb + rb)[1] == qb[1] && (qb + rb)[2] == qb[2] && (qb
                + rb)[3] == qb[3]);
        }
        lemma_b64_quad_injective(a[0], a[1], a[2], b[0], b[1], b[2]);
        assert(ra =~= rb) by {
            assert(ra.len() == rb.len());
            assert forall|i: int| 0 <= i < ra.len() implies ra[i] == rb[i] by {
                assert(ra[i] == (qa + ra)[i + 4]);
                assert(rb[i] == (qb + rb)[i + 4]);
            }
        }
        lemma_b64_core_injective(a.skip(3), b.skip(3));
        assert forall|i: int| 0 <= i < a.len() implies a[i] == b[i] by {
            if i >= 3 {
                assert(a.skip(3)[i - 3] == a[i]);
                assert(b.skip(3)[i - 3] == b[i]);
            }
        }
        assert(a =~= b);
    }
}

/// The padded encoding is injective as well: the run of '=' at the end fixes
/// the padding length, and the digits fix the bytes.
pub proof fn lemma_b64_padded_injective(a: Seq<u8>, b: Seq<u8>)
    requires
        b64_padded(a) == b64_padded(b),
    ensures
        a == b,
{
    lemma_b64_core_alphabet(a);
    lemma_b64_core_alphabet(b);
    let ca = b64_core(a);
    let cb = b64_core(b);
    let fa = Seq::new(b64_pad_len(a.len()), |i: int| 61u8);
    let fb = Seq::new(b64_pad_len(b.len()), |i: int| 61u8);
    assert(b64_padded(a) == ca + fa);
    assert(b64_padded(b) == cb + fb);
    assert(ca.len() + fa.len() == cb.len() + fb.len());
    if fa.len() != fb.len() {
        if fa.len() > fb.len() {
            let k = ca.len() as int;
            assert(b64_padded(a)[k] == fa[0]);
            assert(b64_padded(b)[k] == cb[k]);
            assert(is_b64_digit_byte(cb[k]));
            assert(false);
        } else {
            let k = cb.len() as int;
            assert(b64_padded(b)[k] == fb[0]);
            assert(b64_padded(a)[k] == ca[k]);
            assert(is_b64_digit_byte(ca[k]));
            assert(false);
        }
    }
    assert(ca.len() == cb.len());
    assert(ca =~= cb) by {
        assert forall|i: int| 0 <= i < ca.len() implies ca[i] == cb[i] by {
            assert(ca[i] == (ca + fa)[i]);
            assert(cb[i] == (cb + fb)[i]);
        }
    }
    lemma_b64_core_injective(a, b);
}

/// Relies on base64's `STANDARD` engine (`Engine::encode`): the canonical
/// padded encoding of the input over the standard alphabet.
#[verifier::external_body]
pub fn b64_encode_std(input: &[u8]) -> (r: String)
    ensures
        is_ascii_chars(r@),
        encode_utf8(r@) == b64_padded(input@),
{
    base64::Engine::encode(&base64::engine::general_purpose::STANDARD, input)
}

/// Relies on base64's `STANDARD_NO_PAD` engine (`Engine::encode`): the
/// canonical unpadded encoding of the input over the standard alphabet.
#[verifier::external_body]
pub fn b64_encode_std_no_pad(input: &[u8]) -> (r: String)
    ensures
        is_ascii_chars(r@),
        encode_utf8(r@) == b64_core(input@),
{
    base64::Engine::encode(&base64::engine::general_purpose::STANDARD_NO_PAD, input)
}

/// Relies on base64's `STANDARD` engine (`Engine::decode`): succeeds exactly
/// on canonical padded encodings (the engine requires canonical padding and
/// rejects non-zero trailing bits) and returns the encoded bytes.
#[verifier::external_body]
pub fn b64_decode_std(input: &str) -> (r: Result<Vec<u8>, ()>)
    ensures
        r matches Ok(v) ==> encode_utf8(input@) == b64_padded(v@),
        r is Err ==> !(exists|b: Seq<u8>| encode_utf8(input@) == b64_padded(b)),
{
    base64::Engine::decode(&base64::engine::general_purpose::STANDARD, input).map_err(|_| ())
}

/// Relies on base64's `STANDARD_NO_PAD` engine (`Engine::decode`): succeeds
/// exactly on canonical unpadded encodings (the engine requires the absence
/// of padding and rejects non-zero trailing bits) and returns the encoded
/// bytes.
#[verifier::external_body]
pub fn b64_decode_std_no_pad(input: &str) -> (r: Result<Vec<u8>, ()>)
    ensures
        r matches Ok(v) ==> encode_utf8(input@) == b64_core(v@),
        r is Err ==> !(exists|b: Seq<u8>| encode_utf8(input@) == b64_core(b)),
{
    base64::Engine::decode(&base64::engine::general_purpose::STANDARD_NO_PAD, input).map_err(
        |_| (),
    )
}

} // verus!
