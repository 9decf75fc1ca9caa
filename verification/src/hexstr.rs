use vstd::prelude::*;

verus! {

/// The byte (ASCII code) of the lowercase hexadecimal digit for a value.
pub open spec fn hex_digit(v: int) -> u8
    recommends
        0 <= v < 16,
{
    if v < 10 {
        (48 + v) as u8  // '0'..='9'
    } else {
        (87 + v) as u8  // 'a'..='f'
    }
}

/// The lowercase hexadecimal rendering of a byte sequence: two digits per
/// byte, high nibble first.
pub open spec fn hex_bytes(s: Seq<u8>) -> Seq<u8>
    decreases s.len(),
{
    if s.len() == 0 {
        Seq::empty()
    } else {
        seq![hex_digit(s[0] as int / 16), hex_digit(s[0] as int % 16)] + hex_bytes(s.drop_first())
    }
}

/// Appending one byte appends its two digits.
proof fn lemma_hex_bytes_push(s: Seq<u8>, x: u8)
    ensures
        hex_bytes(s.push(x)) == hex_bytes(s) + seq![
            hex_digit(x as int / 16),
            hex_digit(x as int % 16),
        ],
    decreases s.len(),
{
    if s.len() == 0 {
        assert(s.push(x)[0] == x);
        assert(s.push(x).len() == 1);
        assert(s.push(x).drop_first() =~= Seq::<u8>::empty());
        assert(hex_bytes(s.push(x)) == seq![
            hex_digit(s.push(x)[0] as int / 16),
            hex_digit(s.push(x)[0] as int % 16),
        ] + hex_bytes(s.push(x).drop_first()));
        assert(hex_bytes(s.push(x).drop_first()) == Seq::<u8>::empty());
        assert(hex_bytes(s.push(x)) =~= hex_bytes(s) + seq![
            hex_digit(x as int / 16),
            hex_digit(x as int % 16),
        ]);
    } else {
        assert(s.push(x)[0] == s[0]);
        assert(s.push(x).len() == s.len() + 1);
        assert(s.push(x).drop_first() =~= s.drop_first().push(x));
        lemma_hex_bytes_push(s.drop_first(), x);
        assert(hex_bytes(s.push(x)) =~= hex_bytes(s) + seq![
            hex_digit(x as int / 16),
            hex_digit(x as int % 16),
        ]);
    }
}

/// The rendering is twice as long as the input and all its bytes are ASCII
/// digits or lowercase letters.
pub proof fn lemma_hex_bytes_shape(s: Seq<u8>)
    ensures
        hex_bytes(s).len() == 2 * s.len(),
        forall|i: int|
            0 <= i < hex_bytes(s).len() ==> 48 <= #[trigger] hex_bytes(s)[i] <= 102,
    decreases s.len(),
{
    if s.len() > 0 {
        lemma_hex_bytes_shape(s.drop_first());
    }
}

/// Render bytes as lowercase hexadecimal digits.
pub fn hex_encode(v: &[u8]) -> (r: Vec<u8>)
    ensures
        r@ == hex_bytes(v@),
{
    let mut out: Vec<u8> = Vec::new();
    let mut i: usize = 0;
    while i < v.len()
        invariant
            i <= v.len(),
            out@ == hex_bytes(v@.take(i as int)),
        decreases v.len() - i,
    {
        let b = v[i];
        proof {
            lemma_hex_bytes_push(v@.take(i as int), b);
            assert(v@.take(i as int).push(b) =~= v@.take(i + 1));
        }
        out.push(if b / 16 < 10 {
            48 + b / 16
        } else {
            87 + b / 16
        });
        out.push(if b % 16 < 10 {
            48 + b % 16
        } else {
            87 + b % 16
        });
        i = i + 1;
    }
    proof {
        assert(v@.take(v@.len() as int) =~= v@);
    }
    out
}

} // verus!
