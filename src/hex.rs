//! Mathematical model of `0x`-prefixed hexadecimal text.
use vstd::prelude::*;

verus! {

/// A hexadecimal digit of either case.
pub open spec fn is_hex_digit(c: char) -> bool {
    ('0' <= c && c <= '9') || ('a' <= c && c <= 'f') || ('A' <= c && c <= 'F')
}

/// A lower-case hexadecimal digit.
pub open spec fn is_lower_hex_digit(c: char) -> bool {
    ('0' <= c && c <= '9') || ('a' <= c && c <= 'f')
}

/// An ASCII blank that hex decoders of the wire format skip.
pub open spec fn is_hex_blank(c: char) -> bool {
    c == ' ' || c == '\r' || c == '\n' || c == '\t'
}

pub open spec fn digit_value(c: char) -> nat {
    if '0' <= c && c <= '9' {
        (c as u32 - '0' as u32) as nat
    } else if 'a' <= c && c <= 'f' {
        (c as u32 - 'a' as u32 + 10) as nat
    } else {
        (c as u32 - 'A' as u32 + 10) as nat
    }
}

/// The lower-case digit for a nibble.
pub open spec fn lower_digit(n: nat) -> char {
    if n < 10 {
        ((n + 48) as u8) as char
    } else {
        ((n + 87) as u8) as char
    }
}

/// The text after an optional `0x` prefix.
pub open spec fn strip_0x(s: Seq<char>) -> Seq<char> {
    if s.len() >= 2 && s[0] == '0' && s[1] == 'x' {
        s.subrange(2, s.len() as int)
    } else {
        s
    }
}

pub open spec fn all_hex(d: Seq<char>) -> bool {
    forall|i: int| 0 <= i < d.len() ==> is_hex_digit(#[trigger] d[i])
}

pub open spec fn all_lower_hex(d: Seq<char>) -> bool {
    forall|i: int| 0 <= i < d.len() ==> is_lower_hex_digit(#[trigger] d[i])
}

/// Some character is neither a digit nor a skipped blank.
pub open spec fn has_stray_char(d: Seq<char>) -> bool {
    exists|i: int| 0 <= i < d.len() && !is_hex_digit(#[trigger] d[i]) && !is_hex_blank(d[i])
}

/// Some character is a blank.
pub open spec fn has_blank(s: Seq<char>) -> bool {
    exists|i: int| 0 <= i < s.len() && is_hex_blank(#[trigger] s[i])
}

/// Big-endian value of a digit string.
pub open spec fn hex_nat(d: Seq<char>) -> nat
    decreases d.len(),
{
    if d.len() == 0 {
        0
    } else {
        hex_nat(d.drop_last()) * 16 + digit_value(d.last())
    }
}

/// Bytes written by an even-length digit string, two digits per byte.
pub open spec fn hex_bytes(d: Seq<char>) -> Seq<u8> {
    Seq::new(d.len() / 2, |i: int| (digit_value(d[2 * i]) * 16 + digit_value(d[2 * i + 1])) as u8)
}

/// Lower-case hexadecimal text of bytes, two digits per byte, without prefix.
pub open spec fn hex_text(b: Seq<u8>) -> Seq<char> {
    Seq::new(
        2 * b.len(),
        |i: int|
            if i % 2 == 0 {
                lower_digit(b[i / 2] as nat / 16)
            } else {
                lower_digit(b[i / 2] as nat % 16)
            },
    )
}

/// Big-endian value of a byte string.
pub open spec fn be_value(b: Seq<u8>) -> nat
    decreases b.len(),
{
    if b.len() == 0 {
        0
    } else {
        be_value(b.drop_last()) * 256 + b.last() as nat
    }
}

pub proof fn lemma_char_round_trip(c: char)
    requires
        is_lower_hex_digit(c),
    ensures
        digit_value(c) < 16,
        lower_digit(digit_value(c)) == c,
{
    assert((c as u32) as u8 as char == c);
}

/// Lower-case digit text survives decoding to bytes and encoding back.
pub proof fn lemma_text_bytes_text(d: Seq<char>)
    requires
        d.len() % 2 == 0,
        all_lower_hex(d),
    ensures
        hex_text(hex_bytes(d)) == d,
{
    let b = hex_bytes(d);
    assert forall|i: int| 0 <= i < d.len() implies #[trigger] hex_text(b)[i] == d[i] by {
        let j = i / 2;
        assert(0 <= 2 * j && 2 * j + 1 < d.len());
        let hi = digit_value(d[2 * j]);
        let lo = digit_value(d[2 * j + 1]);
        lemma_char_round_trip(d[2 * j]);
        lemma_char_round_trip(d[2 * j + 1]);
        assert(hi * 16 + lo < 256) by (nonlinear_arith)
            requires hi < 16, lo < 16;
        assert((hi * 16 + lo) / 16 == hi && (hi * 16 + lo) % 16 == lo) by (nonlinear_arith)
            requires hi < 16, lo < 16;
        assert(b[j] as nat == hi * 16 + lo);
    }
    assert(hex_text(b) =~= d);
}

/// Shortest lower-case digits of a number (an Ethereum quantity without its prefix).
pub open spec fn quantity_digits(n: nat) -> Seq<char>
    decreases n,
{
    if n < 16 {
        seq![lower_digit(n)]
    } else {
        quantity_digits(n / 16).push(lower_digit(n % 16))
    }
}

/// Lower-case digits with no leading zero, or the single digit `0`.
pub open spec fn is_quantity_digits(d: Seq<char>) -> bool {
    d.len() >= 1 && all_lower_hex(d) && (d[0] != '0' || d.len() == 1)
}

proof fn lemma_leading_digit_positive(d: Seq<char>)
    requires
        d.len() >= 1,
        all_lower_hex(d),
        d[0] != '0',
    ensures
        hex_nat(d) > 0,
    decreases d.len(),
{
    if d.len() == 1 {
        assert(d.drop_last().len() == 0);
        assert(is_lower_hex_digit(d[0]));
    } else {
        let p = d.drop_last();
        assert(p[0] == d[0]);
        assert forall|i: int| 0 <= i < p.len() implies is_lower_hex_digit(#[trigger] p[i]) by {
            assert(p[i] == d[i]);
        }
        lemma_leading_digit_positive(p);
    }
}

/// Quantity digits survive decoding to a number and encoding back.
pub proof fn lemma_quantity_round_trip(d: Seq<char>)
    requires
        is_quantity_digits(d),
    ensures
        quantity_digits(hex_nat(d)) == d,
    decreases d.len(),
{
    let last = d.last();
    assert(is_lower_hex_digit(d[d.len() - 1]));
    lemma_char_round_trip(last);
    let p = d.drop_last();
    if d.len() == 1 {
        assert(hex_nat(d) == hex_nat(p) * 16 + digit_value(last));
        assert(hex_nat(p) == 0);
        assert(quantity_digits(hex_nat(d)) =~= d);
    } else {
        assert(p[0] == d[0]);
        assert forall|i: int| 0 <= i < p.len() implies is_lower_hex_digit(#[trigger] p[i]) by {
            assert(p[i] == d[i]);
        }
        lemma_leading_digit_positive(p);
        lemma_quantity_round_trip(p);
        let n = hex_nat(d);
        let q = hex_nat(p);
        let r = digit_value(last);
        assert(n == q * 16 + r);
        assert(n / 16 == q && n % 16 == r && n >= 16) by (nonlinear_arith)
            requires n == q * 16 + r, r < 16, q > 0;
        assert(quantity_digits(n) == quantity_digits(q).push(lower_digit(r)));
        assert(quantity_digits(n) =~= d);
    }
}

} // verus!
