//! Lower-case hexadecimal text for binary fields.

use vstd::prelude::*;

verus! {

/// The digit that stands for a value below sixteen.
pub open spec fn hex_digit(n: int) -> u8 {
    if n < 10 {
        (48 + n) as u8
    } else {
        (87 + n) as u8
    }
}

/// Whether a byte is one of `0`-`9`, `a`-`f`.
pub open spec fn is_hex_digit(c: u8) -> bool {
    (48 <= c && c <= 57) || (97 <= c && c <= 102)
}

/// The value of a digit.
pub open spec fn hex_value(c: u8) -> int {
    if c <= 57 {
        c - 48
    } else {
        c - 87
    }
}

/// The text of a byte string: two digits per byte, high digit first.
pub open spec fn hex_text(bytes: Seq<u8>) -> Seq<u8> {
    Seq::new(
        2 * bytes.len(),
        |i: int|
            if i % 2 == 0 {
                hex_digit(bytes[i / 2] as int / 16)
            } else {
                hex_digit(bytes[i / 2] as int % 16)
            },
    )
}

/// Whether a text is the text of some byte string.
pub open spec fn is_hex_text(text: Seq<u8>) -> bool {
    text.len() % 2 == 0 && forall|i: int| 0 <= i < text.len() ==> is_hex_digit(#[trigger] text[i])
}

/// The byte string that a well-formed text stands for.
pub open spec fn hex_bytes(text: Seq<u8>) -> Seq<u8> {
    Seq::new(
        text.len() / 2,
        |i: int| (16 * hex_value(text[2 * i]) + hex_value(text[2 * i + 1])) as u8,
    )
}

/// Decoding undoes encoding: the text of `bytes` is well formed and stands
/// for `bytes`.
pub proof fn lemma_hex_round_trip(bytes: Seq<u8>)
    ensures
        is_hex_text(hex_text(bytes)),
        hex_bytes(hex_text(bytes)) == bytes,
{
    let t = hex_text(bytes);
    assert forall|i: int| 0 <= i < t.len() implies is_hex_digit(#[trigger] t[i]) by {
        let b = bytes[i / 2];
        assert(0 <= b as int / 16 < 16);
        assert(0 <= b as int % 16 < 16);
    }
    assert forall|i: int| 0 <= i < bytes.len() implies hex_bytes(t)[i] == bytes[i] by {
        let b = bytes[i];
        assert((2 * i) / 2 == i && (2 * i) % 2 == 0);
        assert((2 * i + 1) / 2 == i && (2 * i + 1) % 2 == 1);
        assert(t[2 * i] == hex_digit(b as int / 16));
        assert(t[2 * i + 1] == hex_digit(b as int % 16));
        assert(hex_value(hex_digit(b as int / 16)) == b as int / 16);
        assert(hex_value(hex_digit(b as int % 16)) == b as int % 16);
    }
    assert(hex_bytes(t) =~= bytes);
}

/// Encoding undoes decoding: a well-formed text is the text of the bytes it
/// stands for, so only one spelling of a byte string is accepted.
pub proof fn lemma_hex_text_canonical(text: Seq<u8>)
    requires
        is_hex_text(text),
    ensures
        hex_text(hex_bytes(text)) == text,
{
    let b = hex_bytes(text);
    assert forall|i: int| 0 <= i < text.len() implies hex_text(b)[i] == text[i] by {
        let k = i / 2;
        let hi = text[2 * k];
        let lo = text[2 * k + 1];
        assert(is_hex_digit(hi) && is_hex_digit(lo));
        let v = 16 * hex_value(hi) + hex_value(lo);
        assert(0 <= v < 256);
        assert(b[k] as int == v);
        assert(v / 16 == hex_value(hi) && v % 16 == hex_value(lo));
        assert(hex_digit(hex_value(hi)) == hi);
        assert(hex_digit(hex_value(lo)) == lo);
    }
    assert(hex_text(b) =~= text);
}

fn digit_of(n: u8) -> (c: u8)
    requires
        n < 16,
    ensures
        c == hex_digit(n as int),
{
    if n < 10 {
        48 + n
    } else {
        87 + n
    }
}

fn value_of(c: u8) -> (v: Option<u8>)
    ensures
        v is Some <==> is_hex_digit(c),
        v matches Some(n) ==> n as int == hex_value(c) && n < 16,
{
    if 48 <= c && c <= 57 {
        Some(c - 48)
    } else if 97 <= c && c <= 102 {
        Some(c - 87)
    } else {
        None
    }
}

/// Whether `c` is a lower-case hexadecimal digit.
pub fn is_digit(c: u8) -> (b: bool)
    ensures
        b == is_hex_digit(c),
{
    (48 <= c && c <= 57) || (97 <= c && c <= 102)
}

/// Writes `bytes` as hexadecimal text.
pub fn encode(bytes: &[u8]) -> (text: Vec<u8>)
    ensures
        text@ == hex_text(bytes@),
{
    let mut text: Vec<u8> = Vec::new();
    let mut i: usize = 0;
    while i < bytes.len()
        invariant
            i <= bytes.len(),
            text@ == hex_text(bytes@.take(i as int)),
        decreases bytes.len() - i,
    {
        let b: u8 = bytes[i];
        text.push(digit_of(b / 16));
        text.push(digit_of(b % 16));
        proof {
            assert(text@ =~= hex_text(bytes@.take(i + 1)));
        }
        i += 1;
    }
    proof {
        assert(bytes@.take(i as int) =~= bytes@);
    }
    text
}

/// Reads hexadecimal text back into bytes, or refuses a text that is not
/// well formed: one of odd length, or with a byte that is no lower-case digit.
pub fn decode(text: &[u8]) -> (bytes: Option<Vec<u8>>)
    ensures
        bytes is Some <==> is_hex_text(text@),
        bytes matches Some(b) ==> b@ == hex_bytes(text@),
{
    if text.len() % 2 != 0 {
        return None;
    }
    let mut bytes: Vec<u8> = Vec::new();
    let mut i: usize = 0;
    while i < text.len()
        invariant
            i <= text.len(),
            i % 2 == 0,
            text.len() % 2 == 0,
            bytes@.len() == i / 2,
            forall|j: int| 0 <= j < i ==> is_hex_digit(#[trigger] text@[j]),
            forall|k: int|
                0 <= k < bytes@.len() ==> #[trigger] bytes@[k] as int == 16 * hex_value(
                    text@[2 * k],
                ) + hex_value(text@[2 * k + 1]),
        decreases text.len() - i,
    {
        let hi = value_of(text[i]);
        let lo = value_of(text[i + 1]);
        match (hi, lo) {
            (Some(h), Some(l)) => {
                bytes.push(16 * h + l);
            },
            _ => {
                return None;
            },
        }
        i += 2;
    }
    proof {
        assert(bytes@ =~= hex_bytes(text@));
    }
    Some(bytes)
}

} // verus!
