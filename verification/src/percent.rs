//! Percent-encoding of query values.
//!
//! A value is encoded through its UTF-8 bytes. The unreserved bytes (ASCII
//! letters, digits, `-`, `.`, `_`, `~`) stand for themselves; every other
//! byte becomes `%` followed by its two upper-case hexadecimal digits.
//! Decoding reads such text back and accepts hexadecimal digits of either
//! case.

use crate::text::{
    chars_of, hex_char, hex_digit, hex_digit_value, hex_value, lemma_char_code,
    lemma_hex_digit_round_trip, string_from_utf8,
};
use vstd::prelude::*;
use vstd::utf8::{
    decode_utf8, encode_utf8, encode_utf8_decode_utf8, encode_utf8_valid_utf8, is_ascii_chars,
    is_ascii_chars_encode_utf8, valid_utf8,
};

verus! {

/// Whether the byte stands for itself in encoded text.
pub open spec fn is_unreserved(b: u8) -> bool {
    ||| 65 <= b <= 90
    ||| 97 <= b <= 122
    ||| 48 <= b <= 57
    ||| b == 45
    ||| b == 46
    ||| b == 95
    ||| b == 126
}

/// The encoded form of one byte.
pub open spec fn encode_byte(b: u8) -> Seq<char> {
    if is_unreserved(b) {
        seq![b as char]
    } else {
        seq!['%', hex_char((b / 16) as nat), hex_char((b % 16) as nat)]
    }
}

/// The encoded form of a byte string: the encoded bytes one after another.
pub open spec fn encode_bytes(bytes: Seq<u8>) -> Seq<char>
    decreases bytes.len(),
{
    if bytes.len() == 0 {
        Seq::empty()
    } else {
        encode_bytes(bytes.drop_last()) + encode_byte(bytes.last())
    }
}

/// The percent-encoded form of a text.
pub open spec fn percent_encode(text: Seq<char>) -> Seq<char> {
    encode_bytes(encode_utf8(text))
}

/// `byte` in front of what the rest decodes to, if the rest decodes.
pub open spec fn prepend(byte: u8, rest: Option<Seq<u8>>) -> Option<Seq<u8>> {
    match rest {
        Some(bytes) => Some(seq![byte] + bytes),
        None => None,
    }
}

/// The bytes that encoded text stands for. `%` must be followed by two
/// hexadecimal digits; any other ASCII character stands for itself; a
/// character outside ASCII makes the text undecodable.
pub open spec fn decode_chars(text: Seq<char>) -> Option<Seq<u8>>
    decreases text.len(),
{
    if text.len() == 0 {
        Some(Seq::empty())
    } else if text[0] == '%' {
        if text.len() >= 3 && hex_value(text[1]) is Some && hex_value(text[2]) is Some {
            prepend(
                (16 * hex_value(text[1])->0 + hex_value(text[2])->0) as u8,
                decode_chars(text.skip(3)),
            )
        } else {
            None
        }
    } else if (text[0] as u32) < 128 {
        prepend(text[0] as u8, decode_chars(text.skip(1)))
    } else {
        None
    }
}

/// The text that percent-encoded text stands for: its bytes, where they
/// are valid UTF-8.
pub open spec fn percent_decode(text: Seq<char>) -> Option<Seq<char>> {
    match decode_chars(text) {
        Some(bytes) => if valid_utf8(bytes) {
            Some(decode_utf8(bytes))
        } else {
            None
        },
        None => None,
    }
}

/// Whether the character can occur in encoded text: it is unreserved or `%`.
pub open spec fn is_encoded_char(c: char) -> bool {
    (c as u32) < 128 && (is_unreserved(c as u8) || c == '%')
}

/// Encoding distributes over concatenation.
pub proof fn lemma_encode_bytes_concat(a: Seq<u8>, b: Seq<u8>)
    ensures
        encode_bytes(a + b) == encode_bytes(a) + encode_bytes(b),
    decreases b.len(),
{
    if b.len() == 0 {
        assert(a + b =~= a);
        assert(encode_bytes(a) + encode_bytes(b) =~= encode_bytes(a));
    } else {
        lemma_encode_bytes_concat(a, b.drop_last());
        assert((a + b).drop_last() =~= a + b.drop_last());
        assert((a + b).last() == b.last());
        assert(encode_bytes(a + b) =~= encode_bytes(a) + encode_bytes(b));
    }
}

/// Encoded text holds nothing but unreserved characters and `%`; in
/// particular neither `&` nor `=`.
pub proof fn lemma_encoded_chars(bytes: Seq<u8>)
    ensures
        forall|i: int|
            0 <= i < encode_bytes(bytes).len() ==> is_encoded_char(
                #[trigger] encode_bytes(bytes)[i],
            ),
    decreases bytes.len(),
{
    if bytes.len() > 0 {
        lemma_encoded_chars(bytes.drop_last());
        let b = bytes.last();
        lemma_hex_is_encoded_char((b / 16) as nat);
        lemma_hex_is_encoded_char((b % 16) as nat);
        let front = encode_bytes(bytes.drop_last());
        assert forall|i: int| 0 <= i < encode_bytes(bytes).len() implies is_encoded_char(
            #[trigger] encode_bytes(bytes)[i],
        ) by {
            if i < front.len() {
                assert(encode_bytes(bytes)[i] == front[i]);
            } else {
                assert(encode_bytes(bytes)[i] == encode_byte(b)[i - front.len()]);
            }
        }
    }
}

proof fn lemma_hex_is_encoded_char(d: nat)
    requires
        d < 16,
    ensures
        is_encoded_char(hex_char(d)),
{
}

/// Whether the text holds unreserved characters only.
pub open spec fn is_unreserved_text(text: Seq<char>) -> bool {
    forall|i: int|
        0 <= i < text.len() ==> ((#[trigger] text[i]) as u32) < 128 && is_unreserved(text[i] as u8)
}

/// Bytes that are all unreserved are encoded as themselves.
pub proof fn lemma_encode_unreserved_bytes(bytes: Seq<u8>)
    requires
        forall|i: int| 0 <= i < bytes.len() ==> is_unreserved(#[trigger] bytes[i]),
    ensures
        encode_bytes(bytes) == Seq::new(bytes.len(), |i: int| bytes[i] as char),
    decreases bytes.len(),
{
    if bytes.len() > 0 {
        let front = bytes.drop_last();
        assert forall|i: int| 0 <= i < front.len() implies is_unreserved(#[trigger] front[i]) by {
            assert(front[i] == bytes[i]);
        }
        lemma_encode_unreserved_bytes(front);
        assert(is_unreserved(bytes[bytes.len() - 1]));
    }
    assert(encode_bytes(bytes) =~= Seq::new(bytes.len(), |i: int| bytes[i] as char));
}

/// A text of unreserved characters is its own encoded form: letters,
/// digits, `-`, `.`, `_` and `~` pass through unchanged.
pub proof fn lemma_unreserved_text_unchanged(text: Seq<char>)
    requires
        is_unreserved_text(text),
    ensures
        percent_encode(text) == text,
{
    let bytes = encode_utf8(text);
    assert(is_ascii_chars(text)) by {
        assert forall|i: int| 0 <= i < text.len() implies '\0' <= #[trigger] text[i] <= '\u{7f}' by {
            lemma_char_code(text[i]);
        }
    }
    is_ascii_chars_encode_utf8(text);
    assert forall|i: int| 0 <= i < bytes.len() implies is_unreserved(#[trigger] bytes[i]) by {
        assert(bytes[i] == text[i] as u8);
    }
    lemma_encode_unreserved_bytes(bytes);
    assert forall|i: int| 0 <= i < text.len() implies bytes[i] as char == text[i] by {
        assert(bytes[i] == text[i] as u8);
        assert((text[i] as u32) < 128);
    }
    assert(percent_encode(text) =~= text);
}

/// Decoding the encoded form of a byte in front of more text gives the
/// byte in front of what the rest decodes to.
pub proof fn lemma_decode_encoded_byte(b: u8, rest: Seq<char>)
    ensures
        decode_chars(encode_byte(b) + rest) == prepend(b, decode_chars(rest)),
{
    let text = encode_byte(b) + rest;
    if is_unreserved(b) {
        assert(text[0] == b as char);
        assert(text.skip(1) =~= rest);
    } else {
        let hi = (b / 16) as nat;
        let lo = (b % 16) as nat;
        lemma_hex_digit_round_trip(hi);
        lemma_hex_digit_round_trip(lo);
        assert(text[0] == '%');
        assert(text[1] == hex_char(hi));
        assert(text[2] == hex_char(lo));
        assert(text.skip(3) =~= rest);
        assert((16 * hi + lo) as u8 == b);
    }
}

/// Decoding encoded bytes gives the bytes back.
pub proof fn lemma_decode_encode_bytes(bytes: Seq<u8>)
    ensures
        decode_chars(encode_bytes(bytes)) == Some(bytes),
    decreases bytes.len(),
{
    if bytes.len() == 0 {
    } else {
        let head = seq![bytes[0]];
        let tail = bytes.skip(1);
        assert(bytes =~= head + tail);
        lemma_encode_bytes_concat(head, tail);
        assert(head.drop_last() =~= Seq::<u8>::empty());
        assert(encode_bytes(head) =~= encode_byte(bytes[0])) by {
            reveal_with_fuel(encode_bytes, 2);
        }
        lemma_decode_encoded_byte(bytes[0], encode_bytes(tail));
        lemma_decode_encode_bytes(tail);
    }
}

/// Decoding a percent-encoded text gives the text back.
pub proof fn lemma_percent_round_trip(text: Seq<char>)
    ensures
        percent_decode(percent_encode(text)) == Some(text),
{
    lemma_decode_encode_bytes(encode_utf8(text));
    encode_utf8_valid_utf8(text);
    encode_utf8_decode_utf8(text);
}

/// Whether the byte stands for itself in encoded text.
pub fn unreserved(b: u8) -> (r: bool)
    ensures
        r == is_unreserved(b),
{
    (65 <= b && b <= 90) || (97 <= b && b <= 122) || (48 <= b && b <= 57) || b == 45 || b == 46
        || b == 95 || b == 126
}

/// Appends the percent-encoded form of `value` to `out`.
pub fn push_percent_encoded(out: &mut String, value: &str)
    ensures
        final(out)@ == old(out)@ + percent_encode(value@),
{
    let bytes = value.as_bytes();
    let mut i: usize = 0;
    while i < bytes.len()
        invariant
            i <= bytes.len(),
            bytes@ == encode_utf8(value@),
            out@ == old(out)@ + encode_bytes(bytes@.take(i as int)),
        decreases bytes.len() - i,
    {
        let b = bytes[i];
        proof {
            assert(bytes@.take(i + 1).drop_last() =~= bytes@.take(i as int));
            assert(bytes@.take(i + 1).last() == b);
        }
        if unreserved(b) {
            out.push(b as char);
        } else {
            out.push('%');
            out.push(hex_digit(b / 16));
            out.push(hex_digit(b % 16));
        }
        assert(out@ =~= old(out)@ + encode_bytes(bytes@.take(i + 1)));
        i += 1;
    }
    assert(bytes@.take(i as int) =~= bytes@);
}

/// The percent-encoded form of `value`.
pub fn percent_encoded(value: &str) -> (r: String)
    ensures
        r@ == percent_encode(value@),
{
    let mut out = String::new();
    push_percent_encoded(&mut out, value);
    assert(out@ =~= percent_encode(value@));
    out
}

/// Decodes `chars[from..to]`, `None` where that text is not the encoded
/// form of any text.
pub fn percent_decoded(chars: &Vec<char>, from: usize, to: usize) -> (r: Option<String>)
    requires
        from <= to <= chars.len(),
    ensures
        r is Some <==> percent_decode(chars@.subrange(from as int, to as int)) is Some,
        r matches Some(s) ==> Some(s@) == percent_decode(
            chars@.subrange(from as int, to as int),
        ),
{
    let ghost text = chars@.subrange(from as int, to as int);
    let mut bytes: Vec<u8> = Vec::new();
    let mut i: usize = from;
    proof {
        assert(text.skip(0) =~= text);
        assert forall|rest: Seq<u8>| bytes@ + rest == rest by {
            assert(bytes@ + rest =~= rest);
        }
    }
    while i < to
        invariant
            from <= i <= to <= chars.len(),
            text == chars@.subrange(from as int, to as int),
            decode_chars(text) == match decode_chars(text.skip(i - from)) {
                Some(rest) => Some(bytes@ + rest),
                None => None,
            },
        decreases to - i,
    {
        let ghost rest = text.skip(i - from);
        let c = chars[i];
        assert(rest[0] == c);
        if c == '%' {
            if to - i < 3 {
                return None;
            }
            assert(rest[1] == chars[i + 1]);
            assert(rest[2] == chars[i + 2]);
            let hi = hex_digit_value(chars[i + 1]);
            let lo = hex_digit_value(chars[i + 2]);
            match (hi, lo) {
                (Some(h), Some(l)) => {
                    let b: u8 = 16 * h + l;
                    assert(rest.skip(3) =~= text.skip(i + 3 - from));
                    let ghost before = bytes@;
                    bytes.push(b);
                    assert forall|tail: Seq<u8>| before + (seq![b] + tail) == bytes@ + tail by {
                        assert(before + (seq![b] + tail) =~= bytes@ + tail);
                    }
                    i += 3;
                },
                _ => {
                    return None;
                },
            }
        } else if (c as u32) < 128 {
            assert(rest.skip(1) =~= text.skip(i + 1 - from));
            let ghost before = bytes@;
            let b: u8 = c as u8;
            bytes.push(b);
            assert forall|tail: Seq<u8>| before + (seq![b] + tail) == bytes@ + tail by {
                assert(before + (seq![b] + tail) =~= bytes@ + tail);
            }
            i += 1;
        } else {
            return None;
        }
    }
    assert(text.skip(i - from).len() == 0);
    assert(bytes@ + Seq::<u8>::empty() =~= bytes@);
    string_from_utf8(bytes)
}

/// Decodes percent-encoded text.
pub fn percent_decode_str(text: &str) -> (r: Option<String>)
    ensures
        r is Some <==> percent_decode(text@) is Some,
        r matches Some(s) ==> Some(s@) == percent_decode(text@),
{
    let chars = chars_of(text);
    assert(chars@.subrange(0, chars.len() as int) =~= text@);
    percent_decoded(&chars, 0, chars.len())
}

} // verus!
