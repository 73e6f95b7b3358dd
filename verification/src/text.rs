//! Hexadecimal and decimal text.
//!
//! Text that is parsed is taken as the bytes of its UTF-8 form, since every
//! character that means anything here is ASCII. Text that is produced is a
//! sequence of characters.

use vstd::prelude::*;

verus! {

/// The value of an ASCII hexadecimal digit, in either case.
pub open spec fn hex_digit_value(c: u8) -> Option<u8> {
    if 0x30 <= c <= 0x39 {
        Some((c - 0x30) as u8)
    } else if 0x61 <= c <= 0x66 {
        Some((c - 0x61 + 10) as u8)
    } else if 0x41 <= c <= 0x46 {
        Some((c - 0x41 + 10) as u8)
    } else {
        None
    }
}

/// Whether a byte is an ASCII hexadecimal digit.
pub open spec fn is_hex_digit(c: u8) -> bool {
    hex_digit_value(c) is Some
}

/// The byte that two hexadecimal digits stand for, the high nibble first.
pub open spec fn hex_pair_value(high: u8, low: u8) -> u8 {
    (hex_digit_value(high).unwrap() * 16 + hex_digit_value(low).unwrap()) as u8
}

/// What a run of hexadecimal digits encodes, two digits to the byte. There is
/// nothing where the length is odd or some byte is not a digit.
pub open spec fn hex_decoding(text: Seq<u8>) -> Option<Seq<u8>> {
    if text.len() % 2 == 0 && (forall|i: int| 0 <= i < text.len() ==> is_hex_digit(#[trigger] text[i])) {
        Some(Seq::new(text.len() / 2, |i: int| hex_pair_value(text[2 * i], text[2 * i + 1])))
    } else {
        None
    }
}

/// The text without one leading `0x`, if it has one.
pub open spec fn strip_0x(text: Seq<u8>) -> Seq<u8> {
    if text.len() >= 2 && text[0] == 0x30 && text[1] == 0x78 {
        text.subrange(2, text.len() as int)
    } else {
        text
    }
}

/// Blank, carriage return, line feed and tab.
pub open spec fn is_hex_blank(c: u8) -> bool {
    c == 0x20 || c == 0x0d || c == 0x0a || c == 0x09
}

/// What hexadecimal text encodes when blanks may stand anywhere among its
/// digits, after one optional leading `0x`.
pub open spec fn lenient_hex_decoding(text: Seq<u8>) -> Option<Seq<u8>> {
    hex_decoding(strip_0x(text).filter(|c: u8| !is_hex_blank(c)))
}

/// The lower-case hexadecimal digit of a nibble.
pub open spec fn hex_digit_char(nibble: int) -> char {
    seq!['0', '1', '2', '3', '4', '5', '6', '7', '8', '9', 'a', 'b', 'c', 'd', 'e', 'f'][nibble]
}

/// The lower-case hexadecimal form of some bytes: two digits to the byte, the
/// high nibble first.
pub open spec fn hex_encoding(data: Seq<u8>) -> Seq<char> {
    Seq::new(
        2 * data.len(),
        |i: int| hex_digit_char(if i % 2 == 0 { data[i / 2] as int / 16 } else { data[i / 2] as int % 16 }),
    )
}

/// `0x` and the lower-case hexadecimal form of some bytes.
pub open spec fn prefixed_hex(data: Seq<u8>) -> Seq<char> {
    seq!['0', 'x'] + hex_encoding(data)
}

/// Whether a byte is an ASCII decimal digit.
pub open spec fn is_dec_digit(c: u8) -> bool {
    0x30 <= c <= 0x39
}

/// The number that a run of decimal digits writes. Leading zeros count for
/// nothing and the empty run writes zero.
pub open spec fn dec_value(text: Seq<u8>) -> nat
    decreases text.len(),
{
    if text.len() == 0 {
        0
    } else {
        dec_value(text.drop_last()) * 10 + (text.last() - 0x30) as nat
    }
}

/// The number that decimal text writes, where every byte is a digit and the
/// number is below `limit`.
pub open spec fn dec_decoding(text: Seq<u8>, limit: nat) -> Option<nat> {
    if (forall|i: int| 0 <= i < text.len() ==> is_dec_digit(#[trigger] text[i])) && dec_value(text) < limit {
        Some(dec_value(text))
    } else {
        None
    }
}

/// The character of a decimal digit.
pub open spec fn dec_digit_char(digit: int) -> char {
    seq!['0', '1', '2', '3', '4', '5', '6', '7', '8', '9'][digit]
}

/// A number in decimal, without leading zeros.
pub open spec fn dec_encoding(n: nat) -> Seq<char>
    decreases n,
{
    if n < 10 {
        seq![dec_digit_char(n as int)]
    } else {
        dec_encoding(n / 10).push(dec_digit_char(n as int % 10))
    }
}

/// `hex::decode`: the bytes that the text encodes where it is an even number
/// of hexadecimal digits of either case, and an error on any other text.
#[verifier::external_body]
pub(crate) fn hex_decode(text: &[u8]) -> (r: Option<Vec<u8>>)
    ensures
        match r {
            Some(bytes) => hex_decoding(text@) == Some(bytes@),
            None => hex_decoding(text@) is None,
        },
{
    hex::decode(text).ok()
}

/// `hex::encode`: two lower-case hexadecimal digits for each byte, in order.
#[verifier::external_body]
pub(crate) fn hex_encode(data: &[u8]) -> (r: String)
    ensures
        r@ == hex_encoding(data@),
{
    hex::encode(data)
}

/// `0x` followed by the bytes in lower-case hexadecimal.
pub fn to_prefixed_hex(data: &[u8]) -> (r: String)
    ensures
        r@ == prefixed_hex(data@),
{
    proof {
        reveal_strlit("0x");
    }
    let head = "0x".to_owned();
    let digits = hex_encode(data);
    head.concat(digits.as_str())
}

} // verus!
