//! The mathematical model of the codec: what a hex digit is, which byte a
//! pair of digits denotes, and what the encoded and decoded forms of a whole
//! buffer look like. Every executable contract in this crate is stated over
//! these functions.

use vstd::prelude::*;

verus! {

/// A byte is an ASCII hex digit: `0-9`, `a-f`, or `A-F`.
pub open spec fn is_hex_digit(b: u8) -> bool {
    (0x30 <= b <= 0x39) || (0x61 <= b <= 0x66) || (0x41 <= b <= 0x46)
}

/// The nibble denoted by a hex digit, or the sentinel `0xFF` for a byte that
/// is not a hex digit.
pub open spec fn nibble_value(b: u8) -> u8 {
    if 0x30 <= b <= 0x39 {
        (b - 0x30) as u8
    } else if 0x61 <= b <= 0x66 {
        (b - 0x61 + 10) as u8
    } else if 0x41 <= b <= 0x46 {
        (b - 0x41 + 10) as u8
    } else {
        0xFF
    }
}

/// The byte denoted by a pair of hex digits: high nibble, then low nibble.
pub open spec fn decoded_byte(hi: u8, lo: u8) -> u8
    recommends
        is_hex_digit(hi),
        is_hex_digit(lo),
{
    (nibble_value(hi) * 16 + nibble_value(lo)) as u8
}

/// One entry of the pair table: the decoded byte for two valid digits, or
/// the value `0x0100` (flag bit set) when either byte is not a hex digit.
pub open spec fn pair_value(hi: u8, lo: u8) -> u16 {
    if is_hex_digit(hi) && is_hex_digit(lo) {
        (nibble_value(hi) * 16 + nibble_value(lo)) as u16
    } else {
        0x0100
    }
}

/// Every byte of `s` is a hex digit.
pub open spec fn valid_hex(s: Seq<u8>) -> bool {
    forall|i: int| 0 <= i < s.len() ==> is_hex_digit(#[trigger] s[i])
}

/// `i` is the position of the first byte of `s` that is not a hex digit.
pub open spec fn is_first_invalid(s: Seq<u8>, i: int) -> bool {
    &&& 0 <= i < s.len()
    &&& !is_hex_digit(s[i])
    &&& forall|j: int| 0 <= j < i ==> is_hex_digit(#[trigger] s[j])
}

/// The bytes denoted by the hex text `s`, pair by pair.
pub open spec fn decoded_bytes(s: Seq<u8>) -> Seq<u8>
    recommends
        s.len() % 2 == 0,
        valid_hex(s),
{
    Seq::new(s.len() / 2, |i: int| decoded_byte(s[2 * i], s[2 * i + 1]))
}

/// The ASCII hex digit for a nibble, in the selected alphabet.
pub open spec fn hex_digit_char(nib: u8, lowercase: bool) -> u8
    recommends
        nib < 16,
{
    if nib < 10 {
        (0x30 + nib) as u8
    } else if lowercase {
        (0x61 + (nib - 10)) as u8
    } else {
        (0x41 + (nib - 10)) as u8
    }
}

/// The hex text for the byte buffer `src`: two digits per byte, high nibble
/// first, in the selected alphabet.
pub open spec fn encoded_bytes(src: Seq<u8>, lowercase: bool) -> Seq<u8> {
    Seq::new(
        src.len() * 2,
        |i: int|
            if i % 2 == 0 {
                hex_digit_char((src[i / 2] / 16) as u8, lowercase)
            } else {
                hex_digit_char((src[i / 2] % 16) as u8, lowercase)
            },
    )
}

/// Folds an uppercase hex letter to its lowercase form and leaves every
/// other byte unchanged.
pub open spec fn hex_case_fold(b: u8) -> u8 {
    if 0x41 <= b <= 0x46 {
        (b + 0x20) as u8
    } else {
        b
    }
}

/// ASCII bytes viewed as the characters they denote.
pub open spec fn ascii_chars(bs: Seq<u8>) -> Seq<char> {
    bs.map_values(|b: u8| b as char)
}

/// The decimal ASCII digits of `n`, most significant first.
pub open spec fn dec_rep(n: nat) -> Seq<u8>
    decreases n,
{
    if n < 10 {
        seq![(0x30 + n) as u8]
    } else {
        dec_rep(n / 10).push((0x30 + n % 10) as u8)
    }
}

/// The character an error message shows for an offending byte: the byte
/// itself if it is graphic ASCII, a question mark otherwise.
pub open spec fn display_byte_char(b: u8) -> char {
    if 0x21 <= b <= 0x7e {
        b as char
    } else {
        '?'
    }
}

/// The message of `Error::InvalidByte { index, byte }`.
pub open spec fn invalid_byte_message(index: nat, byte: u8) -> Seq<char> {
    "invalid hex byte 0x"@ + ascii_chars(encoded_bytes(seq![byte], true)) + " ('"@ + seq![
        display_byte_char(byte),
    ] + "') at index "@ + ascii_chars(dec_rep(index))
}

/// The destination after a decode that consumed the first `k` pairs of `s`:
/// positions `0..k` hold the decoded bytes and every other position still
/// holds the byte it held before the call.
pub open spec fn decoded_prefix_written(s: Seq<u8>, pre: Seq<u8>, post: Seq<u8>, k: int) -> bool {
    &&& post.len() == pre.len()
    &&& forall|m: int| 0 <= m < k ==> #[trigger] post[m] == decoded_byte(s[2 * m], s[2 * m + 1])
    &&& forall|m: int| k <= m < post.len() ==> #[trigger] post[m] == pre[m]
}

} // verus!
