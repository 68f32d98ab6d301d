//! Hex encoder: two ASCII digits per input byte, lowercase or uppercase.

use vstd::prelude::*;

use crate::model::{encoded_bytes, hex_digit_char};
use crate::Error;

verus! {

/// Returns the required output length (in bytes) for encoding `n` bytes to
/// hex. Meant to be used only where `2 * n` fits the platform's size type.
pub fn encoded_len(n: usize) -> (r: usize)
    requires
        n * 2 <= usize::MAX,
    ensures
        r == 2 * n,
{
    n * 2
}

/// A byte splits into its high and low nibble by shift and mask.
proof fn lemma_split_nibbles(b: u8)
    ensures
        b >> 4 == b / 16,
        b & 0x0f == b % 16,
        b >> 4 < 16,
        b & 0x0f < 16,
{
    assert(b >> 4 == b / 16 && b & 0x0f == b % 16 && b >> 4 < 16 && b & 0x0f < 16)
        by (bit_vector);
}

/// The hex digit for one nibble, in the selected alphabet.
fn hex_char_of(nib: u8, lowercase: bool) -> (c: u8)
    requires
        nib < 16,
    ensures
        c == hex_digit_char(nib, lowercase),
{
    if nib < 10 {
        0x30 + nib
    } else if lowercase {
        0x61 + (nib - 10)
    } else {
        0x41 + (nib - 10)
    }
}

/// Encode bytes into hex (lowercase or uppercase) into the provided output
/// slice, high nibble first. Returns the number of bytes written on success;
/// excess capacity of `dst_hex` is left untouched.
///
/// Returns `Error::OutputTooSmall` if `dst_hex` is shorter than `2 * src.len()`.
pub fn encode_to_slice(src: &[u8], dst_hex: &mut [u8], lowercase: bool) -> (r: Result<
    usize,
    Error,
>)
    requires
        src@.len() * 2 <= usize::MAX,
    ensures
        final(dst_hex)@.len() == old(dst_hex)@.len(),
        old(dst_hex)@.len() < 2 * src@.len() ==> r == Err::<usize, Error>(Error::OutputTooSmall)
            && final(dst_hex)@ == old(dst_hex)@,
        old(dst_hex)@.len() >= 2 * src@.len() ==> (r == Ok::<usize, Error>(
            (2 * src@.len()) as usize,
        ) && (forall|k: int|
            0 <= k < 2 * src@.len() ==> #[trigger] final(dst_hex)@[k] == encoded_bytes(
                src@,
                lowercase,
            )[k]) && (forall|k: int|
            2 * src@.len() <= k < old(dst_hex)@.len() ==> #[trigger] final(dst_hex)@[k] == old(
                dst_hex,
            )@[k])),
{
    let out_len = encoded_len(src.len());
    if dst_hex.len() < out_len {
        return Err(Error::OutputTooSmall);
    }

    let mut i: usize = 0;
    while i < src.len()
        invariant
            src@.len() * 2 <= usize::MAX,
            out_len == 2 * src@.len(),
            dst_hex@.len() == old(dst_hex)@.len() >= out_len,
            i <= src@.len(),
            forall|k: int| 0 <= k < 2 * i ==> #[trigger] dst_hex@[k] == encoded_bytes(
                src@,
                lowercase,
            )[k],
            forall|k: int| 2 * i <= k < dst_hex@.len() ==> #[trigger] dst_hex@[k] == old(
                dst_hex,
            )@[k],
        decreases src@.len() - i,
    {
        let byte = src[i];
        proof {
            lemma_split_nibbles(byte);
        }
        dst_hex[2 * i] = hex_char_of(byte >> 4, lowercase);
        dst_hex[2 * i + 1] = hex_char_of(byte & 0x0f, lowercase);
        i += 1;
    }

    Ok(out_len)
}

/// Relies on `String::from_utf8`: ASCII bytes are valid UTF-8 and decode to
/// exactly one `char` per byte, each the same code point as the byte.
#[verifier::external_body]
pub(crate) fn ascii_bytes_to_string(bytes: Vec<u8>) -> (s: String)
    requires
        forall|i: int| 0 <= i < bytes@.len() ==> bytes@[i] < 0x80,
    ensures
        s@.len() == bytes@.len(),
        forall|i: int| 0 <= i < bytes@.len() ==> s@[i] == bytes@[i] as char,
{
    String::from_utf8(bytes).expect("ASCII bytes are valid UTF-8")
}

/// Encode into a newly allocated `String`.
pub fn encode_to_string(src: &[u8], lowercase: bool) -> (s: String)
    requires
        src@.len() * 2 <= usize::MAX,
    ensures
        s@.len() == 2 * src@.len(),
        forall|i: int|
            0 <= i < s@.len() ==> #[trigger] s@[i] == encoded_bytes(src@, lowercase)[i] as char,
{
    let mut out: Vec<u8> = vec![0u8; encoded_len(src.len())];
    // Infallible: the buffer is pre-sized.
    let _ = encode_to_slice(src, out.as_mut_slice(), lowercase);

    proof {
        assert forall|i: int| 0 <= i < out@.len() implies out@[i] < 0x80 by {
            assert(out@[i] == encoded_bytes(src@, lowercase)[i]);
        }
    }
    ascii_bytes_to_string(out)
}

} // verus!
