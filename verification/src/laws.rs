//! Library-wide laws, proved over the model that every executable contract
//! is stated against.

use vstd::prelude::*;

use crate::model::{
    decoded_byte, decoded_bytes, encoded_bytes, hex_case_fold, hex_digit_char, is_first_invalid,
    is_hex_digit, nibble_value, valid_hex,
};

verus! {

/// An encoded nibble is a hex digit and decodes back to the same nibble, in
/// either alphabet.
proof fn lemma_nibble_round_trip(nib: u8, lowercase: bool)
    requires
        nib < 16,
    ensures
        is_hex_digit(hex_digit_char(nib, lowercase)),
        nibble_value(hex_digit_char(nib, lowercase)) == nib,
{
}

/// Round-trip: encoding any byte sequence, in either alphabet, yields valid
/// even-length hex text that decodes back to exactly the original bytes.
pub proof fn lemma_round_trip(src: Seq<u8>, lowercase: bool)
    ensures
        encoded_bytes(src, lowercase).len() == 2 * src.len(),
        valid_hex(encoded_bytes(src, lowercase)),
        decoded_bytes(encoded_bytes(src, lowercase)) == src,
{
    let h = encoded_bytes(src, lowercase);
    assert forall|i: int| 0 <= i < h.len() implies is_hex_digit(#[trigger] h[i]) by {
        lemma_nibble_round_trip((src[i / 2] / 16) as u8, lowercase);
        lemma_nibble_round_trip((src[i / 2] % 16) as u8, lowercase);
    }
    assert forall|m: int| 0 <= m < src.len() implies decoded_bytes(h)[m] == src[m] by {
        lemma_nibble_round_trip((src[m] / 16) as u8, lowercase);
        lemma_nibble_round_trip((src[m] % 16) as u8, lowercase);
        assert(h[2 * m] == hex_digit_char((src[m] / 16) as u8, lowercase));
        assert(h[2 * m + 1] == hex_digit_char((src[m] % 16) as u8, lowercase));
    }
    assert(decoded_bytes(h) =~= src);
}

/// Case folding does not change the nibble a hex digit denotes.
proof fn lemma_fold_keeps_value(b: u8)
    requires
        is_hex_digit(b),
    ensures
        nibble_value(hex_case_fold(b)) == nibble_value(b),
{
}

/// Case insensitivity: two valid hex texts that agree up to letter case
/// decode to identical bytes. In particular, any mixed-case spelling decodes
/// to the same output as the canonical lowercase encoding.
pub proof fn lemma_case_insensitive(s1: Seq<u8>, s2: Seq<u8>)
    requires
        s1.len() == s2.len(),
        valid_hex(s1),
        valid_hex(s2),
        forall|i: int| 0 <= i < s1.len() ==> hex_case_fold(s1[i]) == hex_case_fold(#[trigger] s2[i]),
    ensures
        decoded_bytes(s1) == decoded_bytes(s2),
{
    assert forall|m: int| 0 <= m < decoded_bytes(s1).len() implies decoded_bytes(s1)[m]
        == decoded_bytes(s2)[m] by {
        lemma_fold_keeps_value(s1[2 * m]);
        lemma_fold_keeps_value(s1[2 * m + 1]);
        lemma_fold_keeps_value(s2[2 * m]);
        lemma_fold_keeps_value(s2[2 * m + 1]);
    }
    assert(decoded_bytes(s1) =~= decoded_bytes(s2));
}

/// Idempotence on valid input: the decoded form is a function of the hex
/// text alone, so two decodes of the same buffer — as each decode entry
/// point's postcondition pins its output to `decoded_bytes` — produce the
/// same bytes.
pub proof fn lemma_decode_deterministic(h: Seq<u8>, d1: Seq<u8>, d2: Seq<u8>)
    requires
        d1 == decoded_bytes(h),
        d2 == decoded_bytes(h),
    ensures
        d1 == d2,
{
}

/// The first invalid position of a buffer is unique, so the error that the
/// decode entry points report is fully determined by the input.
pub proof fn lemma_first_invalid_unique(s: Seq<u8>, i: int, j: int)
    requires
        is_first_invalid(s, i),
        is_first_invalid(s, j),
    ensures
        i == j,
{
}

/// Error index precision: in a buffer whose only invalid byte sits at
/// position `i`, that position is the first invalid one, so every decode
/// entry point reports exactly `InvalidByte` with index `i` and that byte.
pub proof fn lemma_single_invalid_is_first(s: Seq<u8>, i: int)
    requires
        0 <= i < s.len(),
        !is_hex_digit(s[i]),
        forall|j: int| 0 <= j < s.len() && j != i ==> is_hex_digit(#[trigger] s[j]),
    ensures
        is_first_invalid(s, i),
        !valid_hex(s),
{
}

} // verus!
