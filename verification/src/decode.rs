//! Scalar hex decoder: length rule, lookup tables, and the table-driven
//! decode loops.

use vstd::prelude::*;

use crate::model::{
    decoded_byte, decoded_bytes, decoded_prefix_written, is_first_invalid, is_hex_digit,
    nibble_value, pair_value, valid_hex,
};
use crate::Error;

verus! {

/// Returns the number of bytes produced from a hex string of `hex_len` bytes.
///
/// Returns `Error::OddLength` if `hex_len` is odd.
pub fn decoded_len(hex_len: usize) -> (r: Result<usize, Error>)
    ensures
        hex_len % 2 == 0 ==> r == Ok::<usize, Error>(hex_len / 2),
        hex_len % 2 != 0 ==> r == Err::<usize, Error>(Error::OddLength),
{
    if hex_len % 2 != 0 {
        Err(Error::OddLength)
    } else {
        Ok(hex_len / 2)
    }
}

/// Decode ASCII-hex bytes `src_hex` into `dst`.
///
/// `src_hex` must contain an even number of bytes, all valid hex characters
/// (`0-9`, `a-f`, `A-F`); otherwise the exact error is returned. `dst` must
/// be at least `src_hex.len() / 2` bytes. Returns the number of bytes
/// written; bytes of `dst` past that count are left untouched.
pub fn decode_to_slice(src_hex: &[u8], dst: &mut [u8]) -> (r: Result<usize, Error>)
    ensures
        final(dst)@.len() == old(dst)@.len(),
        src_hex@.len() % 2 != 0 ==> r == Err::<usize, Error>(Error::OddLength) && final(dst)@
            == old(dst)@,
        src_hex@.len() % 2 == 0 && old(dst)@.len() < src_hex@.len() / 2 ==> r == Err::<
            usize,
            Error,
        >(Error::OutputTooSmall) && final(dst)@ == old(dst)@,
        src_hex@.len() % 2 == 0 && old(dst)@.len() >= src_hex@.len() / 2 && valid_hex(src_hex@)
            ==> (r == Ok::<usize, Error>((src_hex@.len() / 2) as usize) && decoded_prefix_written(
            src_hex@,
            old(dst)@,
            final(dst)@,
            src_hex@.len() as int / 2,
        )),
        src_hex@.len() % 2 == 0 && old(dst)@.len() >= src_hex@.len() / 2 && !valid_hex(src_hex@)
            ==> (r matches Err(Error::InvalidByte { index, byte }) && is_first_invalid(
            src_hex@,
            index as int,
        ) && byte == src_hex@[index as int] && decoded_prefix_written(
            src_hex@,
            old(dst)@,
            final(dst)@,
            (index as int) / 2,
        )),
{
    let out_len = match decoded_len(src_hex.len()) {
        Ok(n) => n,
        Err(e) => {
            return Err(e);
        },
    };
    if dst.len() < out_len {
        return Err(Error::OutputTooSmall);
    }
    decode_scalar(src_hex, dst)
}

/// Decode exactly `N` bytes from a hex string of length `2 * N`.
///
/// Returns `Error::OutputTooSmall` if `src_hex.len() / 2 != N`.
pub fn decode_to_array<const N: usize>(src_hex: &[u8]) -> (r: Result<[u8; N], Error>)
    ensures
        src_hex@.len() % 2 != 0 ==> r == Err::<[u8; N], Error>(Error::OddLength),
        src_hex@.len() % 2 == 0 && src_hex@.len() / 2 != N as nat ==> r == Err::<
            [u8; N],
            Error,
        >(Error::OutputTooSmall),
        src_hex@.len() % 2 == 0 && src_hex@.len() / 2 == N as nat && valid_hex(src_hex@) ==> (
        r matches Ok(arr) && arr@ == decoded_bytes(src_hex@)),
        src_hex@.len() % 2 == 0 && src_hex@.len() / 2 == N as nat && !valid_hex(src_hex@) ==> (
        r matches Err(Error::InvalidByte { index, byte }) && is_first_invalid(
            src_hex@,
            index as int,
        ) && byte == src_hex@[index as int]),
{
    let out_len = match decoded_len(src_hex.len()) {
        Ok(n) => n,
        Err(e) => {
            return Err(e);
        },
    };
    if out_len != N {
        return Err(Error::OutputTooSmall);
    }
    let mut arr: [u8; N] = [0u8; N];
    match decode_to_slice(src_hex, &mut arr) {
        Ok(_) => {},
        Err(e) => {
            return Err(e);
        },
    }
    proof {
        assert(arr@ =~= decoded_bytes(src_hex@));
    }
    Ok(arr)
}

/// Decode hex bytes in place: `buf` initially contains ASCII hex; after
/// decoding, the first `buf.len() / 2` bytes hold the result.
///
/// The whole input is validated before the first write, so on any error the
/// buffer is completely unmodified. Returns the number of bytes written.
pub fn decode_in_place(buf: &mut [u8]) -> (r: Result<usize, Error>)
    ensures
        final(buf)@.len() == old(buf)@.len(),
        old(buf)@.len() % 2 != 0 ==> r == Err::<usize, Error>(Error::OddLength) && final(buf)@
            == old(buf)@,
        old(buf)@.len() % 2 == 0 && valid_hex(old(buf)@) ==> (r == Ok::<usize, Error>(
            (old(buf)@.len() / 2) as usize,
        ) && decoded_prefix_written(old(buf)@, old(buf)@, final(buf)@, old(buf)@.len() as int / 2)),
        old(buf)@.len() % 2 == 0 && !valid_hex(old(buf)@) ==> (r matches Err(
            Error::InvalidByte { index, byte },
        ) && is_first_invalid(old(buf)@, index as int) && byte == old(buf)@[index as int]
            && final(buf)@ == old(buf)@),
{
    let out_len = match decoded_len(buf.len()) {
        Ok(n) => n,
        Err(e) => {
            return Err(e);
        },
    };

    // Pass 1: validate without writing, so on error the buffer is unchanged.
    let mut i: usize = 0;
    while i < out_len
        invariant
            buf@ == old(buf)@,
            buf@.len() % 2 == 0,
            out_len == buf@.len() / 2,
            2 * out_len <= usize::MAX,
            i <= out_len,
            forall|j: int| 0 <= j < 2 * i ==> is_hex_digit(#[trigger] buf@[j]),
        decreases out_len - i,
    {
        let hi = buf[2 * i];
        let lo = buf[2 * i + 1];

        if unhex_byte(hi).is_none() {
            return Err(Error::InvalidByte { index: 2 * i, byte: hi });
        }
        if unhex_byte(lo).is_none() {
            return Err(Error::InvalidByte { index: 2 * i + 1, byte: lo });
        }
        i += 1;
    }

    // Pass 2: decode. Each write lands below every byte still to be read.
    let mut i: usize = 0;
    while i < out_len
        invariant
            buf@.len() == old(buf)@.len(),
            old(buf)@.len() % 2 == 0,
            out_len == old(buf)@.len() / 2,
            2 * out_len <= usize::MAX,
            i <= out_len,
            valid_hex(old(buf)@),
            forall|m: int| 0 <= m < i ==> #[trigger] buf@[m] == decoded_byte(
                old(buf)@[2 * m],
                old(buf)@[2 * m + 1],
            ),
            forall|m: int| i <= m < buf@.len() ==> #[trigger] buf@[m] == old(buf)@[m],
        decreases out_len - i,
    {
        let hi = buf[2 * i];
        let lo = buf[2 * i + 1];
        // Validation above guarantees this pair is valid.
        let v = decode_pair(hi, lo);
        buf[i] = v as u8;
        i += 1;
    }

    Ok(out_len)
}

/// Map a single ASCII hex digit to its nibble value (0..=15).
/// Returns `None` for non-hex bytes.
pub fn unhex_byte(b: u8) -> (r: Option<u8>)
    ensures
        is_hex_digit(b) ==> r == Some(nibble_value(b)),
        !is_hex_digit(b) ==> r is None,
{
    if b >= 0x30 && b <= 0x39 {
        Some(b - 0x30)
    } else if b >= 0x61 && b <= 0x66 {
        Some(b - 0x61 + 10)
    } else if b >= 0x41 && b <= 0x46 {
        Some(b - 0x41 + 10)
    } else {
        None
    }
}

/// The value the pair table holds for the two ASCII bytes `hi`, `lo`: the
/// decoded byte in `0x0000..=0x00FF`, or `0x0100` if either byte is not a
/// hex digit.
pub fn decode_pair(hi: u8, lo: u8) -> (v: u16)
    ensures
        v == pair_value(hi, lo),
{
    match (unhex_byte(hi), unhex_byte(lo)) {
        (Some(hn), Some(ln)) => (hn as u16) * 16 + (ln as u16),
        _ => 0x0100,
    }
}

/// 256-entry nibble table: value (0..=15) for a hex digit, 0xFF otherwise.
pub fn make_unhex_table() -> (t: [u8; 256])
    ensures
        forall|b: int| 0 <= b < 256 ==> t@[b] == nibble_value(b as u8),
{
    let mut t: [u8; 256] = [0xFF; 256];
    let mut i: usize = 0;
    while i < 256
        invariant
            i <= 256,
            forall|b: int| 0 <= b < i ==> t@[b] == nibble_value(b as u8),
        decreases 256 - i,
    {
        let b = i as u8;
        t[i] = if b >= 0x30 && b <= 0x39 {
            b - 0x30
        } else if b >= 0x61 && b <= 0x66 {
            b - 0x61 + 10
        } else if b >= 0x41 && b <= 0x46 {
            b - 0x41 + 10
        } else {
            0xFF
        };
        i += 1;
    }
    t
}

/// 65536-entry pair table, indexed by `hi * 256 + lo` over the two ASCII
/// bytes of one hex group. Each entry is either the decoded byte
/// (`0x0000..=0x00FF`) or `0x0100`, the invalid flag bit. Derived from the
/// nibble table; lets the scalar decoder process two input bytes with a
/// single lookup.
pub fn make_hexpair_table() -> (t: Vec<u16>)
    ensures
        t@.len() == 65536,
        forall|k: int| 0 <= k < 65536 ==> #[trigger] t@[k] == pair_value(
            (k / 256) as u8,
            (k % 256) as u8,
        ),
{
    let mut t: Vec<u16> = vec![0x0100u16; 65536];
    let unhex = make_unhex_table();

    let mut hi: usize = 0;
    while hi < 256
        invariant
            hi <= 256,
            t@.len() == 65536,
            forall|b: int| 0 <= b < 256 ==> unhex@[b] == nibble_value(b as u8),
            forall|k: int| 0 <= k < hi * 256 ==> #[trigger] t@[k] == pair_value(
                (k / 256) as u8,
                (k % 256) as u8,
            ),
            forall|k: int| hi * 256 <= k < 65536 ==> #[trigger] t@[k] == 0x0100,
        decreases 256 - hi,
    {
        let mut lo: usize = 0;
        while lo < 256
            invariant
                hi < 256,
                lo <= 256,
                t@.len() == 65536,
                forall|b: int| 0 <= b < 256 ==> unhex@[b] == nibble_value(b as u8),
                forall|k: int| 0 <= k < hi * 256 + lo ==> #[trigger] t@[k] == pair_value(
                    (k / 256) as u8,
                    (k % 256) as u8,
                ),
                forall|k: int| hi * 256 + lo <= k < 65536 ==> #[trigger] t@[k] == 0x0100,
            decreases 256 - lo,
        {
            let hn = unhex[hi];
            let ln = unhex[lo];
            let idx: usize = hi * 256 + lo;
            proof {
                assert((hi * 256 + lo) / 256 == hi && (hi * 256 + lo) % 256 == lo)
                    by (nonlinear_arith)
                    requires
                        hi < 256,
                        lo < 256,
                ;
            }
            if hn != 0xFF && ln != 0xFF {
                t[idx] = (hn as u16) * 16 + (ln as u16);
            }
            lo += 1;
        }
        hi += 1;
    }

    t
}

/// A pair-table entry has the flag bit set exactly when it is `0x0100`.
proof fn lemma_pair_flag(v: u16)
    requires
        v <= 0x0100,
    ensures
        (v & 0x0100 != 0) <==> v == 0x0100,
{
    assert((v & 0x0100 != 0) <==> v == 0x0100) by (bit_vector)
        requires
            v <= 0x0100,
    ;
}

/// Decode `src_hex` into `dst`, one pair-table lookup per output byte.
///
/// Expects an even-length input and a large enough destination (the public
/// entry points check both). On an invalid byte it reports the exact index
/// and leaves the destination unchanged from the failing pair onward; the
/// bytes decoded before the failure remain written.
pub fn decode_scalar(src_hex: &[u8], dst: &mut [u8]) -> (r: Result<usize, Error>)
    requires
        src_hex@.len() % 2 == 0,
        old(dst)@.len() >= src_hex@.len() / 2,
    ensures
        final(dst)@.len() == old(dst)@.len(),
        valid_hex(src_hex@) ==> (r == Ok::<usize, Error>((src_hex@.len() / 2) as usize)
            && decoded_prefix_written(src_hex@, old(dst)@, final(dst)@, src_hex@.len() as int / 2)),
        !valid_hex(src_hex@) ==> (r matches Err(Error::InvalidByte { index, byte })
            && is_first_invalid(src_hex@, index as int)
            && byte == src_hex@[index as int]
            && decoded_prefix_written(src_hex@, old(dst)@, final(dst)@, (index as int) / 2)),
{
    let out_len = src_hex.len() / 2;
    let table = make_hexpair_table();

    let mut i: usize = 0;
    while i < out_len
        invariant
            src_hex@.len() % 2 == 0,
            out_len == src_hex@.len() / 2,
            2 * out_len <= usize::MAX,
            i <= out_len,
            dst@.len() == old(dst)@.len() >= out_len,
            table@.len() == 65536,
            forall|k: int| 0 <= k < 65536 ==> #[trigger] table@[k] == pair_value(
                (k / 256) as u8,
                (k % 256) as u8,
            ),
            forall|j: int| 0 <= j < 2 * i ==> is_hex_digit(#[trigger] src_hex@[j]),
            forall|m: int| 0 <= m < i ==> #[trigger] dst@[m] == decoded_byte(
                src_hex@[2 * m],
                src_hex@[2 * m + 1],
            ),
            forall|m: int| i <= m < dst@.len() ==> #[trigger] dst@[m] == old(dst)@[m],
        decreases out_len - i,
    {
        let j = 2 * i;
        let hi = src_hex[j];
        let lo = src_hex[j + 1];

        let idx: usize = (hi as usize) * 256 + (lo as usize);
        proof {
            assert(((hi as int) * 256 + (lo as int)) / 256 == hi as int
                && ((hi as int) * 256 + (lo as int)) % 256 == lo as int) by (nonlinear_arith)
                requires
                    hi < 256,
                    lo < 256,
            ;
        }
        let v = table[idx];
        proof {
            lemma_pair_flag(v);
        }
        if v & 0x0100 != 0 {
            // Slow path, taken only on error: find which of the two bytes is
            // invalid so the exact index and byte can be reported.
            if unhex_byte(hi).is_none() {
                return Err(Error::InvalidByte { index: j, byte: hi });
            }
            return Err(Error::InvalidByte { index: j + 1, byte: lo });
        }

        dst[i] = v as u8;
        i += 1;
    }

    Ok(out_len)
}

} // verus!
