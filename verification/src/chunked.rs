//! Chunked two-pass hex decoder.
//!
//! Processes the input in fixed-size chunks of 16 hex characters (8 output
//! bytes). Every chunk — and the tail that does not fill a chunk — is
//! validated before a single byte is written, so on any error the
//! destination is completely untouched, and the reported error index is the
//! same one the scalar engine would report. Each chunk classifies its bytes
//! with comparisons over the case-folded value and maps them to nibbles with
//! a branchless select, as a whole-register implementation would per lane.

use vstd::prelude::*;
use vstd::slice::slice_subrange;

use crate::decode::decode_pair;
use crate::model::{decoded_byte, decoded_bytes, is_first_invalid, is_hex_digit, nibble_value,
    valid_hex};
use crate::Error;

verus! {

/// Hex characters consumed by one chunk.
const CHUNK_HEX: usize = 16;

/// Bytes produced by one chunk.
const CHUNK_OUT: usize = 8;

/// Whether a byte is an ASCII hex digit.
pub fn is_hex_ascii(b: u8) -> (r: bool)
    ensures
        r == is_hex_digit(b),
{
    (b >= 0x30 && b <= 0x39) || (b >= 0x61 && b <= 0x66) || (b >= 0x41 && b <= 0x46)
}

/// Validate a run of hex characters without writing anything. Error indices
/// are reported relative to the full buffer: `hex_base` is added to the
/// position within `src_hex`.
pub fn validate_hex_scalar(src_hex: &[u8], hex_base: usize) -> (r: Result<(), Error>)
    requires
        hex_base + src_hex@.len() <= usize::MAX,
    ensures
        valid_hex(src_hex@) ==> r == Ok::<(), Error>(()),
        !valid_hex(src_hex@) ==> (r matches Err(Error::InvalidByte { index, byte })
            && index >= hex_base
            && is_first_invalid(src_hex@, index - hex_base)
            && byte == src_hex@[index - hex_base]),
{
    let mut i: usize = 0;
    while i < src_hex.len()
        invariant
            hex_base + src_hex@.len() <= usize::MAX,
            i <= src_hex@.len(),
            forall|j: int| 0 <= j < i ==> is_hex_digit(#[trigger] src_hex@[j]),
        decreases src_hex@.len() - i,
    {
        let b = src_hex[i];
        if !is_hex_ascii(b) {
            return Err(Error::InvalidByte { index: hex_base + i, byte: b });
        }
        i += 1;
    }
    Ok(())
}

/// Case folding classifies a byte as a hex digit: it is one exactly when it
/// is a decimal digit or its folded form lies in `a..=f`.
proof fn lemma_fold_classify(b: u8)
    ensures
        ((b >= 0x30 && b <= 0x39) || ((b | 0x20) >= 0x61 && (b | 0x20) <= 0x66)) == is_hex_digit(
            b,
        ),
{
    assert(((b >= 0x30 && b <= 0x39) || ((b | 0x20) >= 0x61 && (b | 0x20) <= 0x66))
        == is_hex_digit(b)) by (bit_vector);
}

/// For a valid hex digit, the branchless nibble map is exact: a decimal
/// digit maps by subtracting `0`, anything else case-folds and maps from `a`.
proof fn lemma_fold_nibble(b: u8)
    requires
        is_hex_digit(b),
    ensures
        b <= 0x39 ==> b >= 0x30 && (b - 0x30) as u8 == nibble_value(b),
        b > 0x39 ==> 0x61 <= (b | 0x20) <= 0x66 && ((b | 0x20) - 0x61 + 10) as u8 == nibble_value(
            b,
        ),
{
    assert((b <= 0x39 ==> b >= 0x30 && (b - 0x30) as u8 == nibble_value(b)) && (b > 0x39 ==> 0x61
        <= (b | 0x20) <= 0x66 && ((b | 0x20) - 0x61 + 10) as u8 == nibble_value(b)))
        by (bit_vector)
        requires
            is_hex_digit(b),
    ;
}

/// Two nibbles pack into one byte: high nibble shifted left four bits, ORed
/// with the low nibble.
proof fn lemma_nibble_pack(hn: u8, ln: u8)
    requires
        hn < 16,
        ln < 16,
    ensures
        ((hn << 4) | ln) == hn * 16 + ln,
{
    assert(((hn << 4) | ln) == hn * 16 + ln) by (bit_vector)
        requires
            hn < 16,
            ln < 16,
    ;
}

/// Validate one chunk of 16 hex characters starting at `hex_off`, reporting
/// the absolute index of the first invalid byte in the chunk.
fn validate_chunk16(src_hex: &[u8], hex_off: usize) -> (r: Result<(), Error>)
    requires
        hex_off + CHUNK_HEX <= src_hex@.len(),
    ensures
        r is Ok <==> (forall|j: int|
            hex_off <= j < hex_off + CHUNK_HEX ==> is_hex_digit(#[trigger] src_hex@[j])),
        r matches Err(e) ==> (e matches Error::InvalidByte { index, byte }
            && hex_off <= index < hex_off + CHUNK_HEX
            && !is_hex_digit(src_hex@[index as int])
            && byte == src_hex@[index as int]
            && (forall|j: int| hex_off <= j < index ==> is_hex_digit(#[trigger] src_hex@[j]))),
{
    let n = src_hex.len();
    let mut lane: usize = 0;
    while lane < CHUNK_HEX
        invariant
            hex_off + CHUNK_HEX <= n == src_hex@.len(),
            lane <= CHUNK_HEX,
            forall|j: int| hex_off <= j < hex_off + lane ==> is_hex_digit(#[trigger] src_hex@[j]),
        decreases CHUNK_HEX - lane,
    {
        let b = src_hex[hex_off + lane];
        let lower = b | 0x20;
        let is_digit = b >= 0x30 && b <= 0x39;
        let is_alpha = lower >= 0x61 && lower <= 0x66;
        proof {
            lemma_fold_classify(b);
        }
        if !(is_digit || is_alpha) {
            return Err(Error::InvalidByte { index: hex_off + lane, byte: b });
        }
        lane += 1;
    }
    Ok(())
}

/// Decode one fully validated chunk: 16 hex characters at `hex_off` become
/// 8 bytes at `out_off`. Nothing outside `dst[out_off..out_off + 8]` is
/// written.
fn decode_chunk16(src_hex: &[u8], hex_off: usize, dst: &mut [u8], out_off: usize)
    requires
        hex_off + CHUNK_HEX <= src_hex@.len(),
        out_off + CHUNK_OUT <= old(dst)@.len(),
        forall|j: int| hex_off <= j < hex_off + CHUNK_HEX ==> is_hex_digit(#[trigger] src_hex@[j]),
    ensures
        final(dst)@.len() == old(dst)@.len(),
        forall|m: int|
            out_off <= m < out_off + CHUNK_OUT ==> #[trigger] final(dst)@[m] == decoded_byte(
                src_hex@[hex_off + 2 * (m - out_off)],
                src_hex@[hex_off + 2 * (m - out_off) + 1],
            ),
        forall|m: int|
            0 <= m < old(dst)@.len() && !(out_off <= m < out_off + CHUNK_OUT)
                ==> #[trigger] final(dst)@[m] == old(dst)@[m],
{
    let n = src_hex.len();
    let dst_len = dst.len();
    let mut k: usize = 0;
    while k < CHUNK_OUT
        invariant
            hex_off + CHUNK_HEX <= n == src_hex@.len(),
            out_off + CHUNK_OUT <= dst_len == dst@.len(),
            dst@.len() == old(dst)@.len(),
            k <= CHUNK_OUT,
            forall|j: int| hex_off <= j < hex_off + CHUNK_HEX ==> is_hex_digit(
                #[trigger] src_hex@[j],
            ),
            forall|m: int|
                out_off <= m < out_off + k ==> #[trigger] dst@[m] == decoded_byte(
                    src_hex@[hex_off + 2 * (m - out_off)],
                    src_hex@[hex_off + 2 * (m - out_off) + 1],
                ),
            forall|m: int|
                0 <= m < dst@.len() && !(out_off <= m < out_off + k) ==> #[trigger] dst@[m] == old(
                    dst,
                )@[m],
        decreases CHUNK_OUT - k,
    {
        let hi = src_hex[hex_off + 2 * k];
        let lo = src_hex[hex_off + 2 * k + 1];
        proof {
            lemma_fold_nibble(hi);
            lemma_fold_nibble(lo);
        }
        // Branchless select per lane: digit value or case-folded letter value.
        let hn = if hi <= 0x39 {
            hi - 0x30
        } else {
            (hi | 0x20) - 0x61 + 10
        };
        let ln = if lo <= 0x39 {
            lo - 0x30
        } else {
            (lo | 0x20) - 0x61 + 10
        };
        proof {
            lemma_nibble_pack(hn, ln);
        }
        dst[out_off + k] = (hn << 4) | ln;
        k += 1;
    }
}

/// Decode `src_hex` into `dst` chunk by chunk, with the remainder below one
/// chunk decoded pair by pair. Both passes run over the whole input: all
/// validation happens before the first write, so on any error `dst` is
/// byte-for-byte unchanged. Observable behavior — output bytes and error
/// index and byte — is identical to the scalar engine's.
pub fn decode_to_slice_chunked(src_hex: &[u8], dst: &mut [u8]) -> (r: Result<usize, Error>)
    requires
        src_hex@.len() == old(dst)@.len() * 2,
    ensures
        final(dst)@.len() == old(dst)@.len(),
        valid_hex(src_hex@) ==> (r == Ok::<usize, Error>(old(dst)@.len() as usize)
            && final(dst)@ == decoded_bytes(src_hex@)),
        !valid_hex(src_hex@) ==> (r matches Err(Error::InvalidByte { index, byte })
            && is_first_invalid(src_hex@, index as int)
            && byte == src_hex@[index as int]
            && final(dst)@ == old(dst)@),
{
    let src_len = src_hex.len();
    let out_len = dst.len();
    let iters = out_len / CHUNK_OUT;
    proof {
        assert(16 * (out_len as int / 8) <= 2 * out_len) by (nonlinear_arith);
        assert(src_len == 2 * out_len);
    }
    let tail_hex_start = iters * CHUNK_HEX;

    // Pass 1: validate every full chunk, then the tail. No writes.
    let mut i: usize = 0;
    while i < iters
        invariant
            out_len == dst@.len(),
            src_hex@.len() == dst@.len() * 2,
            dst@ == old(dst)@,
            iters == out_len / 8,
            16 * iters <= src_hex@.len(),
            src_hex@.len() <= usize::MAX,
            i <= iters,
            forall|j: int| 0 <= j < 16 * i ==> is_hex_digit(#[trigger] src_hex@[j]),
        decreases iters - i,
    {
        let hex_off = i * CHUNK_HEX;
        match validate_chunk16(src_hex, hex_off) {
            Ok(()) => {},
            Err(e) => {
                return Err(e);
            },
        }
        i += 1;
    }

    let tail_hex = slice_subrange(src_hex, tail_hex_start, src_hex.len());
    if tail_hex.len() > 0 {
        match validate_hex_scalar(tail_hex, tail_hex_start) {
            Ok(()) => {},
            Err(e) => {
                proof {
                    let idx = (e->index) as int;
                    assert(src_hex@[idx] == tail_hex@[idx - tail_hex_start as int]);
                    assert forall|j: int| 0 <= j < idx implies is_hex_digit(
                        #[trigger] src_hex@[j],
                    ) by {
                        if j >= tail_hex_start as int {
                            assert(src_hex@[j] == tail_hex@[j - tail_hex_start as int]);
                        }
                    }
                }
                return Err(e);
            },
        }
    }

    proof {
        assert forall|j: int| 0 <= j < src_hex@.len() implies is_hex_digit(
            #[trigger] src_hex@[j],
        ) by {
            if j >= tail_hex_start as int {
                assert(src_hex@[j] == tail_hex@[j - tail_hex_start as int]);
            }
        }
    }

    // Pass 2: decode. Safe to write now.
    let mut i: usize = 0;
    while i < iters
        invariant
            valid_hex(src_hex@),
            out_len == dst@.len(),
            dst@.len() == old(dst)@.len(),
            src_hex@.len() == dst@.len() * 2,
            iters == out_len / 8,
            16 * iters <= src_hex@.len(),
            src_hex@.len() <= usize::MAX,
            8 * iters <= out_len,
            i <= iters,
            forall|m: int| 0 <= m < 8 * i ==> #[trigger] dst@[m] == decoded_bytes(src_hex@)[m],
            forall|m: int| 8 * i <= m < dst@.len() ==> #[trigger] dst@[m] == old(dst)@[m],
        decreases iters - i,
    {
        decode_chunk16(src_hex, i * CHUNK_HEX, dst, i * CHUNK_OUT);
        i += 1;
    }

    // Tail: decode the remainder pair by pair, as the scalar engine does.
    let mut k: usize = iters * CHUNK_OUT;
    while k < out_len
        invariant
            valid_hex(src_hex@),
            out_len == dst@.len(),
            dst@.len() == old(dst)@.len(),
            src_hex@.len() == dst@.len() * 2,
            2 * out_len <= usize::MAX,
            k <= out_len,
            forall|m: int| 0 <= m < k ==> #[trigger] dst@[m] == decoded_bytes(src_hex@)[m],
            forall|m: int| k <= m < dst@.len() ==> #[trigger] dst@[m] == old(dst)@[m],
        decreases out_len - k,
    {
        let hi = src_hex[2 * k];
        let lo = src_hex[2 * k + 1];
        let v = decode_pair(hi, lo);
        dst[k] = v as u8;
        k += 1;
    }

    proof {
        assert(dst@ =~= decoded_bytes(src_hex@));
    }
    Ok(out_len)
}

} // verus!
