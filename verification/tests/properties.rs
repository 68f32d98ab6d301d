use fast_hex_lite::chunked::{decode_to_slice_chunked, is_hex_ascii, validate_hex_scalar};
use fast_hex_lite::decode::decode_pair;
use fast_hex_lite::{decode_to_slice, Error};

// ── error index precision on buffers crossing chunk boundaries ─────────────

fn valid_80() -> Vec<u8> {
    let mut hex = Vec::new();
    for _ in 0..40 {
        hex.extend_from_slice(b"a5");
    }
    hex
}

#[test]
fn test_error_index_first_position_long_buffer() {
    let mut hex = valid_80();
    hex[0] = b'!';
    let mut dst = vec![0u8; 40];
    let err = decode_to_slice_chunked(&hex, &mut dst).unwrap_err();
    assert_eq!(err, Error::InvalidByte { index: 0, byte: b'!' });
}

#[test]
fn test_error_index_at_chunk_boundary_long_buffer() {
    let mut hex = valid_80();
    hex[32] = b'q';
    let mut dst = vec![0u8; 40];
    let err = decode_to_slice_chunked(&hex, &mut dst).unwrap_err();
    assert_eq!(err, Error::InvalidByte { index: 32, byte: b'q' });
}

#[test]
fn test_error_index_mid_chunk_long_buffer() {
    let mut hex = valid_80();
    hex[41] = b'*';
    let mut dst = vec![0u8; 40];
    let err = decode_to_slice_chunked(&hex, &mut dst).unwrap_err();
    assert_eq!(err, Error::InvalidByte { index: 41, byte: b'*' });
}

#[test]
fn test_error_index_last_position_long_buffer() {
    let mut hex = valid_80();
    hex[79] = b'~';
    let mut dst = vec![0u8; 40];
    let err = decode_to_slice_chunked(&hex, &mut dst).unwrap_err();
    assert_eq!(err, Error::InvalidByte { index: 79, byte: b'~' });
}

#[test]
fn test_error_index_scalar_matches_chunked_long_buffer() {
    // Both engines must report the identical error on the same input.
    let mut hex = valid_80();
    hex[50] = b'G';
    let mut dst1 = vec![0u8; 40];
    let mut dst2 = vec![0u8; 40];
    let err_scalar = decode_to_slice(&hex, &mut dst1).unwrap_err();
    let err_chunked = decode_to_slice_chunked(&hex, &mut dst2).unwrap_err();
    assert_eq!(err_scalar, Error::InvalidByte { index: 50, byte: b'G' });
    assert_eq!(err_scalar, err_chunked);
}

#[test]
fn test_scalar_and_chunked_agree_on_valid_input() {
    let hex = valid_80();
    let mut dst1 = vec![0u8; 40];
    let mut dst2 = vec![0u8; 40];
    assert_eq!(decode_to_slice(&hex, &mut dst1).unwrap(), 40);
    assert_eq!(decode_to_slice_chunked(&hex, &mut dst2).unwrap(), 40);
    assert_eq!(dst1, dst2);
    assert_eq!(dst1, vec![0xa5u8; 40]);
}

// ── case insensitivity ──────────────────────────────────────────────────────

#[test]
fn test_case_mix_decodes_like_lowercase() {
    let spellings: &[&[u8]] = &[b"abcdef", b"ABCDEF", b"AbCdEf", b"aBcDeF"];
    let mut reference = [0u8; 3];
    decode_to_slice(b"abcdef", &mut reference).unwrap();
    for hex in spellings {
        let mut out = [0u8; 3];
        decode_to_slice(hex, &mut out).unwrap();
        assert_eq!(out, reference, "hex: {hex:?}");
    }
}

// ── is_hex_ascii ────────────────────────────────────────────────────────────

#[test]
fn test_is_hex_ascii_exhaustive() {
    for b in 0u8..=255 {
        let expected = b.is_ascii_hexdigit();
        assert_eq!(is_hex_ascii(b), expected, "byte 0x{b:02x}");
    }
}

// ── validate_hex_scalar ─────────────────────────────────────────────────────

#[test]
fn test_validate_hex_scalar_ok() {
    assert_eq!(validate_hex_scalar(b"0123456789abcdefABCDEF", 0), Ok(()));
}

#[test]
fn test_validate_hex_scalar_reports_base_offset() {
    // The reported index is relative to the full buffer, not the slice.
    let err = validate_hex_scalar(b"ffX", 16).unwrap_err();
    assert_eq!(err, Error::InvalidByte { index: 18, byte: b'X' });
}

// ── decode_pair ─────────────────────────────────────────────────────────────

#[test]
fn test_decode_pair_valid() {
    assert_eq!(decode_pair(b'd', b'e'), 0x00DE);
    assert_eq!(decode_pair(b'0', b'0'), 0x0000);
    assert_eq!(decode_pair(b'F', b'f'), 0x00FF);
}

#[test]
fn test_decode_pair_invalid_sets_flag() {
    assert_eq!(decode_pair(b'X', b'0'), 0x0100);
    assert_eq!(decode_pair(b'0', b'X'), 0x0100);
    assert_eq!(decode_pair(b'X', b'X'), 0x0100);
}
