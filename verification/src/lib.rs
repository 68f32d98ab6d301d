//! Allocation-free hexadecimal codec with verified contracts.
//!
//! - Decode: [`decode_to_slice`], [`decode_to_array`], [`decode_in_place`]
//! - Encode: [`encode_to_slice`], [`encode_to_string`]
//!
//! Every decode entry point reports the exact byte offset of the first
//! invalid character, and the in-place variant leaves its buffer untouched
//! on any error.

use vstd::prelude::*;

pub mod chunked;
pub mod decode;
pub mod encode;
pub mod laws;
pub mod model;

use crate::model::{ascii_chars, dec_rep, display_byte_char, encoded_bytes, invalid_byte_message};
use vstd::string::StringExecFns;

pub use decode::{decode_in_place, decode_to_array, decode_to_slice, decoded_len};
pub use encode::{encode_to_slice, encode_to_string, encoded_len};

verus! {

/// Errors that can occur during hex encoding or decoding.
#[derive(Debug, Clone, PartialEq, Eq, Structural)]
pub enum Error {
    /// The input length is odd; hex strings must have an even number of bytes.
    OddLength,
    /// The output buffer is too small.
    OutputTooSmall,
    /// An invalid byte was encountered at the given position.
    InvalidByte {
        /// Zero-based index into the source slice.
        index: usize,
        /// The offending byte value.
        byte: u8,
    },
}

/// The decimal digits of `n`, most significant first, appended to `out`.
fn push_dec_digits(n: usize, out: &mut Vec<u8>)
    ensures
        final(out)@ == old(out)@ + dec_rep(n as nat),
    decreases n,
{
    if n < 10 {
        out.push(0x30 + (n as u8));
        proof {
            assert(out@ =~= old(out)@ + dec_rep(n as nat));
        }
    } else {
        push_dec_digits(n / 10, out);
        out.push(0x30 + ((n % 10) as u8));
        proof {
            assert(out@ =~= old(out)@ + dec_rep(n as nat));
        }
    }
}

/// Every byte of a decimal representation is an ASCII digit.
proof fn lemma_dec_rep_digits(n: nat)
    ensures
        forall|i: int| 0 <= i < dec_rep(n).len() ==> 0x30 <= #[trigger] dec_rep(n)[i] <= 0x39,
    decreases n,
{
    if n >= 10 {
        lemma_dec_rep_digits(n / 10);
        assert forall|i: int| 0 <= i < dec_rep(n).len() implies 0x30 <= #[trigger] dec_rep(n)[i]
            <= 0x39 by {
            if i < dec_rep(n).len() - 1 {
                assert(dec_rep(n)[i] == dec_rep(n / 10)[i]);
            }
        }
    }
}

/// The decimal form of `n` as a string.
fn dec_string(n: usize) -> (s: String)
    ensures
        s@ == ascii_chars(dec_rep(n as nat)),
{
    let mut digits: Vec<u8> = Vec::new();
    push_dec_digits(n, &mut digits);
    proof {
        lemma_dec_rep_digits(n as nat);
        assert(digits@ =~= dec_rep(n as nat));
    }
    let s = crate::encode::ascii_bytes_to_string(digits);
    proof {
        assert(s@ =~= ascii_chars(dec_rep(n as nat)));
    }
    s
}

impl Error {
    /// The human-readable description of this error.
    pub fn message(&self) -> (s: String)
        ensures
            self is OddLength ==> s@ == "hex string has odd length"@,
            self is OutputTooSmall ==> s@ == "output buffer is too small"@,
            self matches Error::InvalidByte { index, byte } ==> s@ == invalid_byte_message(
                index as nat,
                *byte,
            ),
    {
        match self {
            Error::OddLength => String::from_str("hex string has odd length"),
            Error::OutputTooSmall => String::from_str("output buffer is too small"),
            Error::InvalidByte { index, byte } => {
                let b = *byte;
                let idx = *index;
                let mut s = String::from_str("invalid hex byte 0x");
                let one_byte: [u8; 1] = [b];
                proof {
                    assert(one_byte@ =~= seq![b]);
                }
                let hex = crate::encode::encode_to_string(one_byte.as_slice(), true);
                proof {
                    assert(hex@ =~= ascii_chars(encoded_bytes(seq![b], true)));
                }
                s.append(hex.as_str());
                s.append(" ('");
                if b >= 0x21 && b <= 0x7e {
                    let shown = crate::encode::ascii_bytes_to_string(vec![b]);
                    proof {
                        assert(shown@ =~= seq![display_byte_char(b)]);
                    }
                    s.append(shown.as_str());
                } else {
                    s.append("?");
                    proof {
                        reveal_strlit("?");
                        assert("?"@ =~= seq![display_byte_char(b)]);
                    }
                }
                s.append("') at index ");
                let ds = dec_string(idx);
                s.append(ds.as_str());
                proof {
                    assert(s@ == invalid_byte_message(idx as nat, b));
                }
                s
            },
        }
    }
}

} // verus!
