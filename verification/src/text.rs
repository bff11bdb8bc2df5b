//! Turning captured process output, a raw byte vector, into text.
//!
//! The validator walks the bytes once and decides `vstd::utf8::valid_utf8`
//! exactly; the conversion to `String` is then owed to succeed.

use vstd::prelude::*;
use vstd::utf8::{
    decode_utf8, partial_valid_partial_invalid_utf8, partial_valid_utf8, partial_valid_utf8_extend,
    valid_first_scalar, valid_utf8,
};

verus! {

/// A prefix of `bytes` is valid and the encoding starting at `i` is not:
/// then the whole sequence is not valid UTF-8.
proof fn lemma_invalid_here(bytes: Seq<u8>, i: int)
    requires
        partial_valid_utf8(bytes, i),
        i < bytes.len(),
        !valid_first_scalar(bytes.subrange(i, bytes.len() as int)),
    ensures
        !valid_utf8(bytes),
{
    let tail = bytes.subrange(i, bytes.len() as int);
    assert(tail.len() > 0);
    assert(!valid_utf8(tail));
    partial_valid_partial_invalid_utf8(bytes, i);
}

/// Decides whether `bytes` is a valid UTF-8 encoding.
pub fn utf8_is_valid(bytes: &[u8]) -> (valid: bool)
    ensures
        valid == valid_utf8(bytes@),
{
    let n: usize = bytes.len();
    let mut i: usize = 0;
    while i < n
        invariant
            i <= n,
            n == bytes@.len(),
            partial_valid_utf8(bytes@, i as int),
        decreases n - i,
    {
        let ghost tail: Seq<u8> = bytes@.subrange(i as int, n as int);
        let b0: u8 = bytes[i];
        proof {
            assert(tail.len() == n - i);
            assert(tail[0] == bytes@[i as int]);
        }
        if b0 < 0x80 {
            // one byte: any value up to 0x7f stands for itself
            proof {
                assert(b0 & 0x7f == b0) by (bit_vector)
                    requires
                        b0 < 0x80,
                ;
                assert(valid_first_scalar(tail));
                partial_valid_utf8_extend(bytes@, i as int);
            }
            i = i + 1;
        } else if b0 < 0xc0 {
            // a continuation byte cannot open an encoding
            proof {
                lemma_invalid_here(bytes@, i as int);
            }
            return false;
        } else if b0 < 0xe0 {
            // two bytes
            if n - i < 2 {
                proof {
                    lemma_invalid_here(bytes@, i as int);
                }
                return false;
            }
            let b1: u8 = bytes[i + 1];
            proof {
                assert(tail[1] == bytes@[i + 1]);
            }
            if !(0x80 <= b1 && b1 < 0xc0) {
                proof {
                    lemma_invalid_here(bytes@, i as int);
                }
                return false;
            }
            let cp: u32 = (((b0 & 0x1f) as u32) << 6) | ((b1 & 0x3f) as u32);
            if cp < 0x80 {
                // overlong: the value fits in one byte
                proof {
                    lemma_invalid_here(bytes@, i as int);
                }
                return false;
            }
            proof {
                assert((((b0 & 0x1f) as u32) << 6) | ((b1 & 0x3f) as u32) <= 0x7ff)
                    by (bit_vector);
                assert(valid_first_scalar(tail));
                partial_valid_utf8_extend(bytes@, i as int);
            }
            i = i + 2;
        } else if b0 < 0xf0 {
            // three bytes
            if n - i < 3 {
                proof {
                    lemma_invalid_here(bytes@, i as int);
                }
                return false;
            }
            let b1: u8 = bytes[i + 1];
            let b2: u8 = bytes[i + 2];
            proof {
                assert(tail[1] == bytes@[i + 1]);
                assert(tail[2] == bytes@[i + 2]);
            }
            if !(0x80 <= b1 && b1 < 0xc0) || !(0x80 <= b2 && b2 < 0xc0) {
                proof {
                    lemma_invalid_here(bytes@, i as int);
                }
                return false;
            }
            let cp: u32 = (((b0 & 0x0f) as u32) << 12) | (((b1 & 0x3f) as u32) << 6) | ((b2
                & 0x3f) as u32);
            if cp < 0x800 {
                // overlong: the value fits in two bytes
                proof {
                    lemma_invalid_here(bytes@, i as int);
                }
                return false;
            }
            if 0xd800 <= cp && cp <= 0xdfff {
                // the surrogate range encodes no character
                proof {
                    lemma_invalid_here(bytes@, i as int);
                }
                return false;
            }
            proof {
                assert(valid_first_scalar(tail));
                partial_valid_utf8_extend(bytes@, i as int);
            }
            i = i + 3;
        } else if b0 < 0xf8 {
            // four bytes
            if n - i < 4 {
                proof {
                    lemma_invalid_here(bytes@, i as int);
                }
                return false;
            }
            let b1: u8 = bytes[i + 1];
            let b2: u8 = bytes[i + 2];
            let b3: u8 = bytes[i + 3];
            proof {
                assert(tail[1] == bytes@[i + 1]);
                assert(tail[2] == bytes@[i + 2]);
                assert(tail[3] == bytes@[i + 3]);
            }
            if !(0x80 <= b1 && b1 < 0xc0) || !(0x80 <= b2 && b2 < 0xc0) || !(0x80 <= b3 && b3
                < 0xc0) {
                proof {
                    lemma_invalid_here(bytes@, i as int);
                }
                return false;
            }
            let cp: u32 = (((b0 & 0x07) as u32) << 18) | (((b1 & 0x3f) as u32) << 12) | (((b2
                & 0x3f) as u32) << 6) | ((b3 & 0x3f) as u32);
            if cp < 0x10000 || cp > 0x10ffff {
                // overlong or beyond the last scalar value
                proof {
                    lemma_invalid_here(bytes@, i as int);
                }
                return false;
            }
            proof {
                assert(valid_first_scalar(tail));
                partial_valid_utf8_extend(bytes@, i as int);
            }
            i = i + 4;
        } else {
            // 0xf8 and above opens no encoding
            proof {
                lemma_invalid_here(bytes@, i as int);
            }
            return false;
        }
    }
    proof {
        assert(bytes@.subrange(0, n as int) =~= bytes@);
    }
    true
}

/// Relies on String::from_utf8: on bytes that are valid UTF-8 it returns the
/// string whose characters are their decoding.
#[verifier::external_body]
fn string_from_valid_utf8(bytes: Vec<u8>) -> (text: String)
    requires
        valid_utf8(bytes@),
    ensures
        text@ == decode_utf8(bytes@),
{
    match String::from_utf8(bytes) {
        Ok(text) => text,
        Err(_) => String::new(),
    }
}

/// Decodes `bytes` as UTF-8 text, and returns `None` exactly when they are
/// not a valid encoding.
pub fn utf8_to_text(bytes: Vec<u8>) -> (text: Option<String>)
    ensures
        text is Some <==> valid_utf8(bytes@),
        text matches Some(t) ==> t@ == decode_utf8(bytes@),
{
    if utf8_is_valid(bytes.as_slice()) {
        Some(string_from_valid_utf8(bytes))
    } else {
        None
    }
}

} // verus!
