//! A UTF-8 validator: decides, one encoded scalar at a time, whether a byte
//! buffer is a well-formed UTF-8 encoding in the sense of
//! `vstd::utf8::valid_utf8`.

use vstd::prelude::*;
use vstd::utf8::*;

verus! {

/// Whether `bytes` is a well-formed UTF-8 encoding.
///
/// Walks the buffer scalar by scalar: each step classifies the leading
/// byte, checks the continuation bytes, decodes the codepoint exactly as
/// the reference definition does, and rejects truncated, over-long and
/// surrogate encodings.
pub fn is_valid_utf8(bytes: &Vec<u8>) -> (r: bool)
    ensures
        r == valid_utf8(bytes@),
{
    let n = bytes.len();
    let mut i: usize = 0;
    proof {
        assert(bytes@.skip(0) =~= bytes@);
    }
    while i < n
        invariant
            n == bytes@.len(),
            0 <= i <= n,
            valid_utf8(bytes@) <==> valid_utf8(bytes@.skip(i as int)),
        decreases n - i,
    {
        let ghost suffix = bytes@.skip(i as int);
        proof {
            assert(suffix.len() == n - i);
            assert(suffix[0] == bytes@[i as int]);
        }
        let b0 = bytes[i];
        let width: usize;
        if b0 <= 0x7f {
            width = 1;
        } else if 0xc0 <= b0 && b0 <= 0xdf {
            width = 2;
        } else if 0xe0 <= b0 && b0 <= 0xef {
            width = 3;
        } else if 0xf0 <= b0 && b0 <= 0xf7 {
            width = 4;
        } else {
            // a stray continuation byte, or a leading pattern wider than
            // any UTF-8 encoding
            proof {
                assert(!valid_leading_and_continuation_bytes_first_codepoint(suffix));
                assert(!valid_utf8(suffix));
            }
            return false;
        }
        if n - i < width {
            // the buffer ends in the middle of this encoding
            proof {
                assert(!valid_leading_and_continuation_bytes_first_codepoint(suffix));
                assert(!valid_utf8(suffix));
            }
            return false;
        }
        let cp: u32;
        if width == 1 {
            cp = (b0 & 0x7f) as u32;
        } else if width == 2 {
            let b1 = bytes[i + 1];
            proof {
                assert(suffix[1] == bytes@[i + 1]);
            }
            if !(0x80 <= b1 && b1 <= 0xbf) {
                proof {
                    assert(!valid_leading_and_continuation_bytes_first_codepoint(suffix));
                    assert(!valid_utf8(suffix));
                }
                return false;
            }
            cp = (((b0 & 0x1f) as u32) << 6) | ((b1 & 0x3f) as u32);
        } else if width == 3 {
            let b1 = bytes[i + 1];
            let b2 = bytes[i + 2];
            proof {
                assert(suffix[1] == bytes@[i + 1]);
                assert(suffix[2] == bytes@[i + 2]);
            }
            if !(0x80 <= b1 && b1 <= 0xbf) || !(0x80 <= b2 && b2 <= 0xbf) {
                proof {
                    assert(!valid_leading_and_continuation_bytes_first_codepoint(suffix));
                    assert(!valid_utf8(suffix));
                }
                return false;
            }
            cp = (((b0 & 0x0f) as u32) << 12) | (((b1 & 0x3f) as u32) << 6) | ((b2 & 0x3f) as u32);
        } else {
            let b1 = bytes[i + 1];
            let b2 = bytes[i + 2];
            let b3 = bytes[i + 3];
            proof {
                assert(suffix[1] == bytes@[i + 1]);
                assert(suffix[2] == bytes@[i + 2]);
                assert(suffix[3] == bytes@[i + 3]);
            }
            if !(0x80 <= b1 && b1 <= 0xbf) || !(0x80 <= b2 && b2 <= 0xbf) || !(0x80 <= b3
                && b3 <= 0xbf) {
                proof {
                    assert(!valid_leading_and_continuation_bytes_first_codepoint(suffix));
                    assert(!valid_utf8(suffix));
                }
                return false;
            }
            cp = (((b0 & 0x07) as u32) << 18) | (((b1 & 0x3f) as u32) << 12) | (((b2
                & 0x3f) as u32) << 6) | ((b3 & 0x3f) as u32);
        }
        proof {
            assert(valid_leading_and_continuation_bytes_first_codepoint(suffix));
            assert(decode_first_codepoint(suffix) == cp);
            assert(length_of_first_codepoint(suffix) == width);
        }
        let in_range: bool = if width == 2 {
            cp >= 0x80
        } else if width == 3 {
            cp >= 0x800
        } else if width == 4 {
            0x10000 <= cp && cp <= 0x10ffff
        } else {
            true
        };
        if !in_range || (0xd800 <= cp && cp <= 0xdfff) {
            // an over-long encoding, a codepoint past the last scalar, or a
            // surrogate
            proof {
                assert(!valid_first_scalar(suffix));
                assert(!valid_utf8(suffix));
            }
            return false;
        }
        proof {
            assert(valid_first_scalar(suffix));
            assert(length_of_first_scalar(suffix) == width);
            assert(pop_first_scalar(suffix) =~= bytes@.skip(i + width));
            assert(valid_utf8(suffix) <==> valid_utf8(bytes@.skip(i + width)));
        }
        i = i + width;
    }
    proof {
        assert(bytes@.skip(n as int) =~= Seq::<u8>::empty());
        assert(valid_utf8(bytes@.skip(n as int)));
    }
    true
}

} // verus!
