//! A verified UTF-8 validity check over byte slices.
//!
//! The header grammar stores the request-target, field names and field
//! values as raw octets, but rejects lexemes that are not well-formed UTF-8.
//! `is_valid_utf8` is the executable check, proved equivalent to vstd's
//! mathematical definition `valid_utf8`.

use vstd::prelude::*;
use vstd::utf8::codepoint_width_2;
use vstd::utf8::codepoint_width_3;
use vstd::utf8::codepoint_width_4;
use vstd::utf8::is_continuation_byte;
use vstd::utf8::is_leading_byte_width_1;
use vstd::utf8::is_leading_byte_width_2;
use vstd::utf8::is_leading_byte_width_3;
use vstd::utf8::is_leading_byte_width_4;
use vstd::utf8::length_of_first_scalar;
use vstd::utf8::partial_valid_partial_invalid_utf8;
use vstd::utf8::partial_valid_utf8;
use vstd::utf8::partial_valid_utf8_extend;
use vstd::utf8::valid_first_scalar;
use vstd::utf8::valid_leading_and_continuation_bytes_first_codepoint;
use vstd::utf8::valid_utf8;

verus! {

/// Reports whether the bytes form a valid UTF-8 encoding, in the sense of
/// vstd's `valid_utf8`: a sequence of well-formed scalar encodings with no
/// overlong forms and no surrogate code points.
pub fn is_valid_utf8(v: &[u8]) -> (r: bool)
    ensures
        r == valid_utf8(v@),
{
    let n = v.len();
    proof {
        assert(v@.subrange(0, 0) =~= Seq::<u8>::empty());
    }
    let mut i: usize = 0;
    while i < n
        invariant
            0 <= i <= n,
            n == v@.len(),
            partial_valid_utf8(v@, i as int),
        decreases n - i,
    {
        let ghost rest = v@.subrange(i as int, n as int);
        let b0 = v[i];
        proof {
            assert(rest.len() == n - i);
            assert(rest[0] == b0);
        }
        if b0 <= 0x7f {
            // One-byte scalar.
            proof {
                assert((b0 & 0x7f) as u32 <= 0x7f) by (bit_vector);
                assert(valid_first_scalar(rest));
                partial_valid_utf8_extend(v@, i as int);
                assert(length_of_first_scalar(rest) == 1);
            }
            i = i + 1;
        } else if b0 < 0xc2 {
            // Either a continuation byte in leading position (0x80..=0xbf)
            // or the overlong two-byte leads 0xc0 and 0xc1.
            proof {
                assert(!valid_first_scalar(rest)) by {
                    if valid_leading_and_continuation_bytes_first_codepoint(rest) {
                        assert(is_leading_byte_width_2(b0));
                        let b1 = rest[1];
                        assert(is_continuation_byte(b1));
                        assert((((b0 & 0x1f) as u32) << 6) | ((b1 & 0x3f) as u32) < 0x80)
                            by (bit_vector)
                            requires
                                0xc0 <= b0 < 0xc2,
                        ;
                        assert(codepoint_width_2(b0, b1) < 0x80);
                    }
                }
                partial_valid_partial_invalid_utf8(v@, i as int);
            }
            return false;
        } else if b0 <= 0xdf {
            // Two-byte scalar: 0xc2..=0xdf then one continuation byte.
            if n - i < 2 {
                proof {
                    assert(!valid_first_scalar(rest));
                    partial_valid_partial_invalid_utf8(v@, i as int);
                }
                return false;
            }
            let b1 = v[i + 1];
            proof {
                assert(rest[1] == b1);
            }
            if 0x80 <= b1 && b1 <= 0xbf {
                proof {
                    assert({
                        let cp = (((b0 & 0x1f) as u32) << 6) | ((b1 & 0x3f) as u32);
                        0x80 <= cp <= 0x7ff
                    })
                        by (bit_vector)
                        requires
                            0xc2 <= b0 <= 0xdf,
                            0x80 <= b1 <= 0xbf,
                    ;
                    assert(valid_first_scalar(rest));
                    partial_valid_utf8_extend(v@, i as int);
                    assert(length_of_first_scalar(rest) == 2);
                }
                i = i + 2;
            } else {
                proof {
                    assert(!valid_first_scalar(rest));
                    partial_valid_partial_invalid_utf8(v@, i as int);
                }
                return false;
            }
        } else if b0 <= 0xef {
            // Three-byte scalar: 0xe0..=0xef then two continuation bytes,
            // ruling out overlong forms (0xe0 with b1 < 0xa0) and surrogates
            // (0xed with b1 >= 0xa0).
            if n - i < 3 {
                proof {
                    assert(!valid_first_scalar(rest));
                    partial_valid_partial_invalid_utf8(v@, i as int);
                }
                return false;
            }
            let b1 = v[i + 1];
            let b2 = v[i + 2];
            proof {
                assert(rest[1] == b1);
                assert(rest[2] == b2);
            }
            let conts = 0x80 <= b1 && b1 <= 0xbf && 0x80 <= b2 && b2 <= 0xbf;
            if conts && !(b0 == 0xe0 && b1 < 0xa0) && !(b0 == 0xed && b1 >= 0xa0) {
                proof {
                    assert({
                        let cp = (((b0 & 0x0f) as u32) << 12) | (((b1 & 0x3f) as u32) << 6) | ((
                        b2 & 0x3f) as u32);
                        0x800 <= cp <= 0xffff && !(0xd800 <= cp <= 0xdfff)
                    })
                        by (bit_vector)
                        requires
                            0xe0 <= b0 <= 0xef,
                            0x80 <= b1 <= 0xbf,
                            0x80 <= b2 <= 0xbf,
                            !(b0 == 0xe0 && b1 < 0xa0),
                            !(b0 == 0xed && b1 >= 0xa0),
                    ;
                    assert(valid_first_scalar(rest));
                    partial_valid_utf8_extend(v@, i as int);
                    assert(length_of_first_scalar(rest) == 3);
                }
                i = i + 3;
            } else {
                proof {
                    assert(!valid_first_scalar(rest)) by {
                        if valid_leading_and_continuation_bytes_first_codepoint(rest) {
                            if b0 == 0xe0 && b1 < 0xa0 {
                                assert((((b0 & 0x0f) as u32) << 12) | (((b1 & 0x3f) as u32) << 6)
                                    | ((b2 & 0x3f) as u32) < 0x800)
                                    by (bit_vector)
                                    requires
                                        b0 == 0xe0,
                                        0x80 <= b1 < 0xa0,
                                ;
                                assert(codepoint_width_3(b0, b1, b2) < 0x800);
                            } else {
                                assert(b0 == 0xed && b1 >= 0xa0);
                                assert({
                                    let cp = (((b0 & 0x0f) as u32) << 12) | (((b1
                                        & 0x3f) as u32) << 6) | ((b2 & 0x3f) as u32);
                                    0xd800 <= cp <= 0xdfff
                                })
                                    by (bit_vector)
                                    requires
                                        b0 == 0xed,
                                        0xa0 <= b1 <= 0xbf,
                                ;
                            }
                        }
                    }
                    partial_valid_partial_invalid_utf8(v@, i as int);
                }
                return false;
            }
        } else if b0 <= 0xf4 {
            // Four-byte scalar: 0xf0..=0xf4 then three continuation bytes,
            // ruling out overlong forms (0xf0 with b1 < 0x90) and code points
            // past 0x10ffff (0xf4 with b1 > 0x8f).
            if n - i < 4 {
                proof {
                    assert(!valid_first_scalar(rest));
                    partial_valid_partial_invalid_utf8(v@, i as int);
                }
                return false;
            }
            let b1 = v[i + 1];
            let b2 = v[i + 2];
            let b3 = v[i + 3];
            proof {
                assert(rest[1] == b1);
                assert(rest[2] == b2);
                assert(rest[3] == b3);
            }
            let conts = 0x80 <= b1 && b1 <= 0xbf && 0x80 <= b2 && b2 <= 0xbf && 0x80 <= b3 && b3
                <= 0xbf;
            if conts && !(b0 == 0xf0 && b1 < 0x90) && !(b0 == 0xf4 && b1 > 0x8f) {
                proof {
                    assert({
                        let cp = (((b0 & 0x07) as u32) << 18) | (((b1 & 0x3f) as u32) << 12) | (((
                        b2 & 0x3f) as u32) << 6) | ((b3 & 0x3f) as u32);
                        0x10000 <= cp <= 0x10ffff
                    })
                        by (bit_vector)
                        requires
                            0xf0 <= b0 <= 0xf4,
                            0x80 <= b1 <= 0xbf,
                            0x80 <= b2 <= 0xbf,
                            0x80 <= b3 <= 0xbf,
                            !(b0 == 0xf0 && b1 < 0x90),
                            !(b0 == 0xf4 && b1 > 0x8f),
                    ;
                    assert(valid_first_scalar(rest));
                    partial_valid_utf8_extend(v@, i as int);
                    assert(length_of_first_scalar(rest) == 4);
                }
                i = i + 4;
            } else {
                proof {
                    assert(!valid_first_scalar(rest)) by {
                        if valid_leading_and_continuation_bytes_first_codepoint(rest) {
                            if b0 == 0xf0 && b1 < 0x90 {
                                assert((((b0 & 0x07) as u32) << 18) | (((b1 & 0x3f) as u32) << 12)
                                    | (((b2 & 0x3f) as u32) << 6) | ((b3 & 0x3f) as u32) < 0x10000)
                                    by (bit_vector)
                                    requires
                                        b0 == 0xf0,
                                        0x80 <= b1 < 0x90,
                                ;
                                assert(codepoint_width_4(b0, b1, b2, b3) < 0x10000);
                            } else {
                                assert(b0 == 0xf4 && b1 > 0x8f);
                                assert((((b0 & 0x07) as u32) << 18) | (((b1 & 0x3f) as u32) << 12)
                                    | (((b2 & 0x3f) as u32) << 6) | ((b3 & 0x3f) as u32) > 0x10ffff)
                                    by (bit_vector)
                                    requires
                                        b0 == 0xf4,
                                        0x8f < b1 <= 0xbf,
                                ;
                                assert(codepoint_width_4(b0, b1, b2, b3) > 0x10ffff);
                            }
                        }
                    }
                    partial_valid_partial_invalid_utf8(v@, i as int);
                }
                return false;
            }
        } else {
            // 0xf5..=0xf7 encode code points past 0x10ffff; 0xf8..=0xff are
            // no leading bytes at all.
            proof {
                assert(!valid_first_scalar(rest)) by {
                    if valid_leading_and_continuation_bytes_first_codepoint(rest) {
                        assert(is_leading_byte_width_4(b0));
                        let b1 = rest[1];
                        let b2 = rest[2];
                        let b3 = rest[3];
                        assert((((b0 & 0x07) as u32) << 18) | (((b1 & 0x3f) as u32) << 12) | (((b2
                            & 0x3f) as u32) << 6) | ((b3 & 0x3f) as u32) > 0x10ffff)
                            by (bit_vector)
                            requires
                                0xf5 <= b0 <= 0xf7,
                        ;
                        assert(codepoint_width_4(b0, b1, b2, b3) > 0x10ffff);
                    }
                }
                partial_valid_partial_invalid_utf8(v@, i as int);
            }
            return false;
        }
    }
    proof {
        assert(v@.subrange(0, n as int) =~= v@);
    }
    true
}

} // verus!
