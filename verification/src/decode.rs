//! Reading host bytes as code units.
//!
//! Host text arrives as bytes that should be UTF-8 and may not be. Every
//! well-formed character becomes its code units. Where no character starts,
//! the longest run of bytes that begins one and breaks off becomes a single
//! U+FFFD, so that decoding never fails and never loses its place.

use vstd::prelude::*;
use vstd::utf8::*;
use crate::code_units::{is_surrogate, utf16_of_chars, utf16_of_scalar, REPLACEMENT};

verus! {

/// Whether `second` can follow `first` as the second byte of a character of
/// three or four bytes. The ranges are narrower than those of a
/// continuation byte after `E0`, `ED`, `F0` and `F4`, which would else
/// begin an overlong form, a surrogate, or a value past U+10FFFF.
pub open spec fn second_byte_fits(first: u8, second: u8) -> bool {
    if first == 0xE0 {
        0xA0 <= second <= 0xBF
    } else if first == 0xED {
        0x80 <= second <= 0x9F
    } else if first == 0xF0 {
        0x90 <= second <= 0xBF
    } else if first == 0xF4 {
        0x80 <= second <= 0x8F
    } else {
        0x80 <= second <= 0xBF
    }
}

/// How many bytes at the front of `bytes` one U+FFFD stands for, where no
/// character starts there: as many as begin a character of three or four
/// bytes before it breaks off, and one byte otherwise.
pub open spec fn ill_formed_len(bytes: Seq<u8>) -> int {
    if bytes.len() >= 2 && 0xE0 <= bytes[0] <= 0xF4 && second_byte_fits(bytes[0], bytes[1]) {
        if bytes.len() >= 3 && 0xF0 <= bytes[0] && is_continuation_byte(bytes[2]) {
            3
        } else {
            2
        }
    } else {
        1
    }
}

/// How many bytes the first step of decoding takes from `bytes`.
pub open spec fn first_step(bytes: Seq<u8>) -> int {
    if valid_first_scalar(bytes) {
        length_of_first_scalar(bytes)
    } else {
        ill_formed_len(bytes)
    }
}

/// The code units that host bytes are read as.
pub open spec fn utf16_from_utf8(bytes: Seq<u8>) -> Seq<u16>
    decreases bytes.len(),
{
    if bytes.len() == 0 {
        seq![]
    } else if valid_first_scalar(bytes) {
        utf16_of_scalar(decode_first_scalar(bytes)) + utf16_from_utf8(
            bytes.skip(first_step(bytes)),
        )
    } else {
        seq![REPLACEMENT as u16] + utf16_from_utf8(bytes.skip(first_step(bytes)))
    }
}

/// A character of two bytes: when it is not overlong, and how large it is.
proof fn lemma_two_bytes(b0: u8, b1: u8)
    by (bit_vector)
    requires
        0xC0 <= b0 <= 0xDF,
        0x80 <= b1 <= 0xBF,
    ensures
        codepoint_width_2(b0, b1) <= 0x7FF,
        codepoint_width_2(b0, b1) >= 0x80 <==> b0 >= 0xC2,
{
}

/// A character of three bytes: the second byte fits exactly when the value
/// is neither overlong nor a surrogate.
proof fn lemma_three_bytes(b0: u8, b1: u8, b2: u8)
    by (bit_vector)
    requires
        0xE0 <= b0 <= 0xEF,
        0x80 <= b1 <= 0xBF,
        0x80 <= b2 <= 0xBF,
    ensures
        codepoint_width_3(b0, b1, b2) <= 0xFFFF,
        (codepoint_width_3(b0, b1, b2) >= 0x800 && !(0xD800 <= codepoint_width_3(b0, b1, b2)
            <= 0xDFFF)) <==> second_byte_fits(b0, b1),
{
}

/// A character of four bytes: the lead and second byte fit exactly when the
/// value lies between U+10000 and U+10FFFF.
proof fn lemma_four_bytes(b0: u8, b1: u8, b2: u8, b3: u8)
    by (bit_vector)
    requires
        0xF0 <= b0 <= 0xF7,
        0x80 <= b1 <= 0xBF,
        0x80 <= b2 <= 0xBF,
        0x80 <= b3 <= 0xBF,
    ensures
        (0x10000 <= codepoint_width_4(b0, b1, b2, b3) <= 0x10FFFF) <==> (b0 <= 0xF4
            && second_byte_fits(b0, b1)),
{
}

/// One step of decoding.
pub(crate) struct Step {
    /// Whether a character starts here.
    pub valid: bool,
    /// Its scalar value, or U+FFFD.
    pub scalar: u32,
    /// The bytes taken.
    pub len: usize,
}

/// Decodes what starts at `at`: a character, or a run of bytes that one
/// U+FFFD stands for.
pub(crate) fn decode_step(bytes: &[u8], at: usize) -> (step: Step)
    requires
        at < bytes.len(),
    ensures
        step.valid == valid_first_scalar(bytes@.skip(at as int)),
        step.valid ==> step.scalar == decode_first_scalar(bytes@.skip(at as int)),
        !step.valid ==> step.scalar == REPLACEMENT,
        step.len == first_step(bytes@.skip(at as int)),
        1 <= step.len <= bytes.len() - at,
        step.scalar <= 0x10FFFF,
        !is_surrogate(step.scalar),
{
    let ghost rest = bytes@.skip(at as int);
    let n: usize = bytes.len() - at;
    let b0: u8 = bytes[at];
    assert(rest[0] == b0);
    let broken = Step { valid: false, scalar: REPLACEMENT, len: 1 };
    if b0 < 0x80 {
        assert(b0 & 0x7F == b0) by (bit_vector)
            requires
                b0 < 0x80,
        ;
        return Step { valid: true, scalar: b0 as u32, len: 1 };
    }
    if b0 < 0xC0 || b0 > 0xF7 || n < 2 {
        return broken;
    }
    let b1: u8 = bytes[at + 1];
    assert(rest[1] == b1);
    if b1 < 0x80 || b1 > 0xBF {
        return broken;
    }
    if b0 <= 0xDF {
        proof {
            lemma_two_bytes(b0, b1);
        }
        if b0 < 0xC2 {
            return broken;
        }
        let scalar: u32 = (((b0 & 0x1F) as u32) << 6) | ((b1 & 0x3F) as u32);
        return Step { valid: true, scalar, len: 2 };
    }
    let fits: bool = if b0 == 0xE0 {
        0xA0 <= b1
    } else if b0 == 0xED {
        b1 <= 0x9F
    } else if b0 == 0xF0 {
        0x90 <= b1
    } else if b0 == 0xF4 {
        b1 <= 0x8F
    } else {
        true
    };
    assert(fits == second_byte_fits(b0, b1));
    if b0 <= 0xEF {
        if n >= 3 {
            let b2: u8 = bytes[at + 2];
            assert(rest[2] == b2);
            if 0x80 <= b2 && b2 <= 0xBF {
                proof {
                    lemma_three_bytes(b0, b1, b2);
                }
                if !fits {
                    return broken;
                }
                let scalar: u32 = (((b0 & 0x0F) as u32) << 12) | (((b1 & 0x3F) as u32) << 6) | ((b2
                    & 0x3F) as u32);
                return Step { valid: true, scalar, len: 3 };
            }
        }
        if fits {
            return Step { valid: false, scalar: REPLACEMENT, len: 2 };
        }
        return broken;
    }
    if !fits || b0 > 0xF4 {
        proof {
            if n >= 4 && is_continuation_byte(rest[2]) && is_continuation_byte(rest[3]) {
                lemma_four_bytes(b0, b1, rest[2], rest[3]);
            }
        }
        return broken;
    }
    if n < 3 {
        return Step { valid: false, scalar: REPLACEMENT, len: 2 };
    }
    let b2: u8 = bytes[at + 2];
    assert(rest[2] == b2);
    if b2 < 0x80 || b2 > 0xBF {
        return Step { valid: false, scalar: REPLACEMENT, len: 2 };
    }
    if n < 4 {
        return Step { valid: false, scalar: REPLACEMENT, len: 3 };
    }
    let b3: u8 = bytes[at + 3];
    assert(rest[3] == b3);
    if b3 < 0x80 || b3 > 0xBF {
        return Step { valid: false, scalar: REPLACEMENT, len: 3 };
    }
    proof {
        lemma_four_bytes(b0, b1, b2, b3);
    }
    let scalar: u32 = (((b0 & 0x07) as u32) << 18) | (((b1 & 0x3F) as u32) << 12) | (((b2
        & 0x3F) as u32) << 6) | ((b3 & 0x3F) as u32);
    Step { valid: true, scalar, len: 4 }
}

/// Appends the code units of one scalar value.
pub(crate) fn push_scalar(units: &mut Vec<u16>, scalar: u32)
    requires
        scalar <= 0x10FFFF,
    ensures
        final(units)@ == old(units)@ + utf16_of_scalar(scalar),
{
    if scalar < 0x10000 {
        units.push(scalar as u16);
    } else {
        let rest: u32 = scalar - 0x10000;
        let lead: u32 = 0xD800 + rest / 0x400;
        let trail: u32 = 0xDC00 + rest % 0x400;
        units.push(lead as u16);
        units.push(trail as u16);
    }
}

/// Reads host bytes as code units. Bytes that are not UTF-8 are not an
/// error: each ill-formed run becomes U+FFFD.
pub fn decode_utf8_lossy(bytes: &[u8]) -> (units: Vec<u16>)
    ensures
        units@ == utf16_from_utf8(bytes@),
        units@.len() <= bytes@.len(),
{
    let mut units: Vec<u16> = Vec::new();
    let mut at: usize = 0;
    assert(bytes@.skip(0) == bytes@);
    while at < bytes.len()
        invariant
            at <= bytes.len(),
            units@.len() <= at,
            units@ + utf16_from_utf8(bytes@.skip(at as int)) == utf16_from_utf8(bytes@),
        decreases bytes.len() - at,
    {
        let step = decode_step(bytes, at);
        let ghost before = units@;
        let ghost rest = bytes@.skip(at as int);
        push_scalar(&mut units, step.scalar);
        proof {
            assert(rest.skip(step.len as int) == bytes@.skip(at + step.len));
            assert(utf16_from_utf8(rest) == utf16_of_scalar(step.scalar) + utf16_from_utf8(
                rest.skip(step.len as int),
            ));
            assert(units@ + utf16_from_utf8(bytes@.skip(at + step.len)) == before
                + utf16_from_utf8(rest));
        }
        at = at + step.len;
    }
    assert(bytes@.skip(at as int).len() == 0);
    units
}

/// Well-formed UTF-8 decodes to the code units of its text.
pub proof fn lemma_utf16_of_valid_utf8(text: Seq<char>)
    ensures
        utf16_from_utf8(encode_utf8(text)) == utf16_of_chars(text),
    decreases text.len(),
{
    if text.len() > 0 {
        let bytes = encode_utf8(text);
        let rest = text.drop_first();
        encode_utf8_first_scalar(text);
        assert(bytes.skip(first_step(bytes)) == encode_utf8(rest));
        lemma_utf16_of_valid_utf8(rest);
    }
}

} // verus!
