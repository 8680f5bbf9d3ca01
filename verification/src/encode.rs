//! Writing one code point as UTF-8.

use vstd::prelude::*;
use vstd::utf8::*;
use crate::code_units::{utf8_of_code_point, utf8_width, REPLACEMENT};

verus! {

/// The low six bits of a value make a continuation byte.
proof fn lemma_continuation_fits(v: u32)
    by (bit_vector)
    ensures
        v & 0x3F < 0x40,
        v & 0x1F < 0x20,
        v & 0x0F < 0x10,
        v & 0x07 < 0x08,
        v & 0x7F < 0x80,
{
}

/// How many bytes `c` takes in UTF-8.
pub(crate) fn width_of(c: u32) -> (width: usize)
    ensures
        width == utf8_width(c),
        1 <= width <= 4,
{
    if c < 0x80 {
        1
    } else if c < 0x800 {
        2
    } else if c < 0x10000 {
        3
    } else {
        4
    }
}

/// Writes the bytes of one code point at `at`, and leaves every other byte
/// of `out` as it was. The caller has made sure of the room.
pub(crate) fn write_code_point(out: &mut [u8], at: usize, c: u32, replace: bool)
    requires
        c <= 0x10FFFF,
        at + utf8_width(c) <= old(out)@.len(),
    ensures
        final(out)@ == old(out)@.take(at as int) + utf8_of_code_point(c, replace) + old(out)@.skip(
            at + utf8_width(c),
        ),
{
    let c: u32 = if replace && 0xD800 <= c && c <= 0xDFFF {
        REPLACEMENT
    } else {
        c
    };
    proof {
        lemma_continuation_fits(c);
        lemma_continuation_fits(c >> 6);
        lemma_continuation_fits(c >> 12);
        lemma_continuation_fits(c >> 18);
    }
    let last: u8 = 0x80 | ((c & 0x3F) as u8);
    if c < 0x80 {
        out[at] = (c & 0x7F) as u8;
    } else if c < 0x800 {
        out[at] = 0xC0 | (((c >> 6) & 0x1F) as u8);
        out[at + 1] = last;
    } else if c < 0x10000 {
        out[at] = 0xE0 | (((c >> 12) & 0x0F) as u8);
        out[at + 1] = 0x80 | (((c >> 6) & 0x3F) as u8);
        out[at + 2] = last;
    } else {
        out[at] = 0xF0 | (((c >> 18) & 0x07) as u8);
        out[at + 1] = 0x80 | (((c >> 12) & 0x3F) as u8);
        out[at + 2] = 0x80 | (((c >> 6) & 0x3F) as u8);
        out[at + 3] = last;
    }
}

} // verus!
