//! What a sequence of UTF-16 code units says, and how it reads as UTF-8.
//!
//! An engine string is a sequence of 16-bit code units. A lead surrogate
//! directly followed by a trail surrogate is one character outside the basic
//! plane; every other unit is a character by itself, an unpaired surrogate
//! included. The functions here read such a sequence character by character
//! from its front.

use vstd::prelude::*;
use vstd::utf8::*;

verus! {

/// The code point that stands in for what cannot be represented.
pub const REPLACEMENT: u32 = 0xFFFD;

/// Whether `unit` is the first half of a surrogate pair.
pub open spec fn is_lead_surrogate(unit: u16) -> bool {
    0xD800 <= unit <= 0xDBFF
}

/// Whether `unit` is the second half of a surrogate pair.
pub open spec fn is_trail_surrogate(unit: u16) -> bool {
    0xDC00 <= unit <= 0xDFFF
}

/// Whether `c` lies in the range reserved for surrogates, which no scalar
/// value does.
pub open spec fn is_surrogate(c: u32) -> bool {
    0xD800 <= c <= 0xDFFF
}

/// The code point that a lead and a trail surrogate stand for together.
pub open spec fn pair_code_point(lead: u16, trail: u16) -> u32 {
    (0x10000 + (lead - 0xD800) * 0x400 + (trail - 0xDC00)) as u32
}

/// The lead surrogate of a code point outside the basic plane.
pub open spec fn lead_of(c: u32) -> u16 {
    (0xD800 + (c - 0x10000) / 0x400) as u16
}

/// The trail surrogate of a code point outside the basic plane.
pub open spec fn trail_of(c: u32) -> u16 {
    (0xDC00 + (c - 0x10000) % 0x400) as u16
}

/// The code units of one scalar value: itself in the basic plane, a
/// surrogate pair outside it.
pub open spec fn utf16_of_scalar(c: u32) -> Seq<u16> {
    if c < 0x10000 {
        seq![c as u16]
    } else {
        seq![lead_of(c), trail_of(c)]
    }
}

/// The code units of a text.
pub open spec fn utf16_of_chars(chars: Seq<char>) -> Seq<u16>
    decreases chars.len(),
{
    if chars.len() == 0 {
        seq![]
    } else {
        utf16_of_scalar(chars[0] as u32) + utf16_of_chars(chars.drop_first())
    }
}

/// How many code units the first character of `units` takes: two for a
/// surrogate pair, else one.
pub open spec fn first_width(units: Seq<u16>) -> int {
    if units.len() >= 2 && is_lead_surrogate(units[0]) && is_trail_surrogate(units[1]) {
        2
    } else {
        1
    }
}

/// The code point of the first character of `units`. For an unpaired
/// surrogate it is the surrogate itself.
pub open spec fn first_code_point(units: Seq<u16>) -> u32 {
    if first_width(units) == 2 {
        pair_code_point(units[0], units[1])
    } else {
        units[0] as u32
    }
}

/// How many bytes a code point takes in UTF-8.
pub open spec fn utf8_width(c: u32) -> int {
    if c < 0x80 {
        1
    } else if c < 0x800 {
        2
    } else if c < 0x10000 {
        3
    } else {
        4
    }
}

/// The three bytes that the UTF-8 scheme gives a surrogate when it is
/// written as if it were a scalar value. They are not valid UTF-8.
pub open spec fn surrogate_bytes(c: u32) -> Seq<u8> {
    seq![
        leading_byte_width_3(c),
        second_last_continuation_byte(c),
        last_continuation_byte(c),
    ]
}

/// The bytes written for one code point. A scalar value gets its UTF-8
/// encoding. A surrogate gets that of U+FFFD when `replace` is set, and
/// its own three bytes when not.
pub open spec fn utf8_of_code_point(c: u32, replace: bool) -> Seq<u8> {
    if is_surrogate(c) {
        if replace {
            encode_scalar(REPLACEMENT)
        } else {
            surrogate_bytes(c)
        }
    } else {
        encode_scalar(c)
    }
}

/// The bytes written for a whole sequence of code units.
pub open spec fn utf8_of_utf16(units: Seq<u16>, replace: bool) -> Seq<u8>
    decreases units.len(),
{
    if units.len() == 0 {
        seq![]
    } else {
        utf8_of_code_point(first_code_point(units), replace) + utf8_of_utf16(
            units.skip(first_width(units)),
            replace,
        )
    }
}

/// The number of bytes that `units` takes in UTF-8. An unpaired surrogate
/// counts three, replaced or not.
pub open spec fn utf8_len(units: Seq<u16>) -> int
    decreases units.len(),
{
    if units.len() == 0 {
        0
    } else {
        utf8_width(first_code_point(units)) + utf8_len(units.skip(first_width(units)))
    }
}

/// How many code units are written into `capacity` bytes: whole characters
/// from the front, up to the first one that no longer fits.
pub open spec fn units_fitting(units: Seq<u16>, capacity: int) -> int
    decreases units.len(),
{
    if units.len() == 0 || utf8_width(first_code_point(units)) > capacity {
        0
    } else {
        first_width(units) + units_fitting(
            units.skip(first_width(units)),
            capacity - utf8_width(first_code_point(units)),
        )
    }
}

/// The bytes written into `capacity` bytes: those of the characters that
/// [`units_fitting`] counts.
pub open spec fn utf8_prefix(units: Seq<u16>, capacity: int, replace: bool) -> Seq<u8>
    decreases units.len(),
{
    if units.len() == 0 || utf8_width(first_code_point(units)) > capacity {
        seq![]
    } else {
        utf8_of_code_point(first_code_point(units), replace) + utf8_prefix(
            units.skip(first_width(units)),
            capacity - utf8_width(first_code_point(units)),
            replace,
        )
    }
}

/// The scalar value that a code point is read as: U+FFFD for a surrogate.
pub open spec fn scalar_or_replacement(c: u32) -> u32 {
    if is_surrogate(c) {
        REPLACEMENT
    } else {
        c
    }
}

/// The text that `units` reads as when every unpaired surrogate is replaced
/// by U+FFFD.
pub open spec fn lossy_text(units: Seq<u16>) -> Seq<char>
    decreases units.len(),
{
    if units.len() == 0 {
        seq![]
    } else {
        seq![scalar_or_replacement(first_code_point(units)) as char] + lossy_text(
            units.skip(first_width(units)),
        )
    }
}

/// Whether every code unit fits in one byte.
pub open spec fn all_one_byte(units: Seq<u16>) -> bool {
    forall|i: int| 0 <= i < units.len() ==> #[trigger] units[i] <= 0xFF
}

/// The code units of a one-byte buffer: each byte is one unit.
pub open spec fn widen(bytes: Seq<u8>) -> Seq<u16> {
    Seq::new(bytes.len(), |i: int| bytes[i] as u16)
}

/// The code point of the first character is one that UTF-8 has a width for.
pub proof fn lemma_first_code_point_bound(units: Seq<u16>)
    requires
        units.len() > 0,
    ensures
        first_code_point(units) <= 0x10FFFF,
        first_width(units) == 2 ==> 0x10000 <= first_code_point(units),
        first_width(units) == 1 ==> first_code_point(units) == units[0],
        1 <= first_width(units) <= units.len(),
{
}

/// A code point is written as many bytes as its width says, whether
/// surrogates are replaced or not.
pub proof fn lemma_utf8_of_code_point_len(c: u32, replace: bool)
    requires
        c <= 0x10FFFF,
    ensures
        utf8_of_code_point(c, replace).len() == utf8_width(c),
{
}

/// [`utf8_len`] is the length of what [`utf8_of_utf16`] gives.
pub proof fn lemma_utf8_len(units: Seq<u16>, replace: bool)
    ensures
        utf8_of_utf16(units, replace).len() == utf8_len(units),
        0 <= utf8_len(units) <= 3 * units.len(),
        units.len() <= utf8_len(units),
    decreases units.len(),
{
    if units.len() > 0 {
        lemma_first_code_point_bound(units);
        lemma_utf8_of_code_point_len(first_code_point(units), replace);
        lemma_utf8_len(units.skip(first_width(units)), replace);
    }
}

/// Where the whole string fits, all of it is written.
pub proof fn lemma_utf8_prefix_complete(units: Seq<u16>, capacity: int, replace: bool)
    requires
        utf8_len(units) <= capacity,
    ensures
        utf8_prefix(units, capacity, replace) == utf8_of_utf16(units, replace),
        units_fitting(units, capacity) == units.len(),
    decreases units.len(),
{
    if units.len() > 0 {
        let rest = units.skip(first_width(units));
        lemma_first_code_point_bound(units);
        lemma_utf8_len(rest, replace);
        lemma_utf8_prefix_complete(rest, capacity - utf8_width(first_code_point(units)), replace);
    }
}

/// What is written never exceeds the room, and is the UTF-8 of exactly the
/// code units counted as written: no character is written in part.
pub proof fn lemma_utf8_prefix_is_whole(units: Seq<u16>, capacity: int, replace: bool)
    requires
        0 <= capacity,
    ensures
        0 <= units_fitting(units, capacity) <= units.len(),
        utf8_prefix(units, capacity, replace).len() <= capacity,
        utf8_prefix(units, capacity, replace) == utf8_of_utf16(
            units.take(units_fitting(units, capacity)),
            replace,
        ),
    decreases units.len(),
{
    if units.len() > 0 && utf8_width(first_code_point(units)) <= capacity {
        let width = first_width(units);
        let rest = units.skip(width);
        let room = capacity - utf8_width(first_code_point(units));
        lemma_first_code_point_bound(units);
        lemma_utf8_of_code_point_len(first_code_point(units), replace);
        lemma_utf8_prefix_is_whole(rest, room, replace);
        let taken = units.take(units_fitting(units, capacity));
        assert(taken.len() >= width);
        assert(first_width(taken) == width);
        assert(first_code_point(taken) == first_code_point(units));
        assert(taken.skip(width) == rest.take(units_fitting(rest, room)));
    } else {
        assert(units.take(0).len() == 0);
    }
}

/// The UTF-8 written with replacement is the UTF-8 of the lossy text.
pub proof fn lemma_lossy_text_bytes(units: Seq<u16>)
    ensures
        utf8_of_utf16(units, true) == encode_utf8(lossy_text(units)),
    decreases units.len(),
{
    if units.len() > 0 {
        let rest = units.skip(first_width(units));
        let scalar = scalar_or_replacement(first_code_point(units));
        lemma_first_code_point_bound(units);
        lemma_lossy_text_bytes(rest);
        let text = lossy_text(units);
        assert(text.drop_first() == lossy_text(rest));
        assert(text[0] as u32 == scalar);
    }
}

/// The code units of a text read back as that text's UTF-8.
pub proof fn lemma_utf8_of_chars(text: Seq<char>, replace: bool)
    ensures
        utf8_of_utf16(utf16_of_chars(text), replace) == encode_utf8(text),
    decreases text.len(),
{
    if text.len() > 0 {
        let scalar = text[0] as u32;
        let units = utf16_of_chars(text);
        let rest = text.drop_first();
        char_is_scalar(text[0]);
        assert(first_width(units) == utf16_of_scalar(scalar).len());
        assert(first_code_point(units) == scalar);
        assert(units.skip(first_width(units)) == utf16_of_chars(rest));
        lemma_utf8_of_chars(rest, replace);
    }
}

/// ASCII text has one code unit for each byte of its UTF-8: the byte
/// itself. So a one-byte buffer of ASCII reads as the text it was written
/// as, which no other UTF-8 does.
pub proof fn lemma_ascii_units(text: Seq<char>)
    requires
        is_ascii_chars(text),
    ensures
        widen(encode_utf8(text)) == utf16_of_chars(text),
    decreases text.len(),
{
    if text.len() > 0 {
        let scalar = text[0] as u32;
        let rest = text.drop_first();
        assert(leading_byte_width_1(scalar) == scalar) by (bit_vector)
            requires
                scalar < 0x80,
        ;
        lemma_ascii_units(rest);
        assert(widen(encode_utf8(text)) == seq![scalar as u16] + widen(encode_utf8(rest)));
    }
}

} // verus!
