//! What holds of the conversions, whatever the text and whatever the
//! engine.
//!
//! Each law is stated over the functions by which the contracts of
//! [`String`] say what is made and what is written.

use vstd::prelude::*;
use vstd::utf8::*;
use crate::code_units::{
    first_code_point,
    first_width,
    lemma_first_code_point_bound,
    lemma_lossy_text_bytes,
    lemma_utf8_len,
    lemma_utf8_of_chars,
    lemma_utf8_prefix_is_whole,
    lossy_text,
    units_fitting,
    utf16_of_chars,
    utf8_len,
    utf8_of_utf16,
    utf8_prefix,
    utf8_width,
};
use crate::decode::lemma_utf16_of_valid_utf8;
use crate::engine::{utf8_output, Isolate, String};
use crate::length::fits_engine_length;
use crate::options::WriteOptions;
use crate::string::{answers_external, answers_utf8};

verus! {

/// An empty request is answered with the very string that the engine gives
/// as its empty string, whatever kind was asked for.
pub proof fn law_empty_request(isolate: Isolate, answer: Option<String>)
    requires
        answers_utf8(isolate, Seq::<u8>::empty(), answer),
    ensures
        answer == Some(isolate.empty_string()),
{
}

/// A string made from well-formed UTF-8 holds the code units of the text
/// that the bytes encode, so that its length is the number of UTF-16 code
/// units of that text.
pub proof fn law_code_units_of_text(isolate: Isolate, buffer: Seq<u8>, string: String)
    requires
        isolate.wf(),
        valid_utf8(buffer),
        answers_utf8(isolate, buffer, Some(string)),
    ensures
        string@ == utf16_of_chars(decode_utf8(buffer)),
{
    decode_utf8_encode_utf8(buffer);
    lemma_utf16_of_valid_utf8(decode_utf8(buffer));
}

/// A string made from well-formed UTF-8 takes as many bytes in UTF-8 as it
/// was made from.
pub proof fn law_utf8_length_round_trip(isolate: Isolate, buffer: Seq<u8>, string: String)
    requires
        isolate.wf(),
        valid_utf8(buffer),
        fits_engine_length(buffer.len()),
        answers_utf8(isolate, buffer, Some(string)),
    ensures
        utf8_len(string@) == buffer.len(),
{
    let text = decode_utf8(buffer);
    law_code_units_of_text(isolate, buffer, string);
    decode_utf8_encode_utf8(buffer);
    lemma_utf8_of_chars(text, true);
    lemma_utf8_len(string@, true);
}

/// A buffer longer than the engine can address is refused, both as text to
/// copy and as a buffer to alias.
pub proof fn law_oversized_buffer_is_refused(
    isolate: Isolate,
    buffer: Seq<u8>,
    copied: Option<String>,
    aliased: Option<String>,
)
    requires
        !fits_engine_length(buffer.len()),
        answers_utf8(isolate, buffer, copied),
        answers_external(isolate, buffer, aliased),
    ensures
        copied is None,
        aliased is None,
{
}

/// An empty buffer is never registered as an external string.
pub proof fn law_empty_buffer_is_not_registered(isolate: Isolate, aliased: Option<String>)
    requires
        answers_external(isolate, Seq::<u8>::empty(), aliased),
    ensures
        aliased is None,
{
}

/// Written with replacement, any sequence of code units gives valid UTF-8:
/// that of its lossy text, in which U+FFFD stands for each unpaired
/// surrogate.
pub proof fn law_lossy_output_is_valid_utf8(units: Seq<u16>)
    ensures
        valid_utf8(utf8_of_utf16(units, true)),
        decode_utf8(utf8_of_utf16(units, true)) == lossy_text(units),
{
    lemma_lossy_text_bytes(units);
    encode_utf8_valid_utf8(lossy_text(units));
    encode_utf8_decode_utf8(lossy_text(units));
}

/// Where the terminator is suppressed, what is written is text alone: the
/// UTF-8 of whole characters from the front of the string, within the room.
/// No zero byte is added to it.
pub proof fn law_no_terminator_when_suppressed(
    units: Seq<u16>,
    capacity: int,
    options: WriteOptions,
)
    requires
        0 <= capacity,
        options.no_null_termination,
    ensures
        utf8_output(units, capacity, options) == utf8_prefix(
            units,
            capacity,
            options.replace_invalid_utf8,
        ),
        utf8_output(units, capacity, options).len() <= capacity,
{
    lemma_utf8_prefix_is_whole(units, capacity, options.replace_invalid_utf8);
}

/// What is written is as much as fits: where writing stops before the end
/// of the string, the next character would have gone past the room.
pub proof fn law_written_text_is_maximal(units: Seq<u16>, capacity: int)
    requires
        0 <= capacity,
    ensures
        units_fitting(units, capacity) < units.len() ==> utf8_len(
            units.take(units_fitting(units, capacity)),
        ) + utf8_width(first_code_point(units.skip(units_fitting(units, capacity)))) > capacity,
    decreases units.len(),
{
    let fitting = units_fitting(units, capacity);
    if units.len() > 0 && utf8_width(first_code_point(units)) <= capacity {
        let width = first_width(units);
        let rest = units.skip(width);
        let room = capacity - utf8_width(first_code_point(units));
        lemma_first_code_point_bound(units);
        lemma_utf8_prefix_is_whole(rest, room, true);
        law_written_text_is_maximal(rest, room);
        let taken = units.take(fitting);
        assert(first_width(taken) == width);
        assert(first_code_point(taken) == first_code_point(units));
        assert(taken.skip(width) == rest.take(units_fitting(rest, room)));
        assert(units.skip(fitting) == rest.skip(units_fitting(rest, room)));
    } else {
        assert(units.take(0).len() == 0);
        assert(units.skip(0) == units);
    }
}

/// What is written depends on no flag but the two that say whether a zero
/// byte follows and whether unpaired surrogates are replaced.
pub proof fn law_output_depends_on_two_flags(
    units: Seq<u16>,
    capacity: int,
    one: WriteOptions,
    other: WriteOptions,
)
    requires
        one.no_null_termination == other.no_null_termination,
        one.replace_invalid_utf8 == other.replace_invalid_utf8,
    ensures
        utf8_output(units, capacity, one) == utf8_output(units, capacity, other),
{
}

/// A string made from the UTF-8 of a text reads back as that text.
pub proof fn law_text_round_trip(isolate: Isolate, text: Seq<char>, string: String)
    requires
        isolate.wf(),
        answers_utf8(isolate, encode_utf8(text), Some(string)),
    ensures
        lossy_text(string@) == text,
{
    let buffer = encode_utf8(text);
    encode_utf8_valid_utf8(text);
    encode_utf8_decode_utf8(text);
    law_code_units_of_text(isolate, buffer, string);
    lemma_utf8_of_chars(text, true);
    lemma_lossy_text_bytes(string@);
    encode_utf8_decode_utf8(lossy_text(string@));
}

} // verus!
