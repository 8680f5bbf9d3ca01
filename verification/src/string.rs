//! The host's side of the boundary: making engine strings from host text
//! and reading them back.

use vstd::prelude::*;
use vstd::utf8::*;
use vstd::string::StringSliceAdditionalSpecFns;
use crate::code_units::{
    all_one_byte,
    lemma_ascii_units,
    lemma_lossy_text_bytes,
    lemma_utf8_len,
    lemma_utf8_prefix_complete,
    lemma_utf8_prefix_is_whole,
    lossy_text,
    units_fitting,
    utf16_of_chars,
    utf8_len,
    utf8_of_utf16,
    widen,
};
use crate::decode::{lemma_utf16_of_valid_utf8, utf16_from_utf8};
use crate::engine::{
    create_empty_string,
    create_string_from_utf8,
    internal_representation,
    query_code_unit_length,
    query_is_external_one_byte,
    query_is_external_two_byte,
    query_is_one_byte,
    query_utf8_byte_length,
    register_external_one_byte_static,
    utf8_output,
    write_utf8,
    Isolate,
    Representation,
    String,
    MAX_STRING_LENGTH,
};
use crate::length::{fits_engine_length, saturating_length, write_capacity};
use crate::options::{NewStringType, WriteOptions};
use crate::request::{creation, registration, Creation, Registration};
use crate::scope::{HandleScope, Local};

verus! {

/// What a request to make a string from host bytes comes to.
///
/// An empty request is answered with the engine's canonical empty string.
/// Any other is refused when its length does not fit the engine's lengths
/// or its text is longer than the engine's limit, and else gives a string
/// in the engine's memory with the code units that the bytes decode to.
pub open spec fn answers_utf8(isolate: Isolate, buffer: Seq<u8>, answer: Option<String>) -> bool {
    if buffer.len() == 0 {
        answer == Some(isolate.empty_string())
    } else if fits_engine_length(buffer.len()) && utf16_from_utf8(buffer).len()
        <= isolate.max_string_length() {
        answer matches Some(s) && s@ == utf16_from_utf8(buffer) && s.representation()
            == internal_representation(s@)
    } else {
        answer is None
    }
}

/// What a request to register a static one-byte buffer comes to.
///
/// It is refused when the buffer is empty, when its length does not fit the
/// engine's lengths, or when it is longer than the engine's limit. Else it
/// gives an external one-byte string with one code unit for each byte.
pub open spec fn answers_external(
    isolate: Isolate,
    buffer: Seq<u8>,
    answer: Option<String>,
) -> bool {
    if 0 < buffer.len() && fits_engine_length(buffer.len()) && buffer.len()
        <= isolate.max_string_length() {
        answer matches Some(s) && s@ == widen(buffer) && s.representation()
            == Representation::ExternalOneByte
    } else {
        answer is None
    }
}

/// The string that a handle refers to, where there is a handle.
pub open spec fn target_of<'s>(handle: Option<Local<'s, String>>) -> Option<String> {
    match handle {
        Some(h) => Some(h.target()),
        None => None,
    }
}

/// `String::from_utf8` of std. It gives a string exactly for bytes that are
/// valid UTF-8, and the string's own bytes are then the ones given.
#[verifier::external_body]
fn string_from_utf8(bytes: Vec<u8>) -> (text: Option<std::string::String>)
    ensures
        text is Some <==> valid_utf8(bytes@),
        text matches Some(t) ==> encode_utf8(t@) == bytes@,
{
    std::string::String::from_utf8(bytes).ok()
}

impl String {
    /// The engine's canonical empty string, bound to `scope`.
    pub fn empty<'s>(scope: &mut HandleScope<'s>) -> (string: Local<'s, String>)
        ensures
            string.target() == old(scope).isolate().empty_string(),
            old(scope).isolate().wf(),
            final(scope).isolate() == old(scope).isolate(),
            *final(final(scope).isolate) == *final(old(scope).isolate),
    {
        let raw = create_empty_string(scope.isolate);
        scope.cast_local(Some(raw)).unwrap()
    }

    /// Makes a string from host bytes, read as UTF-8.
    ///
    /// See [`answers_utf8`] for when a string is made and which. The kind
    /// changes neither.
    pub fn new_from_utf8<'s>(
        scope: &mut HandleScope<'s>,
        buffer: &[u8],
        new_type: NewStringType,
    ) -> (string: Option<Local<'s, String>>)
        ensures
            answers_utf8(old(scope).isolate(), buffer@, target_of(string)),
            old(scope).isolate().wf(),
            final(scope).isolate() == old(scope).isolate(),
            *final(final(scope).isolate) == *final(old(scope).isolate),
    {
        proof {
            use_type_invariant(&*scope.isolate);
        }
        match creation(buffer.len()) {
            Creation::Empty => Some(String::empty(scope)),
            Creation::Refused => None,
            Creation::Create(buffer_len) => {
                assert(buffer@.take(buffer_len as int) == buffer@);
                let raw = create_string_from_utf8(scope.isolate, buffer, buffer_len, new_type);
                scope.cast_local(raw)
            },
        }
    }

    /// The number of UTF-16 code units in this string.
    pub fn length(&self) -> (count: usize)
        ensures
            count == self@.len(),
            count <= MAX_STRING_LENGTH,
    {
        proof {
            use_type_invariant(self);
        }
        query_code_unit_length(self) as usize
    }

    /// The number of bytes that this string takes in UTF-8. An unpaired
    /// surrogate counts as three.
    pub fn utf8_length(&self, scope: &mut Isolate) -> (count: usize)
        ensures
            count == utf8_len(self@),
            count <= 3 * MAX_STRING_LENGTH,
            *final(scope) == *old(scope),
    {
        proof {
            use_type_invariant(self);
            lemma_utf8_len(self@, true);
        }
        query_utf8_byte_length(self, scope) as usize
    }

    /// Writes this string as UTF-8 into `buffer`, as far as whole
    /// characters fit, and returns the number of bytes written.
    ///
    /// No more than [`write_capacity`] bytes of the buffer are used. What is
    /// written, and when a zero byte follows the text, is what
    /// [`utf8_output`] says; the zero byte is counted. Bytes of the buffer
    /// beyond the count keep their value. Where `nchars_ref` is given, it
    /// receives the number of code units whose characters were written.
    pub fn write_utf8(
        &self,
        scope: &mut Isolate,
        buffer: &mut [u8],
        nchars_ref: Option<&mut usize>,
        options: WriteOptions,
    ) -> (written: usize)
        ensures
            written == utf8_output(
                self@,
                write_capacity(old(buffer)@.len()),
                options,
            ).len(),
            final(buffer)@ == utf8_output(self@, write_capacity(old(buffer)@.len()), options)
                + old(buffer)@.skip(written as int),
            nchars_ref matches Some(nchars) ==> *final(nchars) == units_fitting(
                self@,
                write_capacity(old(buffer)@.len()),
            ),
            *final(scope) == *old(scope),
    {
        proof {
            lemma_utf8_prefix_is_whole(self@, write_capacity(buffer@.len()), true);
        }
        let mut nchars_ref_int: i32 = 0;
        let capacity: i32 = saturating_length(buffer.len());
        let bytes: i32 = write_utf8(self, scope, buffer, capacity, &mut nchars_ref_int, options);
        if let Some(r) = nchars_ref {
            *r = nchars_ref_int as usize;
        }
        bytes as usize
    }

    /// Makes an ordinary string from host text.
    pub fn new<'s>(scope: &mut HandleScope<'s>, value: &str) -> (string: Option<Local<'s, String>>)
        ensures
            answers_utf8(old(scope).isolate(), value.spec_bytes(), target_of(string)),
            string matches Some(s) ==> s@ == utf16_of_chars(value@),
            old(scope).isolate().wf(),
            final(scope).isolate() == old(scope).isolate(),
            *final(final(scope).isolate) == *final(old(scope).isolate),
    {
        proof {
            lemma_utf16_of_valid_utf8(value@);
        }
        let string = String::new_from_utf8(scope, value.as_bytes(), NewStringType::Normal);
        proof {
            if value.spec_bytes().len() == 0 {
                assert(value@.len() == 0) by {
                    if value@.len() > 0 {
                        encode_utf8_first_scalar(value@);
                    }
                }
            }
        }
        string
    }

    /// Makes a string that aliases static host text without copying it.
    ///
    /// The bytes of `value` are taken one code unit each, as Latin-1. For
    /// ASCII text the string then holds the text itself. For any other
    /// text it does not: it is for the caller to pass only bytes that are
    /// meant as Latin-1. That the buffer outlives the engine and is never
    /// written to is what `'static` on a shared reference says.
    ///
    /// See [`answers_external`] for when a string is made.
    pub fn new_external_onebyte_static<'s>(
        scope: &mut HandleScope<'s>,
        value: &'static str,
    ) -> (string: Option<Local<'s, String>>)
        ensures
            answers_external(old(scope).isolate(), value.spec_bytes(), target_of(string)),
            string matches Some(s) ==> (is_ascii_chars(value@) ==> s@ == utf16_of_chars(value@)),
            old(scope).isolate().wf(),
            final(scope).isolate() == old(scope).isolate(),
            *final(final(scope).isolate) == *final(old(scope).isolate),
    {
        proof {
            use_type_invariant(&*scope.isolate);
            if is_ascii_chars(value@) {
                lemma_ascii_units(value@);
            }
        }
        let buffer: &'static [u8] = value.as_bytes();
        match registration(buffer.len()) {
            Registration::Refused => None,
            Registration::Register(buffer_len) => {
                assert(buffer@.take(buffer_len as int) == buffer@);
                let raw = register_external_one_byte_static(scope.isolate, buffer, buffer_len);
                scope.cast_local(raw)
            },
        }
    }

    /// Whether this string lives in a static buffer of the host.
    pub fn is_external(&self) -> (is: bool)
        ensures
            is == (self.representation() == Representation::ExternalOneByte
                || self.representation() == Representation::ExternalTwoByte),
    {
        self.is_external_onebyte() || self.is_external_twobyte()
    }

    /// Whether this string lives in a static one-byte buffer of the host.
    pub fn is_external_onebyte(&self) -> (is: bool)
        ensures
            is == (self.representation() == Representation::ExternalOneByte),
    {
        query_is_external_one_byte(self)
    }

    /// Whether this string lives in a static two-byte buffer of the host.
    pub fn is_external_twobyte(&self) -> (is: bool)
        ensures
            is == (self.representation() == Representation::ExternalTwoByte),
    {
        query_is_external_two_byte(self)
    }

    /// Whether this string is held one byte for each code unit, wherever it
    /// lives. The answer comes from how the string is held, not from what
    /// it holds: a string held two-byte says no even where each of its code
    /// units would fit a byte.
    pub fn is_onebyte(&self) -> (is: bool)
        ensures
            is == (self.representation() == Representation::OneByte || self.representation()
                == Representation::ExternalOneByte),
            is ==> all_one_byte(self@),
    {
        query_is_one_byte(self)
    }

    /// The text of this string as a host string, with U+FFFD for every
    /// unpaired surrogate.
    ///
    /// The buffer is sized to the UTF-8 length first and written in place,
    /// so the text is encoded once and copied nowhere.
    pub fn to_rust_string_lossy(&self, scope: &mut Isolate) -> (text: std::string::String)
        ensures
            text@ == lossy_text(self@),
            *final(scope) == *old(scope),
    {
        let capacity: usize = self.utf8_length(scope);
        let mut bytes: Vec<u8> = vec![0u8; capacity];
        let options = WriteOptions::no_null_termination() | WriteOptions::replace_invalid_utf8();
        let length: usize = self.write_utf8(scope, bytes.as_mut_slice(), None, options);
        bytes.truncate(length);
        proof {
            lemma_utf8_len(self@, true);
            lemma_utf8_prefix_complete(self@, capacity as int, true);
            lemma_lossy_text_bytes(self@);
            assert(bytes@ == utf8_of_utf16(self@, true));
            encode_utf8_valid_utf8(lossy_text(self@));
        }
        match string_from_utf8(bytes) {
            Some(text) => {
                proof {
                    encode_utf8_decode_utf8(text@);
                    encode_utf8_decode_utf8(lossy_text(self@));
                }
                text
            },
            None => {
                proof {
                    assert(false);
                }
                std::string::String::new()
            },
        }
    }
}

} // verus!
