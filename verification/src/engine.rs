//! The engine's side of the boundary: its strings and what it does with
//! them.
//!
//! The engine addresses everything with signed 32-bit lengths. It keeps a
//! string in one of four representations, as one-byte or two-byte code
//! units, in memory of its own or in a static buffer of the host, and it
//! never changes a string once made. Its operations are the free functions
//! of this module; the host-facing functions of [`String`] are built on
//! them.

use vstd::prelude::*;
use vstd::slice::slice_subrange;
use std::rc::Rc;
use crate::code_units::{
    all_one_byte,
    first_code_point,
    first_width,
    lemma_first_code_point_bound,
    lemma_utf8_of_code_point_len,
    units_fitting,
    utf8_len,
    utf8_of_code_point,
    utf8_prefix,
    widen,
};
use crate::decode::{decode_utf8_lossy, utf16_from_utf8};
use crate::encode::{width_of, write_code_point};
use crate::options::{NewStringType, WriteOptions};

verus! {

/// The longest string the engine makes, in code units.
pub const MAX_STRING_LENGTH: usize = 0x1fff_ffe8;

/// How the engine holds a string.
#[derive(Clone, Copy, Debug, PartialEq, Eq, Structural)]
pub enum Representation {
    /// In the engine's memory, one byte for each code unit.
    OneByte,
    /// In the engine's memory, two bytes for each code unit.
    TwoByte,
    /// In a static buffer of the host, one byte for each code unit.
    ExternalOneByte,
    /// In a static buffer of the host, two bytes for each code unit.
    ExternalTwoByte,
}

/// The representation that the engine chooses for a string it makes in its
/// own memory: one-byte where every code unit allows it.
pub open spec fn internal_representation(units: Seq<u16>) -> Representation {
    if all_one_byte(units) {
        Representation::OneByte
    } else {
        Representation::TwoByte
    }
}

enum Backing {
    OneByte(Vec<u8>),
    TwoByte(Vec<u16>),
    ExternalOneByte(&'static [u8]),
    ExternalTwoByte(&'static [u16]),
}

/// An engine string. Its view is the sequence of its code units.
pub struct String {
    backing: Backing,
}

impl View for String {
    type V = Seq<u16>;

    closed spec fn view(&self) -> Seq<u16> {
        match self.backing {
            Backing::OneByte(bytes) => widen(bytes@),
            Backing::TwoByte(units) => units@,
            Backing::ExternalOneByte(bytes) => widen(bytes@),
            Backing::ExternalTwoByte(units) => units@,
        }
    }
}

impl String {
    /// How the engine holds this string.
    pub closed spec fn representation(&self) -> Representation {
        match self.backing {
            Backing::OneByte(_) => Representation::OneByte,
            Backing::TwoByte(_) => Representation::TwoByte,
            Backing::ExternalOneByte(_) => Representation::ExternalOneByte,
            Backing::ExternalTwoByte(_) => Representation::ExternalTwoByte,
        }
    }

    /// Whether this is a string as the engine makes them: no longer than
    /// the engine's own limit. Every string that exists is.
    #[verifier::type_invariant]
    pub open spec fn wf(&self) -> bool {
        self@.len() <= MAX_STRING_LENGTH
    }

    fn unit_count(&self) -> (count: usize)
        ensures
            count == self@.len(),
            count <= MAX_STRING_LENGTH,
    {
        proof {
            use_type_invariant(self);
        }
        match &self.backing {
            Backing::OneByte(bytes) => bytes.len(),
            Backing::TwoByte(units) => units.len(),
            Backing::ExternalOneByte(bytes) => bytes.len(),
            Backing::ExternalTwoByte(units) => units.len(),
        }
    }

    fn unit_at(&self, index: usize) -> (unit: u16)
        requires
            index < self@.len(),
        ensures
            unit == self@[index as int],
    {
        match &self.backing {
            Backing::OneByte(bytes) => bytes[index] as u16,
            Backing::TwoByte(units) => units[index],
            Backing::ExternalOneByte(bytes) => bytes[index] as u16,
            Backing::ExternalTwoByte(units) => units[index],
        }
    }

    /// Reads the character that starts at `at`: its code point and how many
    /// code units it takes.
    fn code_point_at(&self, at: usize) -> (read: (u32, usize))
        requires
            at < self@.len(),
        ensures
            read.0 == first_code_point(self@.skip(at as int)),
            read.1 == first_width(self@.skip(at as int)),
            read.0 <= 0x10FFFF,
            1 <= read.1 <= self@.len() - at,
    {
        let ghost rest = self@.skip(at as int);
        let count: usize = self.unit_count();
        let unit: u16 = self.unit_at(at);
        assert(rest[0] == unit);
        proof {
            lemma_first_code_point_bound(rest);
        }
        if 0xD800 <= unit && unit <= 0xDBFF && at + 1 < count {
            let next: u16 = self.unit_at(at + 1);
            assert(rest[1] == next);
            if 0xDC00 <= next && next <= 0xDFFF {
                let high: u32 = (unit - 0xD800) as u32;
                let low: u32 = (next - 0xDC00) as u32;
                return (0x10000 + high * 0x400 + low, 2);
            }
        }
        (unit as u32, 1)
    }
}

/// An engine instance.
///
/// It owns the one empty string that every empty request is answered with,
/// and it refuses to make a string longer than its limit.
pub struct Isolate {
    empty: Rc<String>,
    limit: usize,
}

impl Isolate {
    /// The canonical empty string of this engine.
    pub closed spec fn empty_string(&self) -> String {
        *self.empty
    }

    /// The longest string this engine makes, in code units.
    pub closed spec fn max_string_length(&self) -> nat {
        self.limit as nat
    }

    /// Whether this is an engine as they are made: its limit is within the
    /// engine's own, and its empty string is empty and held one-byte. Every
    /// engine that exists is.
    #[verifier::type_invariant]
    pub open spec fn wf(&self) -> bool {
        &&& self.max_string_length() <= MAX_STRING_LENGTH
        &&& self.empty_string()@.len() == 0
        &&& self.empty_string().representation() == Representation::OneByte
    }

    /// An engine with the largest limit.
    pub fn new() -> (isolate: Isolate)
        ensures
            isolate.max_string_length() == MAX_STRING_LENGTH,
            isolate.wf(),
    {
        Isolate::with_max_string_length(MAX_STRING_LENGTH)
    }

    /// An engine that makes no string longer than `limit` code units, nor
    /// longer than [`MAX_STRING_LENGTH`].
    pub fn with_max_string_length(limit: usize) -> (isolate: Isolate)
        ensures
            isolate.max_string_length() == if limit <= MAX_STRING_LENGTH {
                limit
            } else {
                MAX_STRING_LENGTH
            },
            isolate.wf(),
    {
        let bytes: Vec<u8> = Vec::new();
        assert(widen(bytes@).len() == 0);
        let empty = String { backing: Backing::OneByte(bytes) };
        let limit: usize = if limit <= MAX_STRING_LENGTH {
            limit
        } else {
            MAX_STRING_LENGTH
        };
        Isolate { empty: Rc::new(empty), limit }
    }

    /// The longest string this engine makes, in code units.
    pub fn string_length_limit(&self) -> (limit: usize)
        ensures
            limit == self.max_string_length(),
            limit <= MAX_STRING_LENGTH,
    {
        proof {
            use_type_invariant(self);
        }
        self.limit
    }
}

/// Gives the engine's canonical empty string. It cannot fail.
pub fn create_empty_string(isolate: &mut Isolate) -> (string: Rc<String>)
    ensures
        *string == old(isolate).empty_string(),
        old(isolate).wf(),
        *final(isolate) == *old(isolate),
{
    proof {
        use_type_invariant(&*isolate);
    }
    isolate.empty.clone()
}

/// Whether every code unit of `units` fits in one byte.
fn fits_one_byte(units: &Vec<u16>) -> (fits: bool)
    ensures
        fits == all_one_byte(units@),
{
    let mut at: usize = 0;
    while at < units.len()
        invariant
            at <= units.len(),
            all_one_byte(units@.take(at as int)),
        decreases units.len() - at,
    {
        if units[at] > 0xFF {
            return false;
        }
        assert(all_one_byte(units@.take(at + 1))) by {
            assert(forall|i: int|
                0 <= i < at ==> units@.take(at + 1)[i] == units@.take(at as int)[i]);
        }
        at = at + 1;
    }
    assert(units@.take(at as int) == units@);
    true
}

/// The bytes of code units that all fit in one.
fn narrow(units: &Vec<u16>) -> (bytes: Vec<u8>)
    requires
        all_one_byte(units@),
    ensures
        widen(bytes@) == units@,
{
    let mut bytes: Vec<u8> = Vec::new();
    let mut at: usize = 0;
    while at < units.len()
        invariant
            at <= units.len(),
            all_one_byte(units@),
            bytes@.len() == at,
            widen(bytes@) == units@.take(at as int),
        decreases units.len() - at,
    {
        let unit: u16 = units[at];
        assert(unit <= 0xFF);
        let ghost before = bytes@;
        bytes.push(unit as u8);
        assert(widen(bytes@) == units@.take(at + 1)) by {
            assert(forall|i: int|
                0 <= i < at ==> widen(bytes@)[i] == #[trigger] widen(before)[i]);
            assert(forall|i: int|
                0 <= i < at ==> widen(before)[i] == #[trigger] units@.take(at as int)[i]);
        }
        at = at + 1;
    }
    assert(units@.take(at as int) == units@);
    bytes
}

/// Makes a string from the first `length` bytes of `data`, read as UTF-8;
/// what is not UTF-8 in them becomes U+FFFD. The engine refuses, with
/// `None`, a string longer than its limit, and nothing else.
///
/// The kind tells the engine whether it may share the string through its
/// interning table. It has no bearing on what the string holds: both kinds
/// give equal strings.
pub fn create_string_from_utf8(
    isolate: &mut Isolate,
    data: &[u8],
    length: i32,
    _kind: NewStringType,
) -> (string: Option<Rc<String>>)
    requires
        0 <= length <= data@.len(),
    ensures
        string is Some <==> utf16_from_utf8(data@.take(length as int)).len() <= old(
            isolate,
        ).max_string_length(),
        string matches Some(s) ==> s@ == utf16_from_utf8(data@.take(length as int))
            && s.representation() == internal_representation(s@),
        string matches Some(s) ==> (s@.len() == 0 ==> *s == old(isolate).empty_string()),
        *final(isolate) == *old(isolate),
{
    let units: Vec<u16> = decode_utf8_lossy(slice_subrange(data, 0, length as usize));
    if units.len() > isolate.string_length_limit() {
        return None;
    }
    if units.len() == 0 {
        return Some(create_empty_string(isolate));
    }
    let backing = if fits_one_byte(&units) {
        Backing::OneByte(narrow(&units))
    } else {
        Backing::TwoByte(units)
    };
    Some(Rc::new(String { backing }))
}

/// Makes a string that aliases the first `length` bytes of `data` without
/// copying them: each byte is one code unit. The engine refuses, with
/// `None`, a string longer than its limit, and nothing else.
///
/// The buffer is static, so it outlives the engine and nobody writes to it.
/// Its bytes are taken as Latin-1: bytes that were meant as UTF-8 read as
/// other text than was meant.
pub fn register_external_one_byte_static(
    isolate: &mut Isolate,
    data: &'static [u8],
    length: i32,
) -> (string: Option<Rc<String>>)
    requires
        0 < length <= data@.len(),
    ensures
        string is Some <==> length <= old(isolate).max_string_length(),
        string matches Some(s) ==> s@ == widen(data@.take(length as int)) && s.representation()
            == Representation::ExternalOneByte,
        *final(isolate) == *old(isolate),
{
    if length as usize > isolate.string_length_limit() {
        return None;
    }
    let bytes: &'static [u8] = slice_subrange(data, 0, length as usize);
    assert(widen(bytes@).len() == length);
    Some(Rc::new(String { backing: Backing::ExternalOneByte(bytes) }))
}

/// Makes a string that aliases the first `length` code units of `data`
/// without copying them. The engine refuses, with `None`, a string longer
/// than its limit, and nothing else.
///
/// The code units are taken as they are: a surrogate that has no partner
/// stays in the string unpaired.
pub fn register_external_two_byte_static(
    isolate: &mut Isolate,
    data: &'static [u16],
    length: i32,
) -> (string: Option<Rc<String>>)
    requires
        0 < length <= data@.len(),
    ensures
        string is Some <==> length <= old(isolate).max_string_length(),
        string matches Some(s) ==> s@ == data@.take(length as int) && s.representation()
            == Representation::ExternalTwoByte,
        *final(isolate) == *old(isolate),
{
    if length as usize > isolate.string_length_limit() {
        return None;
    }
    let units: &'static [u16] = slice_subrange(data, 0, length as usize);
    Some(Rc::new(String { backing: Backing::ExternalTwoByte(units) }))
}

/// The number of code units of a string.
pub fn query_code_unit_length(string: &String) -> (length: i32)
    ensures
        length == string@.len(),
{
    string.unit_count() as i32
}

/// The number of bytes that a string takes in UTF-8.
pub fn query_utf8_byte_length(string: &String, isolate: &mut Isolate) -> (length: i32)
    ensures
        length == utf8_len(string@),
        *final(isolate) == *old(isolate),
{
    let count: usize = string.unit_count();
    let mut at: usize = 0;
    let mut total: usize = 0;
    assert(string@.skip(0) == string@);
    while at < count
        invariant
            count == string@.len(),
            count <= MAX_STRING_LENGTH,
            at <= count,
            total <= 3 * at,
            total + utf8_len(string@.skip(at as int)) == utf8_len(string@),
        decreases count - at,
    {
        let read = string.code_point_at(at);
        assert(string@.skip(at as int).skip(read.1 as int) == string@.skip(at + read.1));
        total = total + width_of(read.0);
        at = at + read.1;
    }
    assert(string@.skip(at as int).len() == 0);
    total as i32
}

/// Whether a zero byte follows the text written into `capacity` bytes: it
/// does when it is asked for and the text written leaves a byte of room,
/// be the text the whole string or not.
pub open spec fn is_terminated(units: Seq<u16>, capacity: int, options: WriteOptions) -> bool {
    !options.no_null_termination && utf8_prefix(
        units,
        capacity,
        options.replace_invalid_utf8,
    ).len() < capacity
}

/// The bytes that writing a string into `capacity` bytes produces: the
/// characters that fit, whole, and the zero byte where one follows.
pub open spec fn utf8_output(units: Seq<u16>, capacity: int, options: WriteOptions) -> Seq<u8> {
    utf8_prefix(units, capacity, options.replace_invalid_utf8) + if is_terminated(
        units,
        capacity,
        options,
    ) {
        seq![0u8]
    } else {
        seq![]
    }
}

/// Writes a string as UTF-8 into the first `capacity` bytes of `out`.
///
/// Characters are written whole, from the front, until one does not fit; a
/// surrogate pair is one character of four bytes. An unpaired surrogate is
/// written as U+FFFD where `replace_invalid_utf8` is set, and as its own
/// three bytes, which are not UTF-8, where it is not. A zero byte follows
/// the text as [`is_terminated`] says. The other two flags change nothing
/// of what is written: a zero code unit is always written as a zero byte.
///
/// The result is the number of bytes written, the zero byte included;
/// `units_read` receives the number of code units whose characters were
/// written. Bytes of `out` beyond those written keep their value.
pub fn write_utf8(
    string: &String,
    isolate: &mut Isolate,
    out: &mut [u8],
    capacity: i32,
    units_read: &mut i32,
    options: WriteOptions,
) -> (written: i32)
    requires
        0 <= capacity <= old(out)@.len(),
    ensures
        written == utf8_output(string@, capacity as int, options).len(),
        0 <= written <= capacity,
        final(out)@ == utf8_output(string@, capacity as int, options) + old(out)@.skip(
            written as int,
        ),
        *final(units_read) == units_fitting(string@, capacity as int),
        *final(isolate) == *old(isolate),
{
    let count: usize = string.unit_count();
    let room: usize = capacity as usize;
    let replace: bool = options.replace_invalid_utf8;
    let mut at: usize = 0;
    let mut used: usize = 0;
    let ghost text: Seq<u8> = seq![];
    assert(string@.skip(0) == string@);
    assert(out@ == text + old(out)@.skip(0));
    while at < count
        invariant_except_break
            text + utf8_prefix(string@.skip(at as int), room - used, replace) == utf8_prefix(
                string@,
                room as int,
                replace,
            ),
            at + units_fitting(string@.skip(at as int), room - used) == units_fitting(
                string@,
                room as int,
            ),
        invariant
            count == string@.len(),
            count <= MAX_STRING_LENGTH,
            room <= old(out)@.len(),
            out@.len() == old(out)@.len(),
            at <= count,
            used <= room,
            text.len() == used,
            out@ == text + old(out)@.skip(used as int),
        ensures
            text == utf8_prefix(string@, room as int, replace),
            at == units_fitting(string@, room as int),
        decreases count - at,
    {
        let ghost rest = string@.skip(at as int);
        let read = string.code_point_at(at);
        let width: usize = width_of(read.0);
        if width > room - used {
            break;
        }
        let ghost before = out@;
        write_code_point(out, used, read.0, replace);
        proof {
            let piece = utf8_of_code_point(read.0, replace);
            lemma_utf8_of_code_point_len(read.0, replace);
            assert(rest.skip(read.1 as int) == string@.skip(at + read.1));
            assert(before.take(used as int) == text);
            assert(before.skip(used + width) == old(out)@.skip(used + width));
            text = text + piece;
            assert(out@ == text + old(out)@.skip(used + width));
        }
        used = used + width;
        at = at + read.1;
    }
    let mut written: usize = used;
    if !options.no_null_termination && used < room {
        out[used] = 0;
        written = used + 1;
        proof {
            assert(out@ == (text + seq![0u8]) + old(out)@.skip(written as int));
        }
    }
    *units_read = at as i32;
    written as i32
}

/// Whether the string lives in a static one-byte buffer of the host.
pub fn query_is_external_one_byte(string: &String) -> (is: bool)
    ensures
        is == (string.representation() == Representation::ExternalOneByte),
{
    match &string.backing {
        Backing::ExternalOneByte(_) => true,
        _ => false,
    }
}

/// Whether the string lives in a static two-byte buffer of the host.
pub fn query_is_external_two_byte(string: &String) -> (is: bool)
    ensures
        is == (string.representation() == Representation::ExternalTwoByte),
{
    match &string.backing {
        Backing::ExternalTwoByte(_) => true,
        _ => false,
    }
}

/// Whether the string is held one byte for each code unit, in the engine's
/// memory or in the host's. The engine answers from the representation and
/// does not read the string: a two-byte string says no even where each of
/// its code units would fit a byte.
pub fn query_is_one_byte(string: &String) -> (is: bool)
    ensures
        is == (string.representation() == Representation::OneByte || string.representation()
            == Representation::ExternalOneByte),
        is ==> all_one_byte(string@),
{
    match &string.backing {
        Backing::OneByte(_) => true,
        Backing::ExternalOneByte(_) => true,
        _ => false,
    }
}

} // verus!
