//! What the host asks of the engine, decided from a buffer's length alone.
//!
//! Whether a string is made at all never depends on the text: an empty
//! buffer and a buffer too long for the engine's lengths are settled before
//! the engine is asked for anything.

use vstd::prelude::*;
use crate::length::{checked_length, fits_engine_length};

verus! {

/// What is asked of the engine to make a string from host bytes.
#[derive(Clone, Copy, Debug, PartialEq, Eq, Structural)]
pub enum Creation {
    /// Its canonical empty string: the buffer is empty.
    Empty,
    /// Nothing: the buffer is longer than the engine can address.
    Refused,
    /// A string from this many bytes.
    Create(i32),
}

/// What is asked of the engine to alias a static host buffer.
#[derive(Clone, Copy, Debug, PartialEq, Eq, Structural)]
pub enum Registration {
    /// Nothing: the buffer is empty, which no external string can be backed
    /// by, or longer than the engine can address.
    Refused,
    /// An external string over this many bytes.
    Register(i32),
}

/// The request that a buffer of `len` bytes to copy comes to.
pub open spec fn spec_creation(len: nat) -> Creation {
    if len == 0 {
        Creation::Empty
    } else if fits_engine_length(len) {
        Creation::Create(len as i32)
    } else {
        Creation::Refused
    }
}

/// The request that a buffer of `len` bytes to alias comes to.
pub open spec fn spec_registration(len: nat) -> Registration {
    if 0 < len && fits_engine_length(len) {
        Registration::Register(len as i32)
    } else {
        Registration::Refused
    }
}

/// Decides what to ask of the engine for a buffer of `len` bytes to copy.
pub fn creation(len: usize) -> (request: Creation)
    ensures
        request == spec_creation(len as nat),
{
    if len == 0 {
        return Creation::Empty;
    }
    match checked_length(len) {
        Some(length) => Creation::Create(length),
        None => Creation::Refused,
    }
}

/// Decides what to ask of the engine for a buffer of `len` bytes to alias.
pub fn registration(len: usize) -> (request: Registration)
    ensures
        request == spec_registration(len as nat),
{
    if len == 0 {
        return Registration::Refused;
    }
    match checked_length(len) {
        Some(length) => Registration::Register(length),
        None => Registration::Refused,
    }
}

} // verus!
