//! Strings of an embedded scripting engine, seen from the host.
//!
//! The host holds text as UTF-8 bytes with `usize` lengths. The engine holds
//! strings as UTF-16 code units, addressed with signed 32-bit lengths, in a
//! one-byte or a two-byte representation, and can alias a static buffer of
//! the host without copying it. This crate converts between the two and
//! binds every engine string it hands out to a handle scope.
//!
//! Every conversion is specified over plain sequences. The view of a string
//! is the sequence of its code units; [`code_units`] says how code units
//! read as UTF-8, [`decode`] how bytes read as code units, and [`laws`] what
//! follows for text that goes in and comes out again.

pub mod code_units;
pub mod decode;
mod encode;
pub mod engine;
pub mod laws;
pub mod length;
pub mod options;
pub mod request;
pub mod scope;
pub mod string;

pub use engine::{Isolate, Representation, String, MAX_STRING_LENGTH};
pub use length::{checked_length, saturating_length, MAX_ENGINE_LENGTH};
pub use options::{NewStringType, WriteOptions};
pub use scope::{HandleScope, Local};
