//! The length guard: host lengths are `usize`, engine lengths are `i32`.
//!
//! A length that names how much text there is must fit or the operation is
//! refused. A length that only bounds how much may be written is clamped.

use vstd::prelude::*;

verus! {

/// The largest length the engine can address.
pub const MAX_ENGINE_LENGTH: i32 = 0x7fff_ffff;

/// Whether a host length can be handed to the engine as it is.
pub open spec fn fits_engine_length(len: nat) -> bool {
    len <= MAX_ENGINE_LENGTH
}

/// The capacity the engine is given for an output buffer of `len` bytes.
pub open spec fn write_capacity(len: nat) -> int {
    if len <= MAX_ENGINE_LENGTH {
        len as int
    } else {
        MAX_ENGINE_LENGTH as int
    }
}

/// Re-types a host length as an engine length, or refuses it when it does
/// not fit. Nothing is truncated and nothing wraps.
pub fn checked_length(len: usize) -> (r: Option<i32>)
    ensures
        fits_engine_length(len as nat) ==> r == Some(len as i32),
        !fits_engine_length(len as nat) ==> r is None,
{
    if len <= MAX_ENGINE_LENGTH as usize {
        Some(len as i32)
    } else {
        None
    }
}

/// Re-types the size of an output buffer as an engine length, clamped to the
/// largest one: a buffer beyond that is simply not used to its end.
pub fn saturating_length(len: usize) -> (r: i32)
    ensures
        r == write_capacity(len as nat),
{
    match checked_length(len) {
        Some(n) => n,
        None => MAX_ENGINE_LENGTH,
    }
}

} // verus!
