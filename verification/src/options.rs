//! The two small option types that cross into the engine.

use vstd::prelude::*;

verus! {

/// How the engine is asked to create a string.
#[derive(Clone, Copy, Debug, PartialEq, Eq, Structural)]
pub enum NewStringType {
    /// An ordinary string.
    Normal,
    /// A string that the engine may share through its interning table.
    Internalized,
}

impl NewStringType {
    /// The integer by which the engine knows this kind.
    pub open spec fn spec_raw(self) -> i32 {
        match self {
            NewStringType::Normal => 0,
            NewStringType::Internalized => 1,
        }
    }

    /// The integer by which the engine knows this kind.
    pub fn raw(self) -> (tag: i32)
        ensures
            tag == self.spec_raw(),
    {
        match self {
            NewStringType::Normal => 0,
            NewStringType::Internalized => 1,
        }
    }
}

impl Default for NewStringType {
    fn default() -> (kind: NewStringType)
        ensures
            kind == NewStringType::Normal,
    {
        NewStringType::Normal
    }
}

/// A set of independent flags for writing a string out as UTF-8.
///
/// The flags combine freely with [`WriteOptions::union`] or `|`; none
/// excludes another.
#[derive(Clone, Copy, Debug, PartialEq, Eq, Structural)]
pub struct WriteOptions {
    /// Many writes of the same string are expected.
    pub hint_many_writes_expected: bool,
    /// No zero byte is written after the text.
    pub no_null_termination: bool,
    /// A zero code unit in a one-byte string is kept as it is.
    pub preserve_one_byte_null: bool,
    /// An unpaired surrogate is written as U+FFFD, so that the output is
    /// valid UTF-8.
    pub replace_invalid_utf8: bool,
}

/// Bit of [`WriteOptions::hint_many_writes_expected`].
pub const HINT_MANY_WRITES_EXPECTED: i32 = 1;

/// Bit of [`WriteOptions::no_null_termination`].
pub const NO_NULL_TERMINATION: i32 = 2;

/// Bit of [`WriteOptions::preserve_one_byte_null`].
pub const PRESERVE_ONE_BYTE_NULL: i32 = 4;

/// Bit of [`WriteOptions::replace_invalid_utf8`].
pub const REPLACE_INVALID_UTF8: i32 = 8;

/// The value of a flag's bit when the flag is set.
pub open spec fn bit_value(set: bool, bit: i32) -> int {
    if set {
        bit as int
    } else {
        0
    }
}

impl WriteOptions {
    /// The bitmask by which the engine knows these options: the sum of the
    /// bits of the flags that are set.
    pub open spec fn spec_bits(self) -> int {
        bit_value(self.hint_many_writes_expected, HINT_MANY_WRITES_EXPECTED) + bit_value(
            self.no_null_termination,
            NO_NULL_TERMINATION,
        ) + bit_value(self.preserve_one_byte_null, PRESERVE_ONE_BYTE_NULL) + bit_value(
            self.replace_invalid_utf8,
            REPLACE_INVALID_UTF8,
        )
    }

    /// The options in which a flag is set when it is set in `self` or in
    /// `other`.
    pub open spec fn spec_union(self, other: WriteOptions) -> WriteOptions {
        WriteOptions {
            hint_many_writes_expected: self.hint_many_writes_expected
                || other.hint_many_writes_expected,
            no_null_termination: self.no_null_termination || other.no_null_termination,
            preserve_one_byte_null: self.preserve_one_byte_null || other.preserve_one_byte_null,
            replace_invalid_utf8: self.replace_invalid_utf8 || other.replace_invalid_utf8,
        }
    }

    /// Whether every flag that is set in `other` is set in `self`.
    pub open spec fn spec_contains(self, other: WriteOptions) -> bool {
        &&& other.hint_many_writes_expected ==> self.hint_many_writes_expected
        &&& other.no_null_termination ==> self.no_null_termination
        &&& other.preserve_one_byte_null ==> self.preserve_one_byte_null
        &&& other.replace_invalid_utf8 ==> self.replace_invalid_utf8
    }

    /// No flag set.
    pub fn no_options() -> (o: WriteOptions)
        ensures
            o == (WriteOptions {
                hint_many_writes_expected: false,
                no_null_termination: false,
                preserve_one_byte_null: false,
                replace_invalid_utf8: false,
            }),
    {
        WriteOptions {
            hint_many_writes_expected: false,
            no_null_termination: false,
            preserve_one_byte_null: false,
            replace_invalid_utf8: false,
        }
    }

    /// Only `hint_many_writes_expected` set.
    pub fn hint_many_writes_expected() -> (o: WriteOptions)
        ensures
            o == (WriteOptions {
                hint_many_writes_expected: true,
                no_null_termination: false,
                preserve_one_byte_null: false,
                replace_invalid_utf8: false,
            }),
    {
        WriteOptions {
            hint_many_writes_expected: true,
            no_null_termination: false,
            preserve_one_byte_null: false,
            replace_invalid_utf8: false,
        }
    }

    /// Only `no_null_termination` set.
    pub fn no_null_termination() -> (o: WriteOptions)
        ensures
            o == (WriteOptions {
                hint_many_writes_expected: false,
                no_null_termination: true,
                preserve_one_byte_null: false,
                replace_invalid_utf8: false,
            }),
    {
        WriteOptions {
            hint_many_writes_expected: false,
            no_null_termination: true,
            preserve_one_byte_null: false,
            replace_invalid_utf8: false,
        }
    }

    /// Only `preserve_one_byte_null` set.
    pub fn preserve_one_byte_null() -> (o: WriteOptions)
        ensures
            o == (WriteOptions {
                hint_many_writes_expected: false,
                no_null_termination: false,
                preserve_one_byte_null: true,
                replace_invalid_utf8: false,
            }),
    {
        WriteOptions {
            hint_many_writes_expected: false,
            no_null_termination: false,
            preserve_one_byte_null: true,
            replace_invalid_utf8: false,
        }
    }

    /// Only `replace_invalid_utf8` set.
    pub fn replace_invalid_utf8() -> (o: WriteOptions)
        ensures
            o == (WriteOptions {
                hint_many_writes_expected: false,
                no_null_termination: false,
                preserve_one_byte_null: false,
                replace_invalid_utf8: true,
            }),
    {
        WriteOptions {
            hint_many_writes_expected: false,
            no_null_termination: false,
            preserve_one_byte_null: false,
            replace_invalid_utf8: true,
        }
    }

    /// The options with the flags of both.
    pub fn union(self, other: WriteOptions) -> (o: WriteOptions)
        ensures
            o == self.spec_union(other),
    {
        WriteOptions {
            hint_many_writes_expected: self.hint_many_writes_expected
                || other.hint_many_writes_expected,
            no_null_termination: self.no_null_termination || other.no_null_termination,
            preserve_one_byte_null: self.preserve_one_byte_null || other.preserve_one_byte_null,
            replace_invalid_utf8: self.replace_invalid_utf8 || other.replace_invalid_utf8,
        }
    }

    /// Whether every flag of `other` is set here.
    pub fn contains(&self, other: WriteOptions) -> (b: bool)
        ensures
            b == self.spec_contains(other),
    {
        (!other.hint_many_writes_expected || self.hint_many_writes_expected) && (
        !other.no_null_termination || self.no_null_termination) && (!other.preserve_one_byte_null
            || self.preserve_one_byte_null) && (!other.replace_invalid_utf8
            || self.replace_invalid_utf8)
    }

    /// The bitmask by which the engine knows these options.
    pub fn bits(&self) -> (mask: i32)
        ensures
            mask == self.spec_bits(),
            0 <= mask <= 15,
    {
        let mut mask: i32 = 0;
        if self.hint_many_writes_expected {
            mask = mask + HINT_MANY_WRITES_EXPECTED;
        }
        if self.no_null_termination {
            mask = mask + NO_NULL_TERMINATION;
        }
        if self.preserve_one_byte_null {
            mask = mask + PRESERVE_ONE_BYTE_NULL;
        }
        if self.replace_invalid_utf8 {
            mask = mask + REPLACE_INVALID_UTF8;
        }
        mask
    }

    /// The options that a bitmask stands for, if it names no bit but the
    /// four.
    pub fn from_bits(mask: i32) -> (o: Option<WriteOptions>)
        ensures
            o is Some <==> 0 <= mask <= 15,
            o matches Some(w) ==> w.spec_bits() == mask,
    {
        if mask < 0 || mask > 15 {
            return None;
        }
        let w = WriteOptions {
            hint_many_writes_expected: mask % 2 == 1,
            no_null_termination: (mask / 2) % 2 == 1,
            preserve_one_byte_null: (mask / 4) % 2 == 1,
            replace_invalid_utf8: mask / 8 == 1,
        };
        Some(w)
    }
}

impl Default for WriteOptions {
    fn default() -> (o: WriteOptions)
        ensures
            o == (WriteOptions {
                hint_many_writes_expected: false,
                no_null_termination: false,
                preserve_one_byte_null: false,
                replace_invalid_utf8: false,
            }),
    {
        WriteOptions::no_options()
    }
}

impl std::ops::BitOr for WriteOptions {
    type Output = WriteOptions;

    fn bitor(self, other: WriteOptions) -> (o: WriteOptions) {
        self.union(other)
    }
}

impl vstd::std_specs::ops::BitOrSpecImpl for WriteOptions {
    open spec fn obeys_bitor_spec() -> bool {
        true
    }

    open spec fn bitor_req(self, other: WriteOptions) -> bool {
        true
    }

    open spec fn bitor_spec(self, other: WriteOptions) -> WriteOptions {
        self.spec_union(other)
    }
}

} // verus!
