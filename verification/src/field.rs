//! The capability of a field's value type: to turn into the bits that the
//! register stores, and back.

use vstd::prelude::*;

verus! {

/// A type whose values a register field can hold.
///
/// A value stands for one code, an unsigned bit pattern. A code stands for at
/// most one value; a code that stands for none is undeclared, and decoding it
/// is a fault of the caller.
pub trait RegisterField: Sized {
    /// The code of a value.
    open spec fn code(self) -> u32 {
        arbitrary()
    }

    /// The value that a code stands for, where it stands for one.
    open spec fn decoded(value: u32) -> Option<Self> {
        arbitrary()
    }

    /// Encodes a value.
    fn into_bits(self) -> (bits: u32)
        ensures
            bits == self.code(),
    ;

    /// Decodes a declared code.
    fn from_bits(value: u32) -> (state: Self)
        requires
            Self::decoded(value) is Some,
        ensures
            Self::decoded(value) == Some(state),
    ;
}

impl RegisterField for bool {
    open spec fn code(self) -> u32 {
        if self { 1 } else { 0 }
    }

    open spec fn decoded(value: u32) -> Option<bool> {
        Some(value != 0)
    }

    fn into_bits(self) -> (bits: u32) {
        if self { 1 } else { 0 }
    }

    fn from_bits(value: u32) -> (state: bool) {
        value != 0
    }
}

impl RegisterField for u8 {
    open spec fn code(self) -> u32 {
        self as u32
    }

    open spec fn decoded(value: u32) -> Option<u8> {
        Some((value & 0xff) as u8)
    }

    fn into_bits(self) -> (bits: u32) {
        self as u32
    }

    fn from_bits(value: u32) -> (state: u8) {
        assert(value & 0xff <= 0xff) by (bit_vector);
        (value & 0xff) as u8
    }
}

impl RegisterField for u16 {
    open spec fn code(self) -> u32 {
        self as u32
    }

    open spec fn decoded(value: u32) -> Option<u16> {
        Some((value & 0xffff) as u16)
    }

    fn into_bits(self) -> (bits: u32) {
        self as u32
    }

    fn from_bits(value: u32) -> (state: u16) {
        assert(value & 0xffff <= 0xffff) by (bit_vector);
        (value & 0xffff) as u16
    }
}

impl RegisterField for u32 {
    open spec fn code(self) -> u32 {
        self
    }

    open spec fn decoded(value: u32) -> Option<u32> {
        Some(value)
    }

    fn into_bits(self) -> (bits: u32) {
        self
    }

    fn from_bits(value: u32) -> (state: u32) {
        value
    }
}

/// Whether `value` comes back from its own code.
pub open spec fn round_trips<T: RegisterField>(value: T) -> bool {
    T::decoded(value.code()) == Some(value)
}

/// Round trip: a boolean comes back from its code.
pub proof fn law_bool_round_trip(value: bool)
    ensures
        round_trips(value),
{
}

/// Round trip: an unsigned integer of 8 bits comes back from its code.
pub proof fn law_u8_round_trip(value: u8)
    ensures
        round_trips(value),
{
    let code = value as u32;
    assert(code & 0xff == code) by (bit_vector)
        requires
            code <= 0xff,
    ;
}

/// Round trip: an unsigned integer of 16 bits comes back from its code.
pub proof fn law_u16_round_trip(value: u16)
    ensures
        round_trips(value),
{
    let code = value as u32;
    assert(code & 0xffff == code) by (bit_vector)
        requires
            code <= 0xffff,
    ;
}

/// Round trip: an unsigned integer of 32 bits comes back from its code.
pub proof fn law_u32_round_trip(value: u32)
    ensures
        round_trips(value),
{
}

/// Injectivity: two values that come back from their codes and have the same
/// code are the same value.
pub proof fn law_codes_distinct<T: RegisterField>(a: T, b: T)
    requires
        round_trips(a),
        round_trips(b),
        a.code() == b.code(),
    ensures
        a == b,
{
}

} // verus!
