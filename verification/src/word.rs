//! The 24-bit instruction word and how an operation code and a parameter
//! are packed into it.

use vstd::prelude::*;
use vstd::std_specs::convert::TryFromSpecImpl;

verus! {

/// The largest value that fits in a word.
pub const WORD_MAX: u32 = 0xFF_FFFF;

/// A value that does not fit in 24 bits.
#[derive(Clone, Copy, Debug, PartialEq, Eq)]
pub struct RangeError;

impl RangeError {
    /// What went wrong, in words.
    pub fn message(&self) -> (text: &'static str)
        ensures
            text@ == "Value out of range for U24"@,
    {
        "Value out of range for U24"
    }
}

/// An unsigned 24-bit word, held as three bytes, most significant first.
#[allow(non_camel_case_types)]
#[derive(Clone, Copy, Debug, PartialEq, Eq)]
pub struct u24(pub [u8; 3]);

impl u24 {
    /// The number that the three bytes stand for.
    pub open spec fn value(self) -> int {
        self.0[0] * 0x1_0000 + self.0[1] * 0x100 + self.0[2]
    }

    /// The word that stands for `value`.
    pub open spec fn of(value: int) -> u24
        recommends
            0 <= value <= WORD_MAX,
    {
        u24([(value / 0x1_0000) as u8, (value / 0x100 % 0x100) as u8, (value % 0x100) as u8])
    }

    /// The part of the word above its low sixteen bits, left in place.
    pub open spec fn high_bits(self) -> int {
        self.value() / 0x1_0000 * 0x1_0000
    }

    /// The low sixteen bits of the word.
    pub open spec fn low_bits(self) -> int {
        self.value() % 0x1_0000
    }

    /// The word for a value stands for that value.
    pub proof fn lemma_value_of(value: int)
        requires
            0 <= value <= WORD_MAX,
        ensures
            u24::of(value).value() == value,
    {
    }
}

impl TryFrom<i32> for u24 {
    type Error = RangeError;

    /// The word for `value`, or an error if `value` is negative or above
    /// `WORD_MAX`.
    fn try_from(value: i32) -> (r: Result<u24, RangeError>)
        ensures
            r == if 0 <= value <= WORD_MAX {
                Ok::<u24, RangeError>(u24::of(value as int))
            } else {
                Err(RangeError)
            },
    {
        if value >= 0 && value <= 0xFF_FFFF {
            let bits: u32 = value as u32;
            proof {
                lemma_split(bits);
            }
            let high: u8 = ((bits >> 16) & 0xFF) as u8;
            let middle: u8 = ((bits >> 8) & 0xFF) as u8;
            let low: u8 = (bits & 0xFF) as u8;
            Ok(u24([high, middle, low]))
        } else {
            Err(RangeError)
        }
    }
}

impl TryFromSpecImpl<i32> for u24 {
    open spec fn obeys_try_from_spec() -> bool {
        true
    }

    open spec fn try_from_spec(value: i32) -> Result<u24, RangeError> {
        if 0 <= value <= WORD_MAX {
            Ok(u24::of(value as int))
        } else {
            Err(RangeError)
        }
    }
}

/// Shifting and masking a value of at most 24 bits gives its three bytes.
proof fn lemma_split(value: u32)
    by (bit_vector)
    requires
        value <= 0xFF_FFFF,
    ensures
        (value >> 16) & 0xFF == value / 0x1_0000,
        (value >> 8) & 0xFF == (value / 0x100) % 0x100,
        value & 0xFF == value % 0x100,
        (value >> 16) & 0xFF < 0x100,
        (value >> 8) & 0xFF < 0x100,
        value & 0xFF < 0x100,
{
}

/// The operation code and the parameter's bit pattern, merged bit by bit.
pub open spec fn combine(opcode_value: u32, parameter: i32) -> u32 {
    opcode_value | (parameter as u32)
}

/// The word for an operation code and a parameter: their bitwise merge,
/// where that fits in 24 bits.
pub open spec fn encode_spec(opcode_value: u32, parameter: i32) -> Result<u24, RangeError> {
    let combined = combine(opcode_value, parameter);
    if combined <= WORD_MAX {
        Ok(u24::of(combined as int))
    } else {
        Err(RangeError)
    }
}

/// Packs an operation code and a parameter into a word.
///
/// The two are merged with a bitwise or, the parameter taken as its
/// 32-bit pattern, so a negative parameter never fits. Nothing keeps the
/// parameter's bits away from those of the operation code.
pub fn encode(opcode_value: u32, parameter: i32) -> (r: Result<u24, RangeError>)
    ensures
        r == encode_spec(opcode_value, parameter),
{
    let combined: u32 = opcode_value | (parameter as u32);
    if combined <= WORD_MAX {
        u24::try_from(combined as i32)
    } else {
        Err(RangeError)
    }
}

} // verus!
