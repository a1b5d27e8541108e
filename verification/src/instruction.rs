//! One instruction: an operation and its parameter.

use crate::opcode::OpCode;
use crate::word::{combine, encode, encode_spec, u24, RangeError};
use vstd::prelude::*;

verus! {

/// An operation together with its parameter. An operation that takes none
/// carries zero.
#[derive(Clone, Copy, Debug, PartialEq, Eq, Structural)]
pub struct Instruction {
    pub opcode: OpCode,
    pub parameter: i32,
}

impl Instruction {
    /// The instruction of an operation and a parameter.
    pub fn new(opcode: OpCode, parameter: i32) -> (instruction: Instruction)
        ensures
            instruction == (Instruction { opcode, parameter }),
    {
        Instruction { opcode, parameter }
    }

    /// The word that holds the instruction, if it fits in one.
    pub open spec fn word(self) -> Result<u24, RangeError> {
        encode_spec(self.opcode.code(), self.parameter)
    }

    /// Packs the instruction into a word.
    pub fn encode(&self) -> (r: Result<u24, RangeError>)
        ensures
            r == self.word(),
    {
        encode(self.opcode.code(), self.parameter)
    }
}

/// Merging a code whose low sixteen bits are clear with a parameter of at
/// most sixteen bits is adding the two.
proof fn lemma_combine_apart(code: u32, bits: u32)
    by (bit_vector)
    requires
        code % 0x1_0000 == 0,
        code <= 0xFF_0000,
        bits <= 0xFFFF,
    ensures
        code | bits == code + bits,
{
}

/// Merging a code with zero leaves the code, and shifting and masking it
/// gives its three bytes.
proof fn lemma_combine_zero(code: u32)
    by (bit_vector)
    requires
        code <= 0xFF_FFFF,
    ensures
        code | 0 == code,
        (code >> 16) == code / 0x1_0000,
        (code >> 8) & 0xFF == (code / 0x100) % 0x100,
        code & 0xFF == code % 0x100,
{
}

/// An operation that takes no parameter is encoded as the three bytes of
/// its code, most significant first; the parameter adds nothing.
pub proof fn lemma_parameterless_word(opcode: OpCode)
    requires
        !opcode.has_parameter(),
    ensures
        (Instruction { opcode, parameter: 0 }).word() == Ok::<u24, RangeError>(
            u24(
                [
                    (opcode.code() >> 16) as u8,
                    ((opcode.code() >> 8) & 0xFF) as u8,
                    (opcode.code() & 0xFF) as u8,
                ],
            ),
        ),
{
    let code = opcode.code();
    lemma_combine_zero(code);
    assert(0i32 as u32 == 0u32);
    assert(combine(code, 0) == code);
}

/// For an operation that takes a parameter, and a parameter of at most
/// sixteen bits, the word splits back into the two: its high bits are the
/// operation's code, its low sixteen bits the parameter.
pub proof fn lemma_fields_recovered(opcode: OpCode, parameter: i32)
    requires
        opcode.has_parameter(),
        0 <= parameter <= 0xFFFF,
    ensures
        (Instruction { opcode, parameter }).word() matches Ok(word) && word.high_bits()
            == opcode.code() && word.low_bits() == parameter,
{
    let code = opcode.code();
    let bits = parameter as u32;
    lemma_combine_apart(code, bits);
    u24::lemma_value_of(code + bits);
}

} // verus!
