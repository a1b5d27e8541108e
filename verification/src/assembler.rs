//! From tokens to object code: reading instructions off a token stream and
//! laying their words out one after another.

use crate::instruction::Instruction;
use crate::number::{number_value, parse_chars};
use crate::opcode::OpCode;
use crate::text::{tokenize, tokens};
use crate::word::RangeError;
use vstd::prelude::*;

verus! {

/// Why a source text has no object code.
#[derive(Clone, Copy, Debug, PartialEq, Eq, Structural)]
pub enum AssembleError {
    /// The text ends with an operation that takes a parameter.
    MissingParameter,
    /// An operation and its parameter do not fit in a word together.
    Range,
}

impl AssembleError {
    /// What went wrong, in words.
    pub fn message(&self) -> (text: &'static str)
        ensures
            text@ == match *self {
                AssembleError::MissingParameter => "Missing parameter at end of input"@,
                AssembleError::Range => "Value out of range for U24"@,
            },
    {
        match self {
            AssembleError::MissingParameter => "Missing parameter at end of input",
            AssembleError::Range => "Value out of range for U24",
        }
    }
}

/// The instructions of a token stream, and whether the stream broke off
/// where a parameter was due.
#[derive(Clone, Debug, PartialEq, Eq)]
pub struct Listing {
    pub instructions: Vec<Instruction>,
    pub missing_parameter: bool,
}

/// The parameter that a token gives: its number, or zero if it is none.
pub open spec fn parameter_value(token: Seq<char>) -> i32 {
    match number_value(token) {
        Some(v) => v as i32,
        None => 0,
    }
}

/// The instructions that a token stream holds, in order. A token that is
/// no mnemonic is passed over; the token behind a mnemonic that takes a
/// parameter is that parameter, whatever it looks like.
pub open spec fn instructions(tokens: Seq<Seq<char>>) -> Seq<Instruction>
    decreases tokens.len(),
{
    if tokens.len() == 0 {
        Seq::empty()
    } else {
        match OpCode::lookup(tokens[0]) {
            None => instructions(tokens.skip(1)),
            Some(opcode) => if !opcode.has_parameter() {
                seq![Instruction { opcode, parameter: 0 }] + instructions(tokens.skip(1))
            } else if tokens.len() >= 2 {
                seq![Instruction { opcode, parameter: parameter_value(tokens[1]) }] + instructions(
                    tokens.skip(2),
                )
            } else {
                Seq::empty()
            },
        }
    }
}

/// Whether a token stream ends with a mnemonic that takes a parameter,
/// read as a mnemonic.
pub open spec fn lacks_parameter(tokens: Seq<Seq<char>>) -> bool
    decreases tokens.len(),
{
    if tokens.len() == 0 {
        false
    } else {
        match OpCode::lookup(tokens[0]) {
            None => lacks_parameter(tokens.skip(1)),
            Some(opcode) => if !opcode.has_parameter() {
                lacks_parameter(tokens.skip(1))
            } else if tokens.len() >= 2 {
                lacks_parameter(tokens.skip(2))
            } else {
                true
            },
        }
    }
}

/// Whether every instruction fits in a word.
pub open spec fn all_encodable(instructions: Seq<Instruction>) -> bool {
    forall|i: int| 0 <= i < instructions.len() ==> (#[trigger] instructions[i]).word() is Ok
}

/// The object code of instructions that all fit: three bytes for each, in
/// order, the most significant byte of a word first.
pub open spec fn object_bytes(instructions: Seq<Instruction>) -> Seq<u8> {
    Seq::new(3 * instructions.len(), |k: int| instructions[k / 3].word()->Ok_0.0[k % 3])
}

/// What assembling a token stream gives: the object code of its
/// instructions, or the reason why there is none. An instruction that does
/// not fit counts before a parameter that is missing at the end.
pub open spec fn assembled(tokens: Seq<Seq<char>>) -> Result<Seq<u8>, AssembleError> {
    let instructions = instructions(tokens);
    if !all_encodable(instructions) {
        Err(AssembleError::Range)
    } else if lacks_parameter(tokens) {
        Err(AssembleError::MissingParameter)
    } else {
        Ok(object_bytes(instructions))
    }
}

/// A stream that ends between two instructions, followed by a second
/// stream, holds the instructions of the first and then those of the
/// second, and lacks a parameter exactly if the second does.
pub proof fn lemma_streams_joined(first: Seq<Seq<char>>, second: Seq<Seq<char>>)
    requires
        !lacks_parameter(first),
    ensures
        instructions(first + second) == instructions(first) + instructions(second),
        lacks_parameter(first + second) == lacks_parameter(second),
    decreases first.len(),
{
    let joined = first + second;
    if first.len() == 0 {
        assert(joined =~= second);
        assert(instructions(first) + instructions(second) =~= instructions(second));
    } else {
        assert(joined[0] == first[0]);
        let takes_two = OpCode::lookup(first[0]) matches Some(opcode) && opcode.has_parameter();
        if takes_two {
            assert(first.len() >= 2);
            assert(joined[1] == first[1]);
            assert(joined.skip(2) =~= first.skip(2) + second);
            lemma_streams_joined(first.skip(2), second);
            let head = seq![
                Instruction {
                    opcode: OpCode::lookup(first[0])->Some_0,
                    parameter: parameter_value(first[1]),
                },
            ];
            assert(head + (instructions(first.skip(2)) + instructions(second)) =~= (head
                + instructions(first.skip(2))) + instructions(second));
        } else {
            assert(joined.skip(1) =~= first.skip(1) + second);
            lemma_streams_joined(first.skip(1), second);
            if OpCode::lookup(first[0]) is Some {
                let head = seq![
                    Instruction { opcode: OpCode::lookup(first[0])->Some_0, parameter: 0 },
                ];
                assert(head + (instructions(first.skip(1)) + instructions(second)) =~= (head
                    + instructions(first.skip(1))) + instructions(second));
            }
        }
    }
}

/// A token that is no mnemonic, standing between two instructions, changes
/// nothing: the instructions and the object code are those of the stream
/// without it.
pub proof fn lemma_unknown_token_skipped(
    before: Seq<Seq<char>>,
    token: Seq<char>,
    after: Seq<Seq<char>>,
)
    requires
        !lacks_parameter(before),
        OpCode::lookup(token) is None,
    ensures
        instructions(before + seq![token] + after) == instructions(before + after),
        assembled(before + seq![token] + after) == assembled(before + after),
{
    let alone = seq![token];
    assert(alone[0] == token && alone.skip(1).len() == 0);
    assert(instructions(alone) == instructions(alone.skip(1)));
    assert(lacks_parameter(alone) == lacks_parameter(alone.skip(1)));
    lemma_streams_joined(before, alone);
    lemma_streams_joined(before + alone, after);
    lemma_streams_joined(before, after);
    assert(instructions(before) + instructions(alone) =~= instructions(before));
}

/// Object code holds three bytes for each instruction, and the bytes at
/// `3 * i` are the word of instruction `i`.
pub proof fn lemma_object_layout(tokens: Seq<Seq<char>>)
    requires
        assembled(tokens) is Ok,
    ensures
        assembled(tokens)->Ok_0.len() == 3 * instructions(tokens).len(),
        forall|i: int|
            0 <= i < instructions(tokens).len() ==> {
                &&& (#[trigger] instructions(tokens)[i]).word() is Ok
                &&& assembled(tokens)->Ok_0.subrange(3 * i, 3 * i + 3) == instructions(
                    tokens,
                )[i].word()->Ok_0.0@
            },
{
    let found = instructions(tokens);
    let bytes = assembled(tokens)->Ok_0;
    assert forall|i: int| 0 <= i < found.len() implies bytes.subrange(3 * i, 3 * i + 3)
        == (#[trigger] found[i]).word()->Ok_0.0@ by {
        let word = found[i].word()->Ok_0.0@;
        assert(word.len() == 3);
        assert forall|k: int| 0 <= k < 3 implies bytes.subrange(3 * i, 3 * i + 3)[k]
            == word[k] by {
            assert((3 * i + k) / 3 == i && (3 * i + k) % 3 == k);
        }
        assert(bytes.subrange(3 * i, 3 * i + 3) =~= word);
    }
}

/// One instruction that does not fit in a word leaves the whole stream
/// without object code.
pub proof fn lemma_out_of_range_aborts(tokens: Seq<Seq<char>>, i: int)
    requires
        0 <= i < instructions(tokens).len(),
        instructions(tokens)[i].word() is Err,
    ensures
        assembled(tokens) == Err::<Seq<u8>, AssembleError>(AssembleError::Range),
{
}

/// A stream whose instructions all fit, followed by a last mnemonic that
/// takes a parameter, has no object code: the parameter is missing.
pub proof fn lemma_trailing_mnemonic(before: Seq<Seq<char>>, opcode: OpCode)
    requires
        !lacks_parameter(before),
        all_encodable(instructions(before)),
        opcode.has_parameter(),
    ensures
        assembled(before + seq![opcode.mnemonic()]) == Err::<Seq<u8>, AssembleError>(
            AssembleError::MissingParameter,
        ),
{
    let last = seq![opcode.mnemonic()];
    OpCode::lemma_lookup_exact(opcode.mnemonic(), opcode);
    assert(last[0] == opcode.mnemonic() && last.len() == 1);
    assert(instructions(last) =~= Seq::<Instruction>::empty());
    assert(lacks_parameter(last));
    lemma_streams_joined(before, last);
    assert(instructions(before) + instructions(last) =~= instructions(before));
}

/// Reads the instructions off a token stream.
pub fn decode(tokens: &[Vec<char>]) -> (listing: Listing)
    ensures
        listing.instructions@ == instructions(tokens.deep_view()),
        listing.missing_parameter == lacks_parameter(tokens.deep_view()),
{
    let ghost stream = tokens.deep_view();
    let n = tokens.len();
    let mut found: Vec<Instruction> = Vec::new();
    let mut i: usize = 0;
    assert(stream.skip(0) =~= stream);
    while i < n
        invariant
            i <= n == tokens@.len(),
            stream == tokens.deep_view(),
            instructions(stream) == found@ + instructions(stream.skip(i as int)),
            lacks_parameter(stream) == lacks_parameter(stream.skip(i as int)),
        decreases n - i,
    {
        let ghost rest = stream.skip(i as int);
        assert(rest[0] == tokens@[i as int]@);
        assert(rest.skip(1) =~= stream.skip(i + 1));
        match OpCode::from_chars(tokens[i].as_slice()) {
            Err(_) => {
                i += 1;
            },
            Ok(opcode) => {
                if !opcode.has_parameter() {
                    found.push(Instruction::new(opcode, 0));
                    i += 1;
                } else if i + 1 < n {
                    assert(rest[1] == tokens@[i + 1]@);
                    assert(rest.skip(2) =~= stream.skip(i + 2));
                    let parameter: i32 = match parse_chars(tokens[i + 1].as_slice()) {
                        Ok(value) => value,
                        Err(_) => 0,
                    };
                    found.push(Instruction::new(opcode, parameter));
                    i += 2;
                } else {
                    assert(rest.len() == 1);
                    return Listing { instructions: found, missing_parameter: true };
                }
            },
        }
    }
    Listing { instructions: found, missing_parameter: false }
}

/// Lays the words of the instructions out one after another.
pub fn encode_all(instructions: &[Instruction]) -> (r: Result<Vec<u8>, RangeError>)
    ensures
        match r {
            Ok(bytes) => all_encodable(instructions@) && bytes@ == object_bytes(instructions@),
            Err(_) => !all_encodable(instructions@),
        },
{
    let n = instructions.len();
    let mut bytes: Vec<u8> = Vec::new();
    let mut i: usize = 0;
    while i < n
        invariant
            i <= n == instructions@.len(),
            all_encodable(instructions@.take(i as int)),
            bytes@ == object_bytes(instructions@.take(i as int)),
        decreases n - i,
    {
        let ghost done = instructions@.take(i as int);
        let ghost next = instructions@.take(i + 1);
        match instructions[i].encode() {
            Err(e) => {
                return Err(e);
            },
            Ok(word) => {
                bytes.push(word.0[0]);
                bytes.push(word.0[1]);
                bytes.push(word.0[2]);
                assert(all_encodable(next)) by {
                    assert forall|k: int| 0 <= k < next.len() implies (#[trigger] next[k]).word() is Ok by {
                        if k < i {
                            assert(done[k] == next[k]);
                        }
                    }
                }
                assert(bytes@ =~= object_bytes(next)) by {
                    assert forall|k: int| 0 <= k < 3 * i implies object_bytes(done)[k] == object_bytes(next)[k] by {
                        assert(done[k / 3] == next[k / 3]);
                    }
                }
            },
        }
        i += 1;
    }
    assert(instructions@.take(n as int) =~= instructions@);
    Ok(bytes)
}

/// Assembles a token stream.
pub fn assemble_tokens(tokens: &[Vec<char>]) -> (r: Result<Vec<u8>, AssembleError>)
    ensures
        match r {
            Ok(bytes) => assembled(tokens.deep_view()) == Ok::<Seq<u8>, AssembleError>(bytes@),
            Err(e) => assembled(tokens.deep_view()) == Err::<Seq<u8>, AssembleError>(e),
        },
{
    let listing = decode(tokens);
    match encode_all(listing.instructions.as_slice()) {
        Err(_) => Err(AssembleError::Range),
        Ok(bytes) => if listing.missing_parameter {
            Err(AssembleError::MissingParameter)
        } else {
            Ok(bytes)
        },
    }
}

/// Assembles source text: tokens between whitespace, each mnemonic with
/// the parameter it takes, three bytes of object code for each
/// instruction.
///
/// There is no object code at all if an instruction does not fit in a
/// word, or if the text ends where a parameter is due.
pub fn assemble(source: &str) -> (r: Result<Vec<u8>, AssembleError>)
    ensures
        match r {
            Ok(bytes) => assembled(tokens(source@)) == Ok::<Seq<u8>, AssembleError>(bytes@),
            Err(e) => assembled(tokens(source@)) == Err::<Seq<u8>, AssembleError>(e),
        },
{
    let stream = tokenize(source);
    assemble_tokens(stream.as_slice())
}

} // verus!
