//! The instruction set: mnemonics, their numeric codes, and which of them
//! are followed by a parameter.

use crate::text::chars_of;
use vstd::prelude::*;

verus! {

/// A name that stands for no operation.
#[derive(Clone, Copy, Debug, PartialEq, Eq)]
pub struct UnknownMnemonicError;

/// An operation of the machine.
#[derive(Clone, Copy, Debug, PartialEq, Eq, Structural)]
pub enum OpCode {
    LDC,
    LDV,
    STV,
    ADD,
    AND,
    OR,
    XOR,
    EQL,
    JMP,
    JMN,
    HALT,
    NOT,
    RAR,
}

impl OpCode {
    /// The numeric code of the operation, already shifted into its place in
    /// the instruction word.
    pub open spec fn code_spec(self) -> u32 {
        match self {
            OpCode::LDC => 0x00000,
            OpCode::LDV => 0x10000,
            OpCode::STV => 0x20000,
            OpCode::ADD => 0x30000,
            OpCode::AND => 0x40000,
            OpCode::OR => 0x50000,
            OpCode::XOR => 0x60000,
            OpCode::EQL => 0x70000,
            OpCode::JMP => 0x80000,
            OpCode::JMN => 0x90000,
            OpCode::HALT => 0xF0000,
            OpCode::NOT => 0xF1000,
            OpCode::RAR => 0xF2000,
        }
    }

    /// Whether the operation is followed by a parameter: all are, except
    /// `HALT`, `NOT` and `RAR`.
    pub open spec fn has_parameter_spec(self) -> bool {
        !(self is HALT || self is NOT || self is RAR)
    }

    /// The name by which the operation is written.
    pub open spec fn mnemonic(self) -> Seq<char> {
        match self {
            OpCode::LDC => seq!['L', 'D', 'C'],
            OpCode::LDV => seq!['L', 'D', 'V'],
            OpCode::STV => seq!['S', 'T', 'V'],
            OpCode::ADD => seq!['A', 'D', 'D'],
            OpCode::AND => seq!['A', 'N', 'D'],
            OpCode::OR => seq!['O', 'R'],
            OpCode::XOR => seq!['X', 'O', 'R'],
            OpCode::EQL => seq!['E', 'Q', 'L'],
            OpCode::JMP => seq!['J', 'M', 'P'],
            OpCode::JMN => seq!['J', 'M', 'N'],
            OpCode::HALT => seq!['H', 'A', 'L', 'T'],
            OpCode::NOT => seq!['N', 'O', 'T'],
            OpCode::RAR => seq!['R', 'A', 'R'],
        }
    }

    /// The operation that `name` stands for, if any: the one whose mnemonic
    /// is `name`, letter for letter.
    pub open spec fn lookup(name: Seq<char>) -> Option<OpCode> {
        if name == OpCode::LDC.mnemonic() {
            Some(OpCode::LDC)
        } else if name == OpCode::LDV.mnemonic() {
            Some(OpCode::LDV)
        } else if name == OpCode::STV.mnemonic() {
            Some(OpCode::STV)
        } else if name == OpCode::ADD.mnemonic() {
            Some(OpCode::ADD)
        } else if name == OpCode::AND.mnemonic() {
            Some(OpCode::AND)
        } else if name == OpCode::OR.mnemonic() {
            Some(OpCode::OR)
        } else if name == OpCode::XOR.mnemonic() {
            Some(OpCode::XOR)
        } else if name == OpCode::EQL.mnemonic() {
            Some(OpCode::EQL)
        } else if name == OpCode::JMP.mnemonic() {
            Some(OpCode::JMP)
        } else if name == OpCode::JMN.mnemonic() {
            Some(OpCode::JMN)
        } else if name == OpCode::HALT.mnemonic() {
            Some(OpCode::HALT)
        } else if name == OpCode::NOT.mnemonic() {
            Some(OpCode::NOT)
        } else if name == OpCode::RAR.mnemonic() {
            Some(OpCode::RAR)
        } else {
            None
        }
    }

    /// No two operations share a mnemonic, so a name stands for an
    /// operation exactly when it is that operation's mnemonic.
    pub proof fn lemma_lookup_exact(name: Seq<char>, op: OpCode)
        ensures
            OpCode::lookup(name) == Some(op) <==> name == op.mnemonic(),
    {
        let m = op.mnemonic();
        assert(m.len() >= 2);
        if name == m {
            assert(name[0] == m[0] && name[1] == m[1]);
            if m.len() >= 3 {
                assert(name[2] == m[2]);
            }
        }
    }

    /// Resolves a name, given as characters.
    pub fn from_chars(name: &[char]) -> (r: Result<OpCode, UnknownMnemonicError>)
        ensures
            r == match OpCode::lookup(name@) {
                Some(op) => Ok::<OpCode, UnknownMnemonicError>(op),
                None => Err(UnknownMnemonicError),
            },
    {
        let found = match name.len() {
            2 => match (name[0], name[1]) {
                ('O', 'R') => Some(OpCode::OR),
                _ => None,
            },
            3 => match (name[0], name[1], name[2]) {
                ('L', 'D', 'C') => Some(OpCode::LDC),
                ('L', 'D', 'V') => Some(OpCode::LDV),
                ('S', 'T', 'V') => Some(OpCode::STV),
                ('A', 'D', 'D') => Some(OpCode::ADD),
                ('A', 'N', 'D') => Some(OpCode::AND),
                ('X', 'O', 'R') => Some(OpCode::XOR),
                ('E', 'Q', 'L') => Some(OpCode::EQL),
                ('J', 'M', 'P') => Some(OpCode::JMP),
                ('J', 'M', 'N') => Some(OpCode::JMN),
                ('N', 'O', 'T') => Some(OpCode::NOT),
                ('R', 'A', 'R') => Some(OpCode::RAR),
                _ => None,
            },
            4 => match (name[0], name[1], name[2], name[3]) {
                ('H', 'A', 'L', 'T') => Some(OpCode::HALT),
                _ => None,
            },
            _ => None,
        };
        match found {
            Some(op) => {
                assert(name@ =~= op.mnemonic());
                proof {
                    OpCode::lemma_lookup_exact(name@, op);
                }
                Ok(op)
            },
            None => {
                assert forall|op: OpCode| name@ != #[trigger] op.mnemonic() by {
                    let m = op.mnemonic();
                    if name@ == m {
                        assert(name@[0] == m[0] && name@[1] == m[1]);
                        if m.len() >= 3 {
                            assert(name@[2] == m[2]);
                        }
                        if m.len() >= 4 {
                            assert(name@[3] == m[3]);
                        }
                    }
                }
                Err(UnknownMnemonicError)
            },
        }
    }

    /// Resolves a name. The match is exact and distinguishes upper from
    /// lower case.
    pub fn from_str(name: &str) -> (r: Result<OpCode, UnknownMnemonicError>)
        ensures
            r == match OpCode::lookup(name@) {
                Some(op) => Ok::<OpCode, UnknownMnemonicError>(op),
                None => Err(UnknownMnemonicError),
            },
    {
        let chars = chars_of(name);
        OpCode::from_chars(chars.as_slice())
    }

    /// The numeric code of the operation.
    #[verifier::when_used_as_spec(code_spec)]
    pub fn code(self) -> (c: u32)
        ensures
            c == self.code_spec(),
    {
        match self {
            OpCode::LDC => 0x00000,
            OpCode::LDV => 0x10000,
            OpCode::STV => 0x20000,
            OpCode::ADD => 0x30000,
            OpCode::AND => 0x40000,
            OpCode::OR => 0x50000,
            OpCode::XOR => 0x60000,
            OpCode::EQL => 0x70000,
            OpCode::JMP => 0x80000,
            OpCode::JMN => 0x90000,
            OpCode::HALT => 0xF0000,
            OpCode::NOT => 0xF1000,
            OpCode::RAR => 0xF2000,
        }
    }

    /// Whether the operation is followed by a parameter.
    #[verifier::when_used_as_spec(has_parameter_spec)]
    pub fn has_parameter(self) -> (b: bool)
        ensures
            b == self.has_parameter_spec(),
    {
        match self {
            OpCode::HALT | OpCode::NOT | OpCode::RAR => false,
            _ => true,
        }
    }
}

} // verus!
