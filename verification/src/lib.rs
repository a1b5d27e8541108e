//! A one-pass assembler for a machine with 24-bit instruction words.

pub mod assembler;
pub mod instruction;
pub mod number;
pub mod opcode;
pub mod text;
pub mod word;
