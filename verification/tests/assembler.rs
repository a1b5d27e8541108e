use minasm::assembler::{assemble, assemble_tokens, decode, encode_all, AssembleError};
use minasm::instruction::Instruction;
use minasm::opcode::OpCode;
use minasm::text::tokenize;
use minasm::word::RangeError;

fn instructions_of(source: &str) -> Vec<Instruction> {
    decode(&tokenize(source)).instructions
}

#[test]
fn two_instructions() {
    assert_eq!(assemble("LDC 5 HALT"), Ok(vec![0x00, 0x00, 0x05, 0x0F, 0x00, 0x00]));
    assert_eq!(
        instructions_of("LDC 5 HALT"),
        vec![Instruction::new(OpCode::LDC, 5), Instruction::new(OpCode::HALT, 0)]
    );
}

#[test]
fn empty_source_has_empty_object_code() {
    assert_eq!(assemble(""), Ok(vec![]));
    assert_eq!(assemble(" \n\t "), Ok(vec![]));
    assert_eq!(assemble("nothing here 12 0x4"), Ok(vec![]));
}

#[test]
fn every_operation_once() {
    let source = "LDC 1 LDV 2 STV 3 ADD 4 AND 5 OR 6 XOR 7 EQL 8 JMP 9 JMN 10 HALT NOT RAR";
    let expected = vec![
        0x00, 0x00, 0x01, //
        0x01, 0x00, 0x02, //
        0x02, 0x00, 0x03, //
        0x03, 0x00, 0x04, //
        0x04, 0x00, 0x05, //
        0x05, 0x00, 0x06, //
        0x06, 0x00, 0x07, //
        0x07, 0x00, 0x08, //
        0x08, 0x00, 0x09, //
        0x09, 0x00, 0x0A, //
        0x0F, 0x00, 0x00, //
        0x0F, 0x10, 0x00, //
        0x0F, 0x20, 0x00, //
    ];
    assert_eq!(assemble(source), Ok(expected));
}

#[test]
fn parameters_in_every_radix() {
    assert_eq!(
        assemble("LDC 0x1A\nADD 0b101\nSTV 42\n"),
        Ok(vec![0x00, 0x00, 0x1A, 0x03, 0x00, 0x05, 0x02, 0x00, 0x2A])
    );
}

#[test]
fn three_bytes_for_each_instruction_in_source_order() {
    let source = "LDV 0x0102 NOT JMP 0xFFFF stray RAR LDC 0";
    let found = instructions_of(source);
    let bytes = assemble(source).unwrap();
    assert_eq!(found.len(), 5);
    assert_eq!(bytes.len(), 3 * found.len());
    for (i, instruction) in found.iter().enumerate() {
        assert_eq!(bytes[3 * i..3 * i + 3], instruction.encode().unwrap().0);
    }
    assert_eq!(
        bytes,
        vec![
            0x01, 0x01, 0x02, 0x0F, 0x10, 0x00, 0x08, 0xFF, 0xFF, 0x0F, 0x20, 0x00, 0x00, 0x00,
            0x00
        ]
    );
}

#[test]
fn unknown_token_is_skipped() {
    assert_eq!(assemble("LDC 5 bogus HALT"), assemble("LDC 5 HALT"));
    assert_eq!(assemble("LDC 5 bogus HALT"), Ok(vec![0x00, 0x00, 0x05, 0x0F, 0x00, 0x00]));
    assert_eq!(assemble("NOT ldc 7 ; -- RAR"), assemble("NOT RAR"));
    assert_eq!(assemble("junk LDV 1"), assemble("LDV 1"));
    assert_eq!(assemble("LDV 1 junk"), assemble("LDV 1"));
}

#[test]
fn number_where_a_mnemonic_is_due_is_skipped() {
    assert_eq!(assemble("HALT 5 HALT"), Ok(vec![0x0F, 0x00, 0x00, 0x0F, 0x00, 0x00]));
    assert_eq!(assemble("7 LDC 5"), Ok(vec![0x00, 0x00, 0x05]));
}

#[test]
fn parameterless_operation_takes_no_token() {
    assert_eq!(
        instructions_of("HALT LDC 3"),
        vec![Instruction::new(OpCode::HALT, 0), Instruction::new(OpCode::LDC, 3)]
    );
    assert_eq!(
        instructions_of("NOT NOT RAR"),
        vec![
            Instruction::new(OpCode::NOT, 0),
            Instruction::new(OpCode::NOT, 0),
            Instruction::new(OpCode::RAR, 0)
        ]
    );
}

#[test]
fn parameter_that_is_no_number_counts_as_zero() {
    assert_eq!(assemble("LDV abc HALT"), Ok(vec![0x01, 0x00, 0x00, 0x0F, 0x00, 0x00]));
    assert_eq!(instructions_of("LDV abc"), vec![Instruction::new(OpCode::LDV, 0)]);
    assert_eq!(instructions_of("LDV 0x"), vec![Instruction::new(OpCode::LDV, 0)]);
    assert_eq!(instructions_of("LDV 99999999999"), vec![Instruction::new(OpCode::LDV, 0)]);
    assert_eq!(instructions_of("LDV a\u{E9}"), vec![Instruction::new(OpCode::LDV, 0)]);
}

#[test]
fn mnemonic_where_a_parameter_is_due_is_the_parameter() {
    // HALT is taken as the parameter of LDC, and is no number.
    assert_eq!(instructions_of("LDC HALT"), vec![Instruction::new(OpCode::LDC, 0)]);
    assert_eq!(assemble("LDC HALT"), Ok(vec![0x00, 0x00, 0x00]));
    assert_eq!(
        instructions_of("LDC LDV 5 HALT"),
        vec![Instruction::new(OpCode::LDC, 0), Instruction::new(OpCode::HALT, 0)]
    );
}

#[test]
fn missing_parameter_at_the_end() {
    assert_eq!(assemble("LDC 5 HALT LDV"), Err(AssembleError::MissingParameter));
    assert_eq!(assemble("LDV"), Err(AssembleError::MissingParameter));
    assert_eq!(assemble("LDV\n"), Err(AssembleError::MissingParameter));
    assert_eq!(assemble("JMN 1 JMN"), Err(AssembleError::MissingParameter));
    let listing = decode(&tokenize("LDC 5 HALT LDV"));
    assert!(listing.missing_parameter);
    assert_eq!(
        listing.instructions,
        vec![Instruction::new(OpCode::LDC, 5), Instruction::new(OpCode::HALT, 0)]
    );
}

#[test]
fn nothing_is_missing_behind_a_parameterless_operation() {
    assert!(!decode(&tokenize("LDC 5 HALT")).missing_parameter);
    assert!(!decode(&tokenize("")).missing_parameter);
    assert!(!decode(&tokenize("LDC LDV")).missing_parameter);
}

#[test]
fn parameter_beyond_24_bits_aborts() {
    assert_eq!(assemble("LDV 0x1000000"), Err(AssembleError::Range));
    assert_eq!(assemble("LDC 1 LDV 0x1000000 HALT"), Err(AssembleError::Range));
    assert_eq!(assemble("HALT LDC 2147483647"), Err(AssembleError::Range));
}

#[test]
fn negative_parameter_aborts() {
    assert_eq!(assemble("LDC -1"), Err(AssembleError::Range));
    assert_eq!(assemble("LDC 1 ADD -2147483648 HALT"), Err(AssembleError::Range));
}

#[test]
fn parameter_within_24_bits_merges_with_the_code() {
    // 0x10000 | 0x20000 fits: it is the word of ADD.
    assert_eq!(assemble("LDV 0x20000"), Ok(vec![0x03, 0x00, 0x00]));
    assert_eq!(assemble("LDV 0x20000"), assemble("ADD 0"));
    assert_eq!(assemble("LDC 0xFFFFFF"), Ok(vec![0xFF, 0xFF, 0xFF]));
}

#[test]
fn range_error_counts_before_missing_parameter() {
    assert_eq!(assemble("LDV 0x1000000 LDV"), Err(AssembleError::Range));
    assert_eq!(assemble("LDC -1 HALT JMP"), Err(AssembleError::Range));
}

#[test]
fn errors_have_messages() {
    assert_eq!(AssembleError::Range.message(), "Value out of range for U24");
    assert_eq!(AssembleError::MissingParameter.message(), "Missing parameter at end of input");
}

#[test]
fn encode_all_lays_words_out_in_order() {
    let program = [
        Instruction::new(OpCode::JMP, 0x0A0B),
        Instruction::new(OpCode::RAR, 0),
        Instruction::new(OpCode::EQL, 1),
    ];
    assert_eq!(
        encode_all(&program),
        Ok(vec![0x08, 0x0A, 0x0B, 0x0F, 0x20, 0x00, 0x07, 0x00, 0x01])
    );
    assert_eq!(encode_all(&[]), Ok(vec![]));
}

#[test]
fn encode_all_stops_at_an_instruction_that_does_not_fit() {
    let program =
        [Instruction::new(OpCode::JMP, 1), Instruction::new(OpCode::LDC, -1)];
    assert_eq!(encode_all(&program), Err(RangeError));
}

#[test]
fn assemble_tokens_reads_as_assemble() {
    for source in ["LDC 5 HALT", "", "LDV", "LDC -1", "x LDC 0b11 y NOT", "LDC\u{3000}7"] {
        assert_eq!(assemble_tokens(&tokenize(source)), assemble(source));
    }
}

#[test]
fn mnemonics_are_matched_exactly() {
    assert_eq!(assemble("ldc 5 halt"), Ok(vec![]));
    assert_eq!(assemble("LDC5"), Ok(vec![]));
    assert_eq!(assemble("HALT, NOT"), Ok(vec![0x0F, 0x10, 0x00]));
}
