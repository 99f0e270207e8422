use tinyvm::instruction_table::InstructionTable;
use tinyvm::opcode::Opcode;
use tinyvm::reader::AsmErrorKind;
use tinyvm::reader::ParsedLine;
use tinyvm::reader::assemble;
use tinyvm::reader::parse_chunk;
use tinyvm::reader::parse_line;
use tinyvm::reader::split_lines;
use tinyvm::reader::split_words;
use tinyvm::value::Value;

#[test]
fn test_split_word() {
    let line = "LOAD 0 1";
    let words = split_words(line);
    assert_eq!(words, vec!["LOAD", "0", "1"]);
}

#[test]
fn test_split_line() {
    let line = "LOAD 0 1\nADD 0 1\nHALT\n";
    let words = split_words(line);
    assert_eq!(words, vec!["LOAD", "0", "1", "ADD", "0", "1", "HALT"]);
}

#[test]
fn test_split_lines_keeps_trailing_empty() {
    assert_eq!(split_lines("A\nB\n"), vec!["A", "B", ""]);
    assert_eq!(split_lines(""), vec![""]);
    assert_eq!(split_lines("A"), vec!["A"]);
}

#[test]
fn test_parse_line() {
    let table = InstructionTable::default();
    let line = "LOAD 0 1";
    let parsed = parse_line(line, 0, &table).unwrap();
    match parsed {
        ParsedLine::Instr { opcode, operands } => {
            assert_eq!(opcode, Opcode::Load.code());
            assert_eq!(operands.len(), 2);
        }
        _ => panic!("expected an instruction line"),
    }
}

#[test]
fn test_parse_const_line() {
    let table = InstructionTable::default();
    let line = "CONST 0";
    let parsed = parse_line(line, 0, &table).unwrap();
    match parsed {
        ParsedLine::Const(v) => assert_eq!(v, Value::I8(0i8)),
        _ => panic!("expected a constant line"),
    }
}

#[test]
fn test_assemble() {
    let table = InstructionTable::default();
    let src = "LOAD 0 1";
    let code = assemble(src, &table).unwrap();
    assert_eq!(code.raw, vec![Opcode::Load.code(), 0, 1]);
}

#[test]
fn test_assemble2() {
    let table = InstructionTable::default();
    let src = "CONST 0\nCONST 1\nLOAD 0 1\nCONST 2\n";
    let code = assemble(src, &table).unwrap();
    assert_eq!(code.const_pool, vec![Value::I8(0i8), Value::I8(1i8), Value::I8(2i8)]);
}

#[test]
fn test_assemble3() {
    let table = InstructionTable::default();
    let src = "CONST 0\nLOAD 0 1\nHALT\n";
    let code = assemble(src, &table).unwrap();
    assert_eq!(code.raw, vec![Opcode::Load.code(), 0, 1, Opcode::Halt.code()]);
}

#[test]
fn test_assemble_blank_interior_line_emits_halt() {
    let table = InstructionTable::default();
    let src = "POP\n\nPOP";
    let code = assemble(src, &table).unwrap();
    assert_eq!(
        code.raw,
        vec![Opcode::Pop.code(), Opcode::Halt.code(), Opcode::Pop.code()]
    );
    assert_eq!(code.lines, vec![0, 1, 2]);
}

#[test]
fn test_assemble_records_line_numbers() {
    let table = InstructionTable::default();
    let src = "CONST 7\nPUSH 0\nADD\n";
    let code = assemble(src, &table).unwrap();
    assert_eq!(code.raw, vec![Opcode::Push.code(), 0, Opcode::Add.code()]);
    assert_eq!(code.lines, vec![1, 1, 2]);
    assert_eq!(code.const_pool, vec![Value::I8(7)]);
}

#[test]
fn test_parse_chunk_mnemonic_and_numeral() {
    let table = InstructionTable::default();
    assert_eq!(parse_chunk("ADD", &table), Some(Opcode::Add.code()));
    assert_eq!(parse_chunk("7", &table), Some(7));
    assert_eq!(parse_chunk("255", &table), Some(255));
    assert_eq!(parse_chunk("256", &table), None);
    assert_eq!(parse_chunk("frob", &table), None);
}

#[test]
fn test_assemble_unknown_mnemonic() {
    let table = InstructionTable::default();
    let err = assemble("FROB 1", &table).unwrap_err();
    assert_eq!(err.kind, AsmErrorKind::UnknownMnemonic);
    assert_eq!(err.token, "FROB".to_string());
    assert_eq!(err.line, 0);
}

#[test]
fn test_assemble_bad_operand_names_token_and_line() {
    let table = InstructionTable::default();
    let err = assemble("POP\nLOAD glorp", &table).unwrap_err();
    assert_eq!(err.kind, AsmErrorKind::BadOperand);
    assert_eq!(err.token, "glorp".to_string());
    assert_eq!(err.line, 1);
}

#[test]
fn test_assemble_bad_const_literal() {
    let table = InstructionTable::default();
    let err = assemble("CONST 3.5", &table).unwrap_err();
    assert_eq!(err.kind, AsmErrorKind::BadOperand);
    assert_eq!(err.token, "3.5".to_string());
}

#[test]
fn test_assemble_const_without_literal() {
    let table = InstructionTable::default();
    let err = assemble("CONST", &table).unwrap_err();
    assert_eq!(err.kind, AsmErrorKind::MissingOperand);
    assert_eq!(err.line, 0);
}

#[test]
fn test_assemble_pool_overflow() {
    let table = InstructionTable::default();
    let mut src = String::new();
    for _ in 0..257 {
        src.push_str("CONST 1\n");
    }
    let err = assemble(&src, &table).unwrap_err();
    assert_eq!(err.kind, AsmErrorKind::ConstantPoolFull);
    assert_eq!(err.line, 256);
}

#[test]
fn test_assemble_operand_may_name_a_mnemonic() {
    let table = InstructionTable::default();
    let code = assemble("PUSH ADD", &table).unwrap();
    assert_eq!(code.raw, vec![Opcode::Push.code(), Opcode::Add.code()]);
}
