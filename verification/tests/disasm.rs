use tinyvm::code::Code;
use tinyvm::code::DisEntry;
use tinyvm::instruction_table::InstructionTable;
use tinyvm::opcode::Opcode;
use tinyvm::reader::assemble;
use tinyvm::value::Value;

#[test]
fn test_disassemble_listing_text() {
    let table = InstructionTable::default();
    let code = assemble("CONST 10\nPUSH 0\nADD\n", &table).unwrap();
    // bytes: PUSH 0 (line 1) | ADD (line 2); PUSH renders pool entry 0
    let listing = code.disassemble(&table);
    assert_eq!(listing, "0 1 PUSH 0 10\n2 2 ADD\n");
}

#[test]
fn test_disassemble_unknown_opcode() {
    let table = InstructionTable::default();
    let mut code = Code::new();
    code.write_code(99, 7);
    code.write_code(Opcode::Pop.code(), 8);
    let listing = code.disassemble(&table);
    assert_eq!(listing, "0 7 ??? 99\n1 8 POP\n");
}

#[test]
fn test_disassemble_is_static_and_total() {
    let table = InstructionTable::default();
    let mut code = Code::new();
    // a push whose operand byte is missing still decodes, without it
    code.write_code(Opcode::Push.code(), 0);
    let entries = code.disassemble_entries(&table);
    assert_eq!(entries.len(), 1);
    match &entries[0] {
        DisEntry::Instr { offset, mnemonic, operands, annot, .. } => {
            assert_eq!(*offset, 0);
            assert_eq!(mnemonic, "PUSH");
            assert!(operands.is_empty());
            assert!(annot.is_none());
        }
        other => panic!("expected an instruction entry, got {:?}", other),
    }
}

#[test]
fn test_disassemble_round_trips_mnemonics_and_operands() {
    let table = InstructionTable::default();
    let src = "PUSH 0\nSTORE 1\nLOAD 1\nADD\nHALT\n";
    let code = assemble(src, &table).unwrap();
    let entries = code.disassemble_entries(&table);
    let expect: Vec<(&str, Vec<u8>)> = vec![
        ("PUSH", vec![0]),
        ("STORE", vec![1]),
        ("LOAD", vec![1]),
        ("ADD", vec![]),
        ("HALT", vec![]),
    ];
    assert_eq!(entries.len(), expect.len());
    for (entry, (name, ops)) in entries.iter().zip(expect.iter()) {
        match entry {
            DisEntry::Instr { mnemonic, operands, .. } => {
                assert_eq!(mnemonic, name);
                assert_eq!(operands, ops);
            }
            other => panic!("expected an instruction entry, got {:?}", other),
        }
    }
}

#[test]
fn test_disassemble_annotates_constant_bearing_opcodes() {
    let table = InstructionTable::default();
    let code = assemble("CONST 33\nPUSH 0\nLOAD 0\nSTORE 9\n", &table).unwrap();
    let entries = code.disassemble_entries(&table);
    match &entries[0] {
        DisEntry::Instr { annot, .. } => assert_eq!(*annot, Some(Value::I8(33))),
        other => panic!("expected an instruction entry, got {:?}", other),
    }
    match &entries[1] {
        DisEntry::Instr { annot, .. } => assert_eq!(*annot, Some(Value::I8(33))),
        other => panic!("expected an instruction entry, got {:?}", other),
    }
    // index 9 is beyond the pool: no annotation
    match &entries[2] {
        DisEntry::Instr { annot, .. } => assert_eq!(*annot, None),
        other => panic!("expected an instruction entry, got {:?}", other),
    }
}

#[test]
fn test_append_instruction_writes_opcode_then_operands() {
    let mut code = Code::new();
    code.append_instruction(Opcode::Push.code(), &vec![4], 3);
    code.append_instruction(Opcode::Add.code(), &vec![], 4);
    assert_eq!(code.raw, vec![Opcode::Push.code(), 4, Opcode::Add.code()]);
    assert_eq!(code.lines, vec![3, 3, 4]);
}

#[test]
fn test_add_const_limit() {
    let mut code = Code::new();
    for i in 0..256 {
        let idx = code.add_const(Value::I32(i)).unwrap();
        assert_eq!(idx as i32, i as i32);
    }
    assert!(code.add_const(Value::I32(256)).is_err());
    assert_eq!(code.const_pool.len(), 256);
}
