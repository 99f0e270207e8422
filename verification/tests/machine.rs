use tinyvm::code::Code;
use tinyvm::error::VmError;
use tinyvm::instruction::Instruction;
use tinyvm::instruction::OpKind;
use tinyvm::instruction_table::InstructionTable;
use tinyvm::instruction_table::RegistryError;
use tinyvm::machine::Machine;
use tinyvm::machine::Outcome;
use tinyvm::opcode::Opcode;
use tinyvm::ops::BinOp;
use tinyvm::reader::assemble;
use tinyvm::value::Value;

const FUEL: usize = 10_000;

fn run_assembled(src: &str) -> (Machine, Code) {
    let table = InstructionTable::default();
    let code = assemble(src, &table).expect("assembly failed");
    let mut machine = Machine::new();
    let outcome = machine.run(&code, FUEL);
    assert_eq!(outcome, Outcome::Halted);
    (machine, code)
}

#[test]
fn test_load() {
    let mut machine = Machine::new();
    let mut code = Code::new();
    code.add_const(Value::I8(1)).unwrap();
    code.write_code(Opcode::Load.code(), 0);
    code.write_code(0, 0);
    code.write_code(Opcode::Halt.code(), 1);
    let outcome = machine.run(&code, FUEL);
    assert_eq!(outcome, Outcome::Halted);
    assert_eq!(machine.stack, vec![Value::I8(1)]);
}

#[test]
fn test_store() {
    let mut machine = Machine::new();
    let mut code = Code::new();
    code.add_const(Value::I8(1)).unwrap();
    code.write_code(Opcode::Load.code(), 0);
    code.write_code(0, 0);
    code.write_code(Opcode::Store.code(), 1);
    code.write_code(3, 1);
    code.write_code(Opcode::Halt.code(), 2);
    let outcome = machine.run(&code, FUEL);
    assert_eq!(outcome, Outcome::Halted);
    assert_eq!(
        machine.store,
        vec![Value::I8(1), Value::Null, Value::Null, Value::I8(1)]
    );
}

#[test]
fn test_add() {
    let (machine, _) = run_assembled("CONST 10\nCONST 20\nLOAD 0\nLOAD 1\nADD\n");
    assert_eq!(machine.stack.last(), Some(&Value::I8(30)));
}

#[test]
fn test_assembled_div_by_zero_faults() {
    let table = InstructionTable::default();
    let code = assemble("CONST 1\nLOAD 0\nCONST 0\nLOAD 1\nDIV\n", &table).unwrap();
    let mut machine = Machine::new();
    let outcome = machine.run(&code, FUEL);
    match outcome {
        Outcome::Fault(f) => {
            assert_eq!(f.error, VmError::DivisionByZero);
            assert_eq!(f.offset, 4);
            assert_eq!(f.line, 4);
        }
        other => panic!("expected a fault, got {:?}", other),
    }
}

#[test]
fn test_registry_collision() {
    let mut table = InstructionTable::new();
    table
        .push(Instruction::new(5, "FIRST", 0, OpKind::Pop))
        .unwrap();
    let err = table
        .push(Instruction::new(5, "SECOND", 0, OpKind::Halt))
        .unwrap_err();
    assert_eq!(err, RegistryError::OpcodeCollision { opcode: 5 });
    // the registry kept the first registration
    assert_eq!(table.get(5).unwrap().name, "FIRST".to_string());
}

#[test]
fn test_push_pop_round_trip() {
    let table = InstructionTable::default();
    let code = assemble("CONST 1\nCONST 2\nPUSH 0\nPUSH 1\nPUSH 0\nPOP\nPOP\nPOP\n", &table)
        .unwrap();
    let mut machine = Machine::new();
    let outcome = machine.run(&code, FUEL);
    assert_eq!(outcome, Outcome::Halted);
    assert!(machine.stack.is_empty());
}

#[test]
fn test_pop_on_empty_stack_underflows() {
    let (outcome, machine) = {
        let table = InstructionTable::default();
        let code = assemble("POP", &table).unwrap();
        let mut machine = Machine::new();
        let outcome = machine.run(&code, FUEL);
        (outcome, machine)
    };
    match outcome {
        Outcome::Fault(f) => assert_eq!(f.error, VmError::StackUnderflow),
        other => panic!("expected a fault, got {:?}", other),
    }
    assert!(machine.stack.is_empty());
}

#[test]
fn test_load_beyond_store_is_out_of_bounds() {
    let table = InstructionTable::default();
    let code = assemble("LOAD 0", &table).unwrap();
    let mut machine = Machine::new();
    let outcome = machine.run(&code, FUEL);
    match outcome {
        Outcome::Fault(f) => {
            assert_eq!(f.error, VmError::OutOfBounds);
            assert_eq!(f.offset, 0);
        }
        other => panic!("expected a fault, got {:?}", other),
    }
}

#[test]
fn test_store_grows_then_load_reads_back() {
    let (machine, _) = run_assembled("CONST 9\nLOAD 0\nSTORE 5\nLOAD 5\n");
    assert_eq!(machine.stack.last(), Some(&Value::I8(9)));
    assert_eq!(machine.store.len(), 6);
    assert_eq!(machine.store[4], Value::Null);
}

#[test]
fn test_invalid_opcode_faults() {
    let mut code = Code::new();
    code.write_code(99, 0);
    let mut machine = Machine::new();
    let outcome = machine.run(&code, FUEL);
    match outcome {
        Outcome::Fault(f) => assert_eq!(f.error, VmError::InvalidOpcode { opcode: 99 }),
        other => panic!("expected a fault, got {:?}", other),
    }
}

#[test]
fn test_push_out_of_pool_bounds() {
    let table = InstructionTable::default();
    let code = assemble("PUSH 3", &table).unwrap();
    let mut machine = Machine::new();
    let outcome = machine.run(&code, FUEL);
    match outcome {
        Outcome::Fault(f) => assert_eq!(f.error, VmError::OutOfBounds),
        other => panic!("expected a fault, got {:?}", other),
    }
}

#[test]
fn test_operand_bytes_past_end_fault() {
    let mut code = Code::new();
    code.write_code(Opcode::Push.code(), 0);
    let mut machine = Machine::new();
    let outcome = machine.run(&code, FUEL);
    match outcome {
        Outcome::Fault(f) => assert_eq!(f.error, VmError::OutOfBounds),
        other => panic!("expected a fault, got {:?}", other),
    }
}

#[test]
fn test_zero_arity_push_is_missing_operand() {
    let mut table = InstructionTable::new();
    table.push(Instruction::new(0, "PZ", 0, OpKind::Push)).unwrap();
    let mut code = Code::new();
    code.write_code(0, 0);
    let mut machine = Machine::with_table(table);
    let outcome = machine.run(&code, FUEL);
    match outcome {
        Outcome::Fault(f) => assert_eq!(f.error, VmError::MissingOperand),
        other => panic!("expected a fault, got {:?}", other),
    }
}

#[test]
fn test_type_mismatch_carries_operator_and_tags() {
    let table = InstructionTable::default();
    let code = assemble("CONST 1\nCONST true\nLOAD 0\nLOAD 1\nADD\n", &table).unwrap();
    let mut machine = Machine::new();
    let outcome = machine.run(&code, FUEL);
    match outcome {
        Outcome::Fault(f) => {
            assert_eq!(
                f.error,
                VmError::TypeMismatch {
                    op: BinOp::Add,
                    lhs: tinyvm::value::Tag::I8,
                    rhs: tinyvm::value::Tag::Bool,
                }
            );
        }
        other => panic!("expected a fault, got {:?}", other),
    }
}

#[test]
fn test_end_of_stream_halts() {
    let table = InstructionTable::default();
    let code = assemble("CONST 4\nLOAD 0", &table).unwrap();
    let mut machine = Machine::new();
    let outcome = machine.run(&code, FUEL);
    assert_eq!(outcome, Outcome::Halted);
    assert!(machine.halted);
}

#[test]
fn test_fuel_exhaustion_reports_running() {
    let table = InstructionTable::default();
    let code = assemble("CONST 1\nLOAD 0\nLOAD 0\nADD\nPOP\n", &table).unwrap();
    let mut machine = Machine::new();
    let outcome = machine.run(&code, 2);
    assert_eq!(outcome, Outcome::Running);
    let outcome = machine.run_more(&code, FUEL);
    assert_eq!(outcome, Outcome::Halted);
}

#[test]
fn test_jump_skips_instructions() {
    let mut table = InstructionTable::default();
    table.push(Instruction::new(16, "JMP", 1, OpKind::Jump)).unwrap();
    let code = assemble("CONST 1\nJMP 4\nPUSH 0\nPUSH 0\n", &table).unwrap();
    // bytes: JMP 4 | PUSH 0 | PUSH 0 — the jump lands on the second push
    let mut machine = Machine::with_table(table);
    let outcome = machine.run(&code, FUEL);
    assert_eq!(outcome, Outcome::Halted);
    assert_eq!(machine.stack, vec![Value::I8(1)]);
}

#[test]
fn test_print_pops_to_output() {
    let mut table = InstructionTable::default();
    table.push(Instruction::new(17, "PRINT", 0, OpKind::Print)).unwrap();
    let code = assemble("CONST 42\nLOAD 0\nPRINT\n", &table).unwrap();
    let mut machine = Machine::with_table(table);
    let outcome = machine.run(&code, FUEL);
    assert_eq!(outcome, Outcome::Halted);
    assert!(machine.stack.is_empty());
    assert_eq!(machine.output, vec![Value::I8(42)]);
}

#[test]
fn test_float_add_is_delegated_and_resumed() {
    let mut code = Code::new();
    code.add_const(Value::F32(10.5f32.to_bits())).unwrap();
    code.add_const(Value::F32(30.5f32.to_bits())).unwrap();
    code.write_code(Opcode::Load.code(), 0);
    code.write_code(0, 0);
    code.write_code(Opcode::Load.code(), 1);
    code.write_code(1, 1);
    code.write_code(Opcode::Add.code(), 2);
    code.write_code(Opcode::Halt.code(), 3);
    let mut machine = Machine::new();
    let outcome = machine.run(&code, FUEL);
    match outcome {
        Outcome::Pending { op, lhs, rhs } => {
            assert_eq!(op, BinOp::Add);
            assert_eq!(lhs, Value::F32(10.5f32.to_bits()));
            assert_eq!(rhs, Value::F32(30.5f32.to_bits()));
            let (a, b) = match (lhs, rhs) {
                (Value::F32(x), Value::F32(y)) => (f32::from_bits(x), f32::from_bits(y)),
                _ => unreachable!(),
            };
            let result = Value::F32((a + b).to_bits());
            let outcome = machine.resume(&code, result, FUEL);
            assert_eq!(outcome, Outcome::Halted);
            assert_eq!(machine.stack, vec![Value::F32(41.0f32.to_bits())]);
        }
        other => panic!("expected pending float arithmetic, got {:?}", other),
    }
}

#[test]
fn test_stack_and_store_persist_across_runs() {
    let table = InstructionTable::default();
    let code1 = assemble("CONST 5\nLOAD 0\nSTORE 2\n", &table).unwrap();
    let code2 = assemble("LOAD 2\n", &table).unwrap();
    let mut machine = Machine::new();
    assert_eq!(machine.run(&code1, FUEL), Outcome::Halted);
    assert_eq!(machine.store[2], Value::I8(5));
    // the second run reseeds slot 0 from its own pool but keeps slot 2
    assert_eq!(machine.run(&code2, FUEL), Outcome::Halted);
    assert_eq!(machine.stack.last(), Some(&Value::I8(5)));
}

#[test]
fn test_symbol_table_lists_baseline() {
    let table = InstructionTable::default();
    let symbols = table.symbol_table();
    assert_eq!(symbols.len(), 16);
    assert_eq!(symbols[0], ("HALT".to_string(), 0));
    assert_eq!(symbols[5], ("ADD".to_string(), 5));
    assert_eq!(symbols[15], ("GTE".to_string(), 15));
}

#[test]
fn test_lookup_by_opcode_and_name() {
    let table = InstructionTable::default();
    assert_eq!(table.get(9).unwrap().name, "MOD".to_string());
    assert!(table.get(99).is_none());
    assert_eq!(table.instr_by_name("GTE").unwrap().op_code, 15);
    assert!(table.instr_by_name("gte").is_none());
}

#[test]
fn test_get_offset() {
    assert_eq!(Opcode::Push.get_offset(), 1);
    assert_eq!(Opcode::Load.get_offset(), 1);
    assert_eq!(Opcode::Store.get_offset(), 1);
    assert_eq!(Opcode::Add.get_offset(), 0);
    assert_eq!(Opcode::Halt.get_offset(), 0);
}
