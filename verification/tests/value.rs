use tinyvm::code::render_value;
use tinyvm::code::u64_dec;
use tinyvm::constant::Constant;
use tinyvm::error::VmError;
use tinyvm::machine::Machine;
use tinyvm::ops::Applied;
use tinyvm::ops::BinEval;
use tinyvm::ops::BinOp;
use tinyvm::ops::eval_binop;
use tinyvm::value::Tag;
use tinyvm::value::Value;
use tinyvm::value::value_le;
use tinyvm::value::value_lt;

#[test]
fn test_wrapping_add_sub_round_trip() {
    // 127 + 1 wraps to -128 at width 8; subtracting 1 wraps back
    let a = Value::I8(127);
    let b = Value::I8(1);
    let sum = match eval_binop(BinOp::Add, &a, &b) {
        BinEval::Done(v) => v,
        other => panic!("expected a value, got {:?}", other),
    };
    assert_eq!(sum, Value::I8(-128));
    let back = match eval_binop(BinOp::Sub, &sum, &b) {
        BinEval::Done(v) => v,
        other => panic!("expected a value, got {:?}", other),
    };
    assert_eq!(back, a);
}

#[test]
fn test_arithmetic_by_width() {
    assert_eq!(
        eval_binop(BinOp::Add, &Value::I16(300), &Value::I16(-50)),
        BinEval::Done(Value::I16(250))
    );
    assert_eq!(
        eval_binop(BinOp::Mul, &Value::U8(16), &Value::U8(16)),
        BinEval::Done(Value::U8(0))
    );
    assert_eq!(
        eval_binop(BinOp::Div, &Value::I32(7), &Value::I32(-2)),
        BinEval::Done(Value::I32(-3))
    );
    assert_eq!(
        eval_binop(BinOp::Mod, &Value::I64(-7), &Value::I64(2)),
        BinEval::Done(Value::I64(-1))
    );
    assert_eq!(
        eval_binop(BinOp::Add, &Value::Ptr(u64::MAX), &Value::Ptr(1)),
        BinEval::Done(Value::Ptr(0))
    );
}

#[test]
fn test_division_errors() {
    assert_eq!(
        eval_binop(BinOp::Div, &Value::I8(1), &Value::I8(0)),
        BinEval::Fail(VmError::DivisionByZero)
    );
    assert_eq!(
        eval_binop(BinOp::Div, &Value::I8(i8::MIN), &Value::I8(-1)),
        BinEval::Fail(VmError::Overflow)
    );
    assert_eq!(
        eval_binop(BinOp::Mod, &Value::U64(1), &Value::U64(0)),
        BinEval::Fail(VmError::DivisionByZero)
    );
}

#[test]
fn test_type_mismatch_is_recoverable_data() {
    assert_eq!(
        eval_binop(BinOp::Sub, &Value::I8(1), &Value::I16(1)),
        BinEval::Fail(VmError::TypeMismatch { op: BinOp::Sub, lhs: Tag::I8, rhs: Tag::I16 })
    );
    assert_eq!(
        eval_binop(BinOp::BitAnd, &Value::F32(0), &Value::F32(0)),
        BinEval::Fail(VmError::TypeMismatch { op: BinOp::BitAnd, lhs: Tag::F32, rhs: Tag::F32 })
    );
    assert_eq!(
        eval_binop(BinOp::Add, &Value::Null, &Value::Null),
        BinEval::Fail(VmError::TypeMismatch { op: BinOp::Add, lhs: Tag::Null, rhs: Tag::Null })
    );
}

#[test]
fn test_bitwise_and_bool_pairs() {
    assert_eq!(
        eval_binop(BinOp::BitAnd, &Value::U8(0b1100), &Value::U8(0b1010)),
        BinEval::Done(Value::U8(0b1000))
    );
    assert_eq!(
        eval_binop(BinOp::BitOr, &Value::Bool(false), &Value::Bool(true)),
        BinEval::Done(Value::Bool(true))
    );
    assert_eq!(
        eval_binop(BinOp::BitXor, &Value::Bool(true), &Value::Bool(true)),
        BinEval::Done(Value::Bool(false))
    );
    // shifts reject booleans
    assert_eq!(
        eval_binop(BinOp::Shl, &Value::Bool(true), &Value::Bool(true)),
        BinEval::Fail(VmError::TypeMismatch { op: BinOp::Shl, lhs: Tag::Bool, rhs: Tag::Bool })
    );
}

#[test]
fn test_shift_amount_wraps_at_width() {
    assert_eq!(
        eval_binop(BinOp::Shl, &Value::U8(1), &Value::U8(3)),
        BinEval::Done(Value::U8(8))
    );
    // a shift of 9 at width 8 acts as a shift of 1
    assert_eq!(
        eval_binop(BinOp::Shl, &Value::U8(1), &Value::U8(9)),
        BinEval::Done(Value::U8(2))
    );
    assert_eq!(
        eval_binop(BinOp::Shr, &Value::I8(-8), &Value::I8(1)),
        BinEval::Done(Value::I8(-4))
    );
}

#[test]
fn test_float_arithmetic_is_pending() {
    assert_eq!(
        eval_binop(BinOp::Add, &Value::F32(1), &Value::F32(2)),
        BinEval::Pending
    );
    assert_eq!(
        eval_binop(BinOp::Div, &Value::F64(1), &Value::F64(2)),
        BinEval::Pending
    );
}

#[test]
fn test_comparisons_are_total() {
    // same tag: numeric order
    assert_eq!(
        eval_binop(BinOp::Lt, &Value::I8(-1), &Value::I8(1)),
        BinEval::Done(Value::Bool(true))
    );
    // different tags never fail: tag order decides
    assert_eq!(
        eval_binop(BinOp::Lt, &Value::Null, &Value::Bool(false)),
        BinEval::Done(Value::Bool(true))
    );
    assert_eq!(
        eval_binop(BinOp::Gt, &Value::Ptr(0), &Value::U64(u64::MAX)),
        BinEval::Done(Value::Bool(true))
    );
    assert_eq!(
        eval_binop(BinOp::Eq, &Value::I8(1), &Value::I16(1)),
        BinEval::Done(Value::Bool(false))
    );
    assert_eq!(
        eval_binop(BinOp::Neq, &Value::I8(1), &Value::I16(1)),
        BinEval::Done(Value::Bool(true))
    );
    assert_eq!(
        eval_binop(BinOp::Lte, &Value::U32(5), &Value::U32(5)),
        BinEval::Done(Value::Bool(true))
    );
    assert_eq!(
        eval_binop(BinOp::Gte, &Value::U32(4), &Value::U32(5)),
        BinEval::Done(Value::Bool(false))
    );
    assert!(value_lt(&Value::Bool(false), &Value::Bool(true)));
    assert!(value_le(&Value::F32(7), &Value::F32(7)));
}

#[test]
fn test_named_binary_handlers() {
    let mut machine = Machine::new();
    machine.stack.push(Value::I8(2));
    machine.stack.push(Value::I8(3));
    let applied = tinyvm::ops::add(&mut machine).unwrap();
    assert_eq!(applied, Applied::Done);
    assert_eq!(machine.stack, vec![Value::I8(5)]);
    machine.stack.push(Value::I8(2));
    let applied = tinyvm::ops::subtract(&mut machine).unwrap();
    assert_eq!(applied, Applied::Done);
    assert_eq!(machine.stack, vec![Value::I8(3)]);
    let err = tinyvm::ops::multiply(&mut machine).unwrap_err();
    assert_eq!(err, VmError::StackUnderflow);
    machine.stack.push(Value::I8(10));
    assert_eq!(tinyvm::ops::l_than(&mut machine).unwrap(), Applied::Done);
    assert_eq!(machine.stack, vec![Value::Bool(true)]);
}

#[test]
fn test_value_from_str_narrowest_width() {
    assert_eq!(Value::from_str("10"), Some(Value::I8(10)));
    assert_eq!(Value::from_str("+10"), Some(Value::I8(10)));
    assert_eq!(Value::from_str("-128"), Some(Value::I8(-128)));
    assert_eq!(Value::from_str("300"), Some(Value::I16(300)));
    assert_eq!(Value::from_str("70000"), Some(Value::I32(70000)));
    assert_eq!(Value::from_str("5000000000"), Some(Value::I64(5000000000)));
    assert_eq!(
        Value::from_str("18446744073709551615"),
        Some(Value::U64(u64::MAX))
    );
    assert_eq!(Value::from_str("true"), Some(Value::Bool(true)));
    assert_eq!(Value::from_str("false"), Some(Value::Bool(false)));
    assert_eq!(Value::from_str(""), None);
    assert_eq!(Value::from_str("3.5"), None);
    assert_eq!(Value::from_str("18446744073709551616"), None);
    assert_eq!(Value::from_str("-9223372036854775809"), None);
    assert_eq!(Value::from_str("-9223372036854775808"), Some(Value::I64(i64::MIN)));
    assert_eq!(Value::from_str("1x"), None);
    assert_eq!(Value::from_str("+-1"), None);
}

#[test]
fn test_constant_wire_round_trip() {
    let samples = [
        Value::Null,
        Value::Bool(true),
        Value::Bool(false),
        Value::I8(-5),
        Value::I16(-300),
        Value::I32(70000),
        Value::I64(i64::MIN),
        Value::U8(200),
        Value::U16(40000),
        Value::U32(4_000_000_000),
        Value::U64(u64::MAX),
        Value::F32(1.5f32.to_bits()),
        Value::F64(2.5f64.to_bits()),
        Value::Ptr(77),
    ];
    for v in samples.iter() {
        let packed = Constant::from_value(v);
        assert_eq!(packed.unwrap(), *v);
    }
    // signed payloads are sign-extended into the 64-bit lane
    assert_eq!(Constant::from_value(&Value::I8(-1)).raw, u64::MAX);
    let null = Constant::null();
    assert_eq!(null.tag, Tag::Null);
    assert_eq!(null.unwrap(), Value::Null);
}

#[test]
fn test_decimal_rendering() {
    assert_eq!(u64_dec(0), "0".to_string());
    assert_eq!(u64_dec(90210), "90210".to_string());
    assert_eq!(u64_dec(u64::MAX), "18446744073709551615".to_string());
    assert_eq!(render_value(&Value::I8(-7)), "-7".to_string());
    assert_eq!(render_value(&Value::I64(i64::MIN)), "-9223372036854775808".to_string());
    assert_eq!(render_value(&Value::U16(65535)), "65535".to_string());
    assert_eq!(render_value(&Value::Null), "null".to_string());
    assert_eq!(render_value(&Value::Bool(true)), "true".to_string());
    assert_eq!(
        render_value(&Value::F32(2.0f32.to_bits())),
        format!("f32:{}", 2.0f32.to_bits())
    );
    assert_eq!(render_value(&Value::Ptr(9)), "ptr:9".to_string());
}
