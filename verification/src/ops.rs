//! Operator semantics: type-paired arithmetic, bitwise and comparison
//! operators over [`Value`].
//!
//! Every operator is defined only for operand pairs sharing the same
//! tag; bitwise AND/OR/XOR additionally accept a `Bool`/`Bool` pair, and
//! the comparison operators are total over all pairs (structural order:
//! tag first, payload second). Integer arithmetic wraps at the operand
//! width; integer division and modulo by zero are fatal. Arithmetic on
//! float-tagged pairs is not computed here: it evaluates to
//! [`BinEval::Pending`] and is handed to the embedding host.

use vstd::prelude::*;
use vstd::wrapping::i16_specs;
use vstd::wrapping::i32_specs;
use vstd::wrapping::i64_specs;
use vstd::wrapping::i8_specs;
use vstd::wrapping::u16_specs;
use vstd::wrapping::u32_specs;
use vstd::wrapping::u64_specs;
use vstd::wrapping::u8_specs;

use crate::code::Code;
use crate::error::VmError;
use crate::machine::Machine;
use crate::machine::store_write_grow;
use crate::value::Tag;
use crate::value::Value;
use crate::value::val_le;
use crate::value::val_lt;
use crate::value::value_le;
use crate::value::value_lt;

verus! {

/// A binary operator of the instruction set.
#[derive(Clone, Copy, PartialEq, Eq, Structural, Debug)]
pub enum BinOp {
    Add,
    Sub,
    Mul,
    Div,
    Mod,
    BitAnd,
    BitOr,
    BitXor,
    Shl,
    Shr,
    Eq,
    Neq,
    Lt,
    Lte,
    Gt,
    Gte,
}

/// The outcome of evaluating a binary operator on two values.
#[derive(Clone, Copy, PartialEq, Eq, Structural, Debug)]
pub enum BinEval {
    /// The operator is defined on the pair and produced this value.
    Done(Value),
    /// The operator is not defined on the pair, or the arithmetic is
    /// fatal (division by zero, signed division overflow).
    Fail(VmError),
    /// Arithmetic on a float-tagged pair: the result must be computed
    /// by the embedding host from the two operands' bit patterns.
    Pending,
}

/// Tags whose arithmetic is carried out (wrapping) by the machine itself.
pub open spec fn is_int_tag(t: Tag) -> bool {
    t == Tag::I8 || t == Tag::I16 || t == Tag::I32 || t == Tag::I64 || t == Tag::U8 || t == Tag::U16
        || t == Tag::U32 || t == Tag::U64 || t == Tag::Ptr
}

/// The wrapping add, subtract or multiply operators.
pub open spec fn is_wrap_op(op: BinOp) -> bool {
    op == BinOp::Add || op == BinOp::Sub || op == BinOp::Mul
}

/// The comparison operators.
pub open spec fn is_cmp_op(op: BinOp) -> bool {
    op == BinOp::Eq || op == BinOp::Neq || op == BinOp::Lt || op == BinOp::Lte || op == BinOp::Gt
        || op == BinOp::Gte
}

/// Wrapping add/sub/mul over each same-tagged integer pair; float pairs
/// are pending; every other pair is a type mismatch.
pub open spec fn spec_arith(op: BinOp, a: Value, b: Value) -> BinEval
    recommends
        is_wrap_op(op),
{
    match (a, b) {
        (Value::I8(x), Value::I8(y)) => BinEval::Done(
            Value::I8(
                match op {
                    BinOp::Sub => i8_specs::wrapping_sub(x, y),
                    BinOp::Mul => i8_specs::wrapping_mul(x, y),
                    _ => i8_specs::wrapping_add(x, y),
                },
            ),
        ),
        (Value::I16(x), Value::I16(y)) => BinEval::Done(
            Value::I16(
                match op {
                    BinOp::Sub => i16_specs::wrapping_sub(x, y),
                    BinOp::Mul => i16_specs::wrapping_mul(x, y),
                    _ => i16_specs::wrapping_add(x, y),
                },
            ),
        ),
        (Value::I32(x), Value::I32(y)) => BinEval::Done(
            Value::I32(
                match op {
                    BinOp::Sub => i32_specs::wrapping_sub(x, y),
                    BinOp::Mul => i32_specs::wrapping_mul(x, y),
                    _ => i32_specs::wrapping_add(x, y),
                },
            ),
        ),
        (Value::I64(x), Value::I64(y)) => BinEval::Done(
            Value::I64(
                match op {
                    BinOp::Sub => i64_specs::wrapping_sub(x, y),
                    BinOp::Mul => i64_specs::wrapping_mul(x, y),
                    _ => i64_specs::wrapping_add(x, y),
                },
            ),
        ),
        (Value::U8(x), Value::U8(y)) => BinEval::Done(
            Value::U8(
                match op {
                    BinOp::Sub => u8_specs::wrapping_sub(x, y),
                    BinOp::Mul => u8_specs::wrapping_mul(x, y),
                    _ => u8_specs::wrapping_add(x, y),
                },
            ),
        ),
        (Value::U16(x), Value::U16(y)) => BinEval::Done(
            Value::U16(
                match op {
                    BinOp::Sub => u16_specs::wrapping_sub(x, y),
                    BinOp::Mul => u16_specs::wrapping_mul(x, y),
                    _ => u16_specs::wrapping_add(x, y),
                },
            ),
        ),
        (Value::U32(x), Value::U32(y)) => BinEval::Done(
            Value::U32(
                match op {
                    BinOp::Sub => u32_specs::wrapping_sub(x, y),
                    BinOp::Mul => u32_specs::wrapping_mul(x, y),
                    _ => u32_specs::wrapping_add(x, y),
                },
            ),
        ),
        (Value::U64(x), Value::U64(y)) => BinEval::Done(
            Value::U64(
                match op {
                    BinOp::Sub => u64_specs::wrapping_sub(x, y),
                    BinOp::Mul => u64_specs::wrapping_mul(x, y),
                    _ => u64_specs::wrapping_add(x, y),
                },
            ),
        ),
        (Value::Ptr(x), Value::Ptr(y)) => BinEval::Done(
            Value::Ptr(
                match op {
                    BinOp::Sub => u64_specs::wrapping_sub(x, y),
                    BinOp::Mul => u64_specs::wrapping_mul(x, y),
                    _ => u64_specs::wrapping_add(x, y),
                },
            ),
        ),
        (Value::F32(_), Value::F32(_)) => BinEval::Pending,
        (Value::F64(_), Value::F64(_)) => BinEval::Pending,
        _ => BinEval::Fail(VmError::TypeMismatch { op, lhs: a.tag(), rhs: b.tag() }),
    }
}

/// Truncating division or modulo over each same-tagged integer pair,
/// fatal on a zero divisor and on signed overflow; float pairs are
/// pending; every other pair is a type mismatch.
pub open spec fn spec_divmod(op: BinOp, a: Value, b: Value) -> BinEval
    recommends
        op == BinOp::Div || op == BinOp::Mod,
{
    match (a, b) {
        (Value::I8(x), Value::I8(y)) => div_eval_i8(op, x, y),
        (Value::I16(x), Value::I16(y)) => div_eval_i16(op, x, y),
        (Value::I32(x), Value::I32(y)) => div_eval_i32(op, x, y),
        (Value::I64(x), Value::I64(y)) => div_eval_i64(op, x, y),
        (Value::U8(x), Value::U8(y)) => if y == 0 {
            BinEval::Fail(VmError::DivisionByZero)
        } else {
            BinEval::Done(Value::U8(if op == BinOp::Mod { (x % y) as u8 } else { (x / y) as u8 }))
        },
        (Value::U16(x), Value::U16(y)) => if y == 0 {
            BinEval::Fail(VmError::DivisionByZero)
        } else {
            BinEval::Done(Value::U16(if op == BinOp::Mod { (x % y) as u16 } else { (x / y) as u16 }))
        },
        (Value::U32(x), Value::U32(y)) => if y == 0 {
            BinEval::Fail(VmError::DivisionByZero)
        } else {
            BinEval::Done(Value::U32(if op == BinOp::Mod { (x % y) as u32 } else { (x / y) as u32 }))
        },
        (Value::U64(x), Value::U64(y)) => if y == 0 {
            BinEval::Fail(VmError::DivisionByZero)
        } else {
            BinEval::Done(Value::U64(if op == BinOp::Mod { (x % y) as u64 } else { (x / y) as u64 }))
        },
        (Value::Ptr(x), Value::Ptr(y)) => if y == 0 {
            BinEval::Fail(VmError::DivisionByZero)
        } else {
            BinEval::Done(Value::Ptr(if op == BinOp::Mod { (x % y) as u64 } else { (x / y) as u64 }))
        },
        (Value::F32(_), Value::F32(_)) => BinEval::Pending,
        (Value::F64(_), Value::F64(_)) => BinEval::Pending,
        _ => BinEval::Fail(VmError::TypeMismatch { op, lhs: a.tag(), rhs: b.tag() }),
    }
}

/// Signed truncating division/modulo outcome at width 8.
pub open spec fn div_eval_i8(op: BinOp, x: i8, y: i8) -> BinEval {
    let r = if op == BinOp::Mod {
        x.checked_rem(y)
    } else {
        x.checked_div(y)
    };
    match r {
        Option::Some(v) => BinEval::Done(Value::I8(v)),
        Option::None => BinEval::Fail(
            if y == 0 {
                VmError::DivisionByZero
            } else {
                VmError::Overflow
            },
        ),
    }
}

/// Signed truncating division/modulo outcome at width 16.
pub open spec fn div_eval_i16(op: BinOp, x: i16, y: i16) -> BinEval {
    let r = if op == BinOp::Mod {
        x.checked_rem(y)
    } else {
        x.checked_div(y)
    };
    match r {
        Option::Some(v) => BinEval::Done(Value::I16(v)),
        Option::None => BinEval::Fail(
            if y == 0 {
                VmError::DivisionByZero
            } else {
                VmError::Overflow
            },
        ),
    }
}

/// Signed truncating division/modulo outcome at width 32.
pub open spec fn div_eval_i32(op: BinOp, x: i32, y: i32) -> BinEval {
    let r = if op == BinOp::Mod {
        x.checked_rem(y)
    } else {
        x.checked_div(y)
    };
    match r {
        Option::Some(v) => BinEval::Done(Value::I32(v)),
        Option::None => BinEval::Fail(
            if y == 0 {
                VmError::DivisionByZero
            } else {
                VmError::Overflow
            },
        ),
    }
}

/// Signed truncating division/modulo outcome at width 64.
pub open spec fn div_eval_i64(op: BinOp, x: i64, y: i64) -> BinEval {
    let r = if op == BinOp::Mod {
        x.checked_rem(y)
    } else {
        x.checked_div(y)
    };
    match r {
        Option::Some(v) => BinEval::Done(Value::I64(v)),
        Option::None => BinEval::Fail(
            if y == 0 {
                VmError::DivisionByZero
            } else {
                VmError::Overflow
            },
        ),
    }
}

/// Bitwise AND/OR/XOR over each same-tagged integer pair and over
/// `Bool`/`Bool`; every other pair (floats included) is a type mismatch.
pub open spec fn spec_bitwise(op: BinOp, a: Value, b: Value) -> BinEval
    recommends
        op == BinOp::BitAnd || op == BinOp::BitOr || op == BinOp::BitXor,
{
    match (a, b) {
        (Value::Bool(x), Value::Bool(y)) => BinEval::Done(
            Value::Bool(
                match op {
                    BinOp::BitOr => x || y,
                    BinOp::BitXor => x != y,
                    _ => x && y,
                },
            ),
        ),
        (Value::I8(x), Value::I8(y)) => BinEval::Done(
            Value::I8(
                match op {
                    BinOp::BitOr => x | y,
                    BinOp::BitXor => x ^ y,
                    _ => x & y,
                },
            ),
        ),
        (Value::I16(x), Value::I16(y)) => BinEval::Done(
            Value::I16(
                match op {
                    BinOp::BitOr => x | y,
                    BinOp::BitXor => x ^ y,
                    _ => x & y,
                },
            ),
        ),
        (Value::I32(x), Value::I32(y)) => BinEval::Done(
            Value::I32(
                match op {
                    BinOp::BitOr => x | y,
                    BinOp::BitXor => x ^ y,
                    _ => x & y,
                },
            ),
        ),
        (Value::I64(x), Value::I64(y)) => BinEval::Done(
            Value::I64(
                match op {
                    BinOp::BitOr => x | y,
                    BinOp::BitXor => x ^ y,
                    _ => x & y,
                },
            ),
        ),
        (Value::U8(x), Value::U8(y)) => BinEval::Done(
            Value::U8(
                match op {
                    BinOp::BitOr => x | y,
                    BinOp::BitXor => x ^ y,
                    _ => x & y,
                },
            ),
        ),
        (Value::U16(x), Value::U16(y)) => BinEval::Done(
            Value::U16(
                match op {
                    BinOp::BitOr => x | y,
                    BinOp::BitXor => x ^ y,
                    _ => x & y,
                },
            ),
        ),
        (Value::U32(x), Value::U32(y)) => BinEval::Done(
            Value::U32(
                match op {
                    BinOp::BitOr => x | y,
                    BinOp::BitXor => x ^ y,
                    _ => x & y,
                },
            ),
        ),
        (Value::U64(x), Value::U64(y)) => BinEval::Done(
            Value::U64(
                match op {
                    BinOp::BitOr => x | y,
                    BinOp::BitXor => x ^ y,
                    _ => x & y,
                },
            ),
        ),
        (Value::Ptr(x), Value::Ptr(y)) => BinEval::Done(
            Value::Ptr(
                match op {
                    BinOp::BitOr => x | y,
                    BinOp::BitXor => x ^ y,
                    _ => x & y,
                },
            ),
        ),
        _ => BinEval::Fail(VmError::TypeMismatch { op, lhs: a.tag(), rhs: b.tag() }),
    }
}

/// Shifts over each same-tagged integer pair; the shift amount is taken
/// modulo the operand width (the host's wrapping shift); every other
/// pair is a type mismatch.
pub open spec fn spec_shift(op: BinOp, a: Value, b: Value) -> BinEval
    recommends
        op == BinOp::Shl || op == BinOp::Shr,
{
    match (a, b) {
        (Value::I8(x), Value::I8(y)) => BinEval::Done(
            Value::I8(
                if op == BinOp::Shr {
                    i8_specs::wrapping_shr(x, y as u32)
                } else {
                    i8_specs::wrapping_shl(x, y as u32)
                },
            ),
        ),
        (Value::I16(x), Value::I16(y)) => BinEval::Done(
            Value::I16(
                if op == BinOp::Shr {
                    i16_specs::wrapping_shr(x, y as u32)
                } else {
                    i16_specs::wrapping_shl(x, y as u32)
                },
            ),
        ),
        (Value::I32(x), Value::I32(y)) => BinEval::Done(
            Value::I32(
                if op == BinOp::Shr {
                    i32_specs::wrapping_shr(x, y as u32)
                } else {
                    i32_specs::wrapping_shl(x, y as u32)
                },
            ),
        ),
        (Value::I64(x), Value::I64(y)) => BinEval::Done(
            Value::I64(
                if op == BinOp::Shr {
                    i64_specs::wrapping_shr(x, y as u32)
                } else {
                    i64_specs::wrapping_shl(x, y as u32)
                },
            ),
        ),
        (Value::U8(x), Value::U8(y)) => BinEval::Done(
            Value::U8(
                if op == BinOp::Shr {
                    u8_specs::wrapping_shr(x, y as u32)
                } else {
                    u8_specs::wrapping_shl(x, y as u32)
                },
            ),
        ),
        (Value::U16(x), Value::U16(y)) => BinEval::Done(
            Value::U16(
                if op == BinOp::Shr {
                    u16_specs::wrapping_shr(x, y as u32)
                } else {
                    u16_specs::wrapping_shl(x, y as u32)
                },
            ),
        ),
        (Value::U32(x), Value::U32(y)) => BinEval::Done(
            Value::U32(
                if op == BinOp::Shr {
                    u32_specs::wrapping_shr(x, y as u32)
                } else {
                    u32_specs::wrapping_shl(x, y as u32)
                },
            ),
        ),
        (Value::U64(x), Value::U64(y)) => BinEval::Done(
            Value::U64(
                if op == BinOp::Shr {
                    u64_specs::wrapping_shr(x, y as u32)
                } else {
                    u64_specs::wrapping_shl(x, y as u32)
                },
            ),
        ),
        (Value::Ptr(x), Value::Ptr(y)) => BinEval::Done(
            Value::Ptr(
                if op == BinOp::Shr {
                    u64_specs::wrapping_shr(x, y as u32)
                } else {
                    u64_specs::wrapping_shl(x, y as u32)
                },
            ),
        ),
        _ => BinEval::Fail(VmError::TypeMismatch { op, lhs: a.tag(), rhs: b.tag() }),
    }
}

/// The total structural comparison operators.
pub open spec fn spec_compare(op: BinOp, a: Value, b: Value) -> bool
    recommends
        is_cmp_op(op),
{
    match op {
        BinOp::Eq => a == b,
        BinOp::Neq => a != b,
        BinOp::Lt => val_lt(a, b),
        BinOp::Lte => val_le(a, b),
        BinOp::Gt => val_lt(b, a),
        _ => val_le(b, a),
    }
}

/// Evaluation of any binary operator on any pair of values.
pub open spec fn spec_binop(op: BinOp, a: Value, b: Value) -> BinEval {
    match op {
        BinOp::Add | BinOp::Sub | BinOp::Mul => spec_arith(op, a, b),
        BinOp::Div | BinOp::Mod => spec_divmod(op, a, b),
        BinOp::BitAnd | BinOp::BitOr | BinOp::BitXor => spec_bitwise(op, a, b),
        BinOp::Shl | BinOp::Shr => spec_shift(op, a, b),
        _ => BinEval::Done(Value::Bool(spec_compare(op, a, b))),
    }
}

/// Applies a binary operator to two values; see [`spec_binop`].
pub fn eval_binop(op: BinOp, a: &Value, b: &Value) -> (r: BinEval)
    ensures
        r == spec_binop(op, *a, *b),
{
    match op {
        BinOp::Add | BinOp::Sub | BinOp::Mul => eval_arith(op, a, b),
        BinOp::Div | BinOp::Mod => eval_divmod(op, a, b),
        BinOp::BitAnd | BinOp::BitOr | BinOp::BitXor => eval_bitwise(op, a, b),
        BinOp::Shl | BinOp::Shr => eval_shift(op, a, b),
        _ => {
            let c = eval_compare(op, a, b);
            BinEval::Done(Value::Bool(c))
        },
    }
}

fn eval_arith(op: BinOp, a: &Value, b: &Value) -> (r: BinEval)
    requires
        is_wrap_op(op),
    ensures
        r == spec_arith(op, *a, *b),
{
    match (a, b) {
        (Value::I8(x), Value::I8(y)) => BinEval::Done(
            Value::I8(
                match op {
                    BinOp::Sub => x.wrapping_sub(*y),
                    BinOp::Mul => x.wrapping_mul(*y),
                    _ => x.wrapping_add(*y),
                },
            ),
        ),
        (Value::I16(x), Value::I16(y)) => BinEval::Done(
            Value::I16(
                match op {
                    BinOp::Sub => x.wrapping_sub(*y),
                    BinOp::Mul => x.wrapping_mul(*y),
                    _ => x.wrapping_add(*y),
                },
            ),
        ),
        (Value::I32(x), Value::I32(y)) => BinEval::Done(
            Value::I32(
                match op {
                    BinOp::Sub => x.wrapping_sub(*y),
                    BinOp::Mul => x.wrapping_mul(*y),
                    _ => x.wrapping_add(*y),
                },
            ),
        ),
        (Value::I64(x), Value::I64(y)) => BinEval::Done(
            Value::I64(
                match op {
                    BinOp::Sub => x.wrapping_sub(*y),
                    BinOp::Mul => x.wrapping_mul(*y),
                    _ => x.wrapping_add(*y),
                },
            ),
        ),
        (Value::U8(x), Value::U8(y)) => BinEval::Done(
            Value::U8(
                match op {
                    BinOp::Sub => x.wrapping_sub(*y),
                    BinOp::Mul => x.wrapping_mul(*y),
                    _ => x.wrapping_add(*y),
                },
            ),
        ),
        (Value::U16(x), Value::U16(y)) => BinEval::Done(
            Value::U16(
                match op {
                    BinOp::Sub => x.wrapping_sub(*y),
                    BinOp::Mul => x.wrapping_mul(*y),
                    _ => x.wrapping_add(*y),
                },
            ),
        ),
        (Value::U32(x), Value::U32(y)) => BinEval::Done(
            Value::U32(
                match op {
                    BinOp::Sub => x.wrapping_sub(*y),
                    BinOp::Mul => x.wrapping_mul(*y),
                    _ => x.wrapping_add(*y),
                },
            ),
        ),
        (Value::U64(x), Value::U64(y)) => BinEval::Done(
            Value::U64(
                match op {
                    BinOp::Sub => x.wrapping_sub(*y),
                    BinOp::Mul => x.wrapping_mul(*y),
                    _ => x.wrapping_add(*y),
                },
            ),
        ),
        (Value::Ptr(x), Value::Ptr(y)) => BinEval::Done(
            Value::Ptr(
                match op {
                    BinOp::Sub => x.wrapping_sub(*y),
                    BinOp::Mul => x.wrapping_mul(*y),
                    _ => x.wrapping_add(*y),
                },
            ),
        ),
        (Value::F32(_), Value::F32(_)) => BinEval::Pending,
        (Value::F64(_), Value::F64(_)) => BinEval::Pending,
        _ => BinEval::Fail(VmError::TypeMismatch { op, lhs: a.tag_of(), rhs: b.tag_of() }),
    }
}

fn eval_divmod(op: BinOp, a: &Value, b: &Value) -> (r: BinEval)
    requires
        op == BinOp::Div || op == BinOp::Mod,
    ensures
        r == spec_divmod(op, *a, *b),
{
    match (a, b) {
        (Value::I8(x), Value::I8(y)) => {
            let q = if op == BinOp::Mod {
                x.checked_rem(*y)
            } else {
                x.checked_div(*y)
            };
            match q {
                Option::Some(v) => BinEval::Done(Value::I8(v)),
                Option::None => BinEval::Fail(
                    if *y == 0 {
                        VmError::DivisionByZero
                    } else {
                        VmError::Overflow
                    },
                ),
            }
        },
        (Value::I16(x), Value::I16(y)) => {
            let q = if op == BinOp::Mod {
                x.checked_rem(*y)
            } else {
                x.checked_div(*y)
            };
            match q {
                Option::Some(v) => BinEval::Done(Value::I16(v)),
                Option::None => BinEval::Fail(
                    if *y == 0 {
                        VmError::DivisionByZero
                    } else {
                        VmError::Overflow
                    },
                ),
            }
        },
        (Value::I32(x), Value::I32(y)) => {
            let q = if op == BinOp::Mod {
                x.checked_rem(*y)
            } else {
                x.checked_div(*y)
            };
            match q {
                Option::Some(v) => BinEval::Done(Value::I32(v)),
                Option::None => BinEval::Fail(
                    if *y == 0 {
                        VmError::DivisionByZero
                    } else {
                        VmError::Overflow
                    },
                ),
            }
        },
        (Value::I64(x), Value::I64(y)) => {
            let q = if op == BinOp::Mod {
                x.checked_rem(*y)
            } else {
                x.checked_div(*y)
            };
            match q {
                Option::Some(v) => BinEval::Done(Value::I64(v)),
                Option::None => BinEval::Fail(
                    if *y == 0 {
                        VmError::DivisionByZero
                    } else {
                        VmError::Overflow
                    },
                ),
            }
        },
        (Value::U8(x), Value::U8(y)) => {
            if *y == 0 {
                BinEval::Fail(VmError::DivisionByZero)
            } else {
                BinEval::Done(
                    Value::U8(
                        if op == BinOp::Mod {
                            *x % *y
                        } else {
                            *x / *y
                        },
                    ),
                )
            }
        },
        (Value::U16(x), Value::U16(y)) => {
            if *y == 0 {
                BinEval::Fail(VmError::DivisionByZero)
            } else {
                BinEval::Done(
                    Value::U16(
                        if op == BinOp::Mod {
                            *x % *y
                        } else {
                            *x / *y
                        },
                    ),
                )
            }
        },
        (Value::U32(x), Value::U32(y)) => {
            if *y == 0 {
                BinEval::Fail(VmError::DivisionByZero)
            } else {
                BinEval::Done(
                    Value::U32(
                        if op == BinOp::Mod {
                            *x % *y
                        } else {
                            *x / *y
                        },
                    ),
                )
            }
        },
        (Value::U64(x), Value::U64(y)) => {
            if *y == 0 {
                BinEval::Fail(VmError::DivisionByZero)
            } else {
                BinEval::Done(
                    Value::U64(
                        if op == BinOp::Mod {
                            *x % *y
                        } else {
                            *x / *y
                        },
                    ),
                )
            }
        },
        (Value::Ptr(x), Value::Ptr(y)) => {
            if *y == 0 {
                BinEval::Fail(VmError::DivisionByZero)
            } else {
                BinEval::Done(
                    Value::Ptr(
                        if op == BinOp::Mod {
                            *x % *y
                        } else {
                            *x / *y
                        },
                    ),
                )
            }
        },
        (Value::F32(_), Value::F32(_)) => BinEval::Pending,
        (Value::F64(_), Value::F64(_)) => BinEval::Pending,
        _ => BinEval::Fail(VmError::TypeMismatch { op, lhs: a.tag_of(), rhs: b.tag_of() }),
    }
}

fn eval_bitwise(op: BinOp, a: &Value, b: &Value) -> (r: BinEval)
    requires
        op == BinOp::BitAnd || op == BinOp::BitOr || op == BinOp::BitXor,
    ensures
        r == spec_bitwise(op, *a, *b),
{
    match (a, b) {
        (Value::Bool(x), Value::Bool(y)) => BinEval::Done(
            Value::Bool(
                match op {
                    BinOp::BitOr => *x || *y,
                    BinOp::BitXor => *x != *y,
                    _ => *x && *y,
                },
            ),
        ),
        (Value::I8(x), Value::I8(y)) => BinEval::Done(
            Value::I8(
                match op {
                    BinOp::BitOr => *x | *y,
                    BinOp::BitXor => *x ^ *y,
                    _ => *x & *y,
                },
            ),
        ),
        (Value::I16(x), Value::I16(y)) => BinEval::Done(
            Value::I16(
                match op {
                    BinOp::BitOr => *x | *y,
                    BinOp::BitXor => *x ^ *y,
                    _ => *x & *y,
                },
            ),
        ),
        (Value::I32(x), Value::I32(y)) => BinEval::Done(
            Value::I32(
                match op {
                    BinOp::BitOr => *x | *y,
                    BinOp::BitXor => *x ^ *y,
                    _ => *x & *y,
                },
            ),
        ),
        (Value::I64(x), Value::I64(y)) => BinEval::Done(
            Value::I64(
                match op {
                    BinOp::BitOr => *x | *y,
                    BinOp::BitXor => *x ^ *y,
                    _ => *x & *y,
                },
            ),
        ),
        (Value::U8(x), Value::U8(y)) => BinEval::Done(
            Value::U8(
                match op {
                    BinOp::BitOr => *x | *y,
                    BinOp::BitXor => *x ^ *y,
                    _ => *x & *y,
                },
            ),
        ),
        (Value::U16(x), Value::U16(y)) => BinEval::Done(
            Value::U16(
                match op {
                    BinOp::BitOr => *x | *y,
                    BinOp::BitXor => *x ^ *y,
                    _ => *x & *y,
                },
            ),
        ),
        (Value::U32(x), Value::U32(y)) => BinEval::Done(
            Value::U32(
                match op {
                    BinOp::BitOr => *x | *y,
                    BinOp::BitXor => *x ^ *y,
                    _ => *x & *y,
                },
            ),
        ),
        (Value::U64(x), Value::U64(y)) => BinEval::Done(
            Value::U64(
                match op {
                    BinOp::BitOr => *x | *y,
                    BinOp::BitXor => *x ^ *y,
                    _ => *x & *y,
                },
            ),
        ),
        (Value::Ptr(x), Value::Ptr(y)) => BinEval::Done(
            Value::Ptr(
                match op {
                    BinOp::BitOr => *x | *y,
                    BinOp::BitXor => *x ^ *y,
                    _ => *x & *y,
                },
            ),
        ),
        _ => BinEval::Fail(VmError::TypeMismatch { op, lhs: a.tag_of(), rhs: b.tag_of() }),
    }
}

fn eval_shift(op: BinOp, a: &Value, b: &Value) -> (r: BinEval)
    requires
        op == BinOp::Shl || op == BinOp::Shr,
    ensures
        r == spec_shift(op, *a, *b),
{
    match (a, b) {
        (Value::I8(x), Value::I8(y)) => {
            let s = #[verifier::truncate] (*y as u32);
            BinEval::Done(
                Value::I8(
                    if op == BinOp::Shr {
                        x.wrapping_shr(s)
                    } else {
                        x.wrapping_shl(s)
                    },
                ),
            )
        },
        (Value::I16(x), Value::I16(y)) => {
            let s = #[verifier::truncate] (*y as u32);
            BinEval::Done(
                Value::I16(
                    if op == BinOp::Shr {
                        x.wrapping_shr(s)
                    } else {
                        x.wrapping_shl(s)
                    },
                ),
            )
        },
        (Value::I32(x), Value::I32(y)) => {
            let s = #[verifier::truncate] (*y as u32);
            BinEval::Done(
                Value::I32(
                    if op == BinOp::Shr {
                        x.wrapping_shr(s)
                    } else {
                        x.wrapping_shl(s)
                    },
                ),
            )
        },
        (Value::I64(x), Value::I64(y)) => {
            let s = #[verifier::truncate] (*y as u32);
            BinEval::Done(
                Value::I64(
                    if op == BinOp::Shr {
                        x.wrapping_shr(s)
                    } else {
                        x.wrapping_shl(s)
                    },
                ),
            )
        },
        (Value::U8(x), Value::U8(y)) => {
            let s = *y as u32;
            BinEval::Done(
                Value::U8(
                    if op == BinOp::Shr {
                        x.wrapping_shr(s)
                    } else {
                        x.wrapping_shl(s)
                    },
                ),
            )
        },
        (Value::U16(x), Value::U16(y)) => {
            let s = *y as u32;
            BinEval::Done(
                Value::U16(
                    if op == BinOp::Shr {
                        x.wrapping_shr(s)
                    } else {
                        x.wrapping_shl(s)
                    },
                ),
            )
        },
        (Value::U32(x), Value::U32(y)) => {
            let s = *y;
            BinEval::Done(
                Value::U32(
                    if op == BinOp::Shr {
                        x.wrapping_shr(s)
                    } else {
                        x.wrapping_shl(s)
                    },
                ),
            )
        },
        (Value::U64(x), Value::U64(y)) => {
            let s = #[verifier::truncate] (*y as u32);
            BinEval::Done(
                Value::U64(
                    if op == BinOp::Shr {
                        x.wrapping_shr(s)
                    } else {
                        x.wrapping_shl(s)
                    },
                ),
            )
        },
        (Value::Ptr(x), Value::Ptr(y)) => {
            let s = #[verifier::truncate] (*y as u32);
            BinEval::Done(
                Value::Ptr(
                    if op == BinOp::Shr {
                        x.wrapping_shr(s)
                    } else {
                        x.wrapping_shl(s)
                    },
                ),
            )
        },
        _ => BinEval::Fail(VmError::TypeMismatch { op, lhs: a.tag_of(), rhs: b.tag_of() }),
    }
}

fn eval_compare(op: BinOp, a: &Value, b: &Value) -> (r: bool)
    requires
        is_cmp_op(op),
    ensures
        r == spec_compare(op, *a, *b),
{
    match op {
        BinOp::Eq => *a == *b,
        BinOp::Neq => *a != *b,
        BinOp::Lt => value_lt(a, b),
        BinOp::Lte => value_le(a, b),
        BinOp::Gt => value_lt(b, a),
        _ => value_le(b, a),
    }
}

/// The successful outcome of a binary stack instruction.
#[derive(Clone, Copy, PartialEq, Eq, Structural, Debug)]
pub enum Applied {
    /// The operator produced a value, now on top of the stack.
    Done,
    /// The operator needs float arithmetic: both operands are popped
    /// and handed back for the host to combine.
    Pending(BinOp, Value, Value),
}

/// What a binary stack instruction does to the machine: pop the right
/// then the left operand, evaluate, and push the result; fail, leaving
/// the machine unchanged, on underflow or on an operator error; pop
/// both operands and report them on pending float arithmetic.
pub open spec fn binary_post(
    op: BinOp,
    pre: Machine,
    post: Machine,
    r: Result<Applied, VmError>,
) -> bool {
    &&& post.store == pre.store
    &&& post.output == pre.output
    &&& post.ip == pre.ip
    &&& post.halted == pre.halted
    &&& post.table == pre.table
    &&& match r {
        Result::Ok(a) => pre.stack@.len() >= 2 && {
            let lhs = pre.stack@[pre.stack@.len() - 2];
            let rhs = pre.stack@[pre.stack@.len() - 1];
            match a {
                Applied::Done => spec_binop(op, lhs, rhs) is Done && post.stack@
                    == pre.stack@.take(pre.stack@.len() - 2).push(spec_binop(op, lhs, rhs)->Done_0),
                Applied::Pending(op2, l, r2) => op2 == op && l == lhs && r2 == rhs && spec_binop(
                    op,
                    lhs,
                    rhs,
                ) == BinEval::Pending && post.stack@ == pre.stack@.take(pre.stack@.len() - 2),
            }
        },
        Result::Err(e) => post.stack == pre.stack && if pre.stack@.len() < 2 {
            e == VmError::StackUnderflow
        } else {
            spec_binop(
                op,
                pre.stack@[pre.stack@.len() - 2],
                pre.stack@[pre.stack@.len() - 1],
            ) == BinEval::Fail(e)
        },
    }
}

/// Pops two operands (right first), applies the operator, and pushes
/// the result; see [`binary_post`].
pub fn apply_binary(machine: &mut Machine, op: BinOp) -> (r: Result<Applied, VmError>)
    ensures
        binary_post(op, *old(machine), *final(machine), r),
{
    let len = machine.stack.len();
    if len < 2 {
        return Result::Err(VmError::StackUnderflow);
    }
    let rhs = machine.stack[len - 1];
    let lhs = machine.stack[len - 2];
    match eval_binop(op, &lhs, &rhs) {
        BinEval::Done(v) => {
            machine.stack.truncate(len - 2);
            machine.stack.push(v);
            proof {
                assert(old(machine).stack@.subrange(0, len - 2 as int) == old(machine).stack@.take(
                    len - 2 as int,
                ));
            }
            Result::Ok(Applied::Done)
        },
        BinEval::Fail(e) => Result::Err(e),
        BinEval::Pending => {
            machine.stack.truncate(len - 2);
            proof {
                assert(old(machine).stack@.subrange(0, len - 2 as int) == old(machine).stack@.take(
                    len - 2 as int,
                ));
            }
            Result::Ok(Applied::Pending(op, lhs, rhs))
        },
    }
}

/// Halt instruction: sets the halt flag.
pub fn halt(machine: &mut Machine)
    ensures
        final(machine).halted,
        final(machine).stack == old(machine).stack,
        final(machine).store == old(machine).store,
        final(machine).output == old(machine).output,
        final(machine).ip == old(machine).ip,
        final(machine).table == old(machine).table,
{
    machine.halted = true;
}

/// Push instruction: pushes the constant-pool entry named by the first
/// operand byte. Fails, leaving the machine unchanged, when there is no
/// operand byte or the index is at or beyond the pool size.
pub fn push(machine: &mut Machine, code: &Code, args: &[u8]) -> (r: Result<(), VmError>)
    ensures
        final(machine).store == old(machine).store,
        final(machine).output == old(machine).output,
        final(machine).ip == old(machine).ip,
        final(machine).halted == old(machine).halted,
        final(machine).table == old(machine).table,
        match r {
            Result::Ok(_) => args@.len() >= 1 && (args@[0] as int) < code.const_pool@.len()
                && final(machine).stack@ == old(machine).stack@.push(
                code.const_pool@[args@[0] as int],
            ),
            Result::Err(e) => final(machine).stack == old(machine).stack && if args@.len() == 0 {
                e == VmError::MissingOperand
            } else {
                (args@[0] as int) >= code.const_pool@.len() && e == VmError::OutOfBounds
            },
        },
{
    if args.len() == 0 {
        return Result::Err(VmError::MissingOperand);
    }
    let idx = args[0] as usize;
    if idx >= code.const_pool.len() {
        return Result::Err(VmError::OutOfBounds);
    }
    let v = code.const_pool[idx];
    machine.stack.push(v);
    Result::Ok(())
}

/// Pop instruction: pops the top of the operand stack and returns it.
/// Fails, leaving the machine unchanged, when the stack is empty.
pub fn pop(machine: &mut Machine) -> (r: Result<Value, VmError>)
    ensures
        final(machine).store == old(machine).store,
        final(machine).output == old(machine).output,
        final(machine).ip == old(machine).ip,
        final(machine).halted == old(machine).halted,
        final(machine).table == old(machine).table,
        match r {
            Result::Ok(v) => old(machine).stack@.len() > 0 && v == old(machine).stack@.last()
                && final(machine).stack@ == old(machine).stack@.drop_last(),
            Result::Err(e) => old(machine).stack@.len() == 0 && final(machine).stack@ == old(
                machine,
            ).stack@ && e == VmError::StackUnderflow,
        },
{
    let popped = machine.stack.pop();
    match popped {
        Option::Some(v) => {
            proof {
                assert(machine.stack@ =~= old(machine).stack@.drop_last());
            }
            Result::Ok(v)
        },
        Option::None => Result::Err(VmError::StackUnderflow),
    }
}

/// Load instruction: pushes the store slot named by the first operand
/// byte. Fails, leaving the machine unchanged, when there is no operand
/// byte or the slot is at or beyond the store's current size: only
/// store instructions grow the store, never loads.
pub fn load(machine: &mut Machine, args: &[u8]) -> (r: Result<(), VmError>)
    ensures
        final(machine).store == old(machine).store,
        final(machine).output == old(machine).output,
        final(machine).ip == old(machine).ip,
        final(machine).halted == old(machine).halted,
        final(machine).table == old(machine).table,
        match r {
            Result::Ok(_) => args@.len() >= 1 && (args@[0] as int) < old(machine).store@.len()
                && final(machine).stack@ == old(machine).stack@.push(
                old(machine).store@[args@[0] as int],
            ),
            Result::Err(e) => final(machine).stack == old(machine).stack && if args@.len() == 0 {
                e == VmError::MissingOperand
            } else {
                (args@[0] as int) >= old(machine).store@.len() && e == VmError::OutOfBounds
            },
        },
{
    if args.len() == 0 {
        return Result::Err(VmError::MissingOperand);
    }
    let idx = args[0] as usize;
    if idx >= machine.store.len() {
        return Result::Err(VmError::OutOfBounds);
    }
    let v = machine.store[idx];
    machine.stack.push(v);
    Result::Ok(())
}

/// Store instruction: pops the top of the stack into the store slot
/// named by the first operand byte, growing the store with nulls if the
/// slot is beyond its current size. Fails, leaving the machine
/// unchanged, when there is no operand byte or the stack is empty.
pub fn store(machine: &mut Machine, args: &[u8]) -> (r: Result<(), VmError>)
    ensures
        final(machine).output == old(machine).output,
        final(machine).ip == old(machine).ip,
        final(machine).halted == old(machine).halted,
        final(machine).table == old(machine).table,
        match r {
            Result::Ok(_) => args@.len() >= 1 && old(machine).stack@.len() > 0
                && final(machine).stack@ == old(machine).stack@.drop_last()
                && final(machine).store@ == store_write_grow(
                old(machine).store@,
                args@[0] as int,
                old(machine).stack@.last(),
            ),
            Result::Err(e) => final(machine).stack@ == old(machine).stack@ && final(machine).store@
                == old(machine).store@ && if args@.len() == 0 {
                e == VmError::MissingOperand
            } else {
                old(machine).stack@.len() == 0 && e == VmError::StackUnderflow
            },
        },
{
    if args.len() == 0 {
        return Result::Err(VmError::MissingOperand);
    }
    let v = match machine.stack.pop() {
        Option::Some(v) => v,
        Option::None => {
            return Result::Err(VmError::StackUnderflow);
        },
    };
    let idx = args[0] as usize;
    let ghost msnap = *machine;
    if idx < machine.store.len() {
        machine.store[idx] = v;
    } else {
        proof {
            assert(machine.store@ =~= msnap.store@ + Seq::new(
                (machine.store@.len() - msnap.store@.len()) as nat,
                |j: int| Value::Null,
            ));
        }
        while machine.store.len() < idx
            invariant
                msnap.store@.len() <= machine.store@.len() <= idx,
                machine.store@ == msnap.store@ + Seq::new(
                    (machine.store@.len() - msnap.store@.len()) as nat,
                    |j: int| Value::Null,
                ),
                machine.stack == msnap.stack,
                machine.output == msnap.output,
                machine.ip == msnap.ip,
                machine.halted == msnap.halted,
                machine.table == msnap.table,
            decreases idx - machine.store@.len(),
        {
            machine.store.push(Value::Null);
            proof {
                assert(machine.store@ =~= msnap.store@ + Seq::new(
                    (machine.store@.len() - msnap.store@.len()) as nat,
                    |j: int| Value::Null,
                ));
            }
        }
        machine.store.push(v);
    }
    proof {
        assert(machine.store@ =~= store_write_grow(msnap.store@, idx as int, v));
        assert(machine.stack@ =~= old(machine).stack@.drop_last());
    }
    Result::Ok(())
}

/// Add instruction: pop two, add, push; see [`binary_post`].
pub fn add(machine: &mut Machine) -> (r: Result<Applied, VmError>)
    ensures
        binary_post(BinOp::Add, *old(machine), *final(machine), r),
{
    apply_binary(machine, BinOp::Add)
}

/// Subtract instruction: pop two, subtract, push; see [`binary_post`].
pub fn subtract(machine: &mut Machine) -> (r: Result<Applied, VmError>)
    ensures
        binary_post(BinOp::Sub, *old(machine), *final(machine), r),
{
    apply_binary(machine, BinOp::Sub)
}

/// Multiply instruction: pop two, multiply, push; see [`binary_post`].
pub fn multiply(machine: &mut Machine) -> (r: Result<Applied, VmError>)
    ensures
        binary_post(BinOp::Mul, *old(machine), *final(machine), r),
{
    apply_binary(machine, BinOp::Mul)
}

/// Divide instruction: pop two, divide, push; see [`binary_post`].
pub fn divide(machine: &mut Machine) -> (r: Result<Applied, VmError>)
    ensures
        binary_post(BinOp::Div, *old(machine), *final(machine), r),
{
    apply_binary(machine, BinOp::Div)
}

/// Modulo instruction: pop two, take the remainder, push; see
/// [`binary_post`].
pub fn modulo(machine: &mut Machine) -> (r: Result<Applied, VmError>)
    ensures
        binary_post(BinOp::Mod, *old(machine), *final(machine), r),
{
    apply_binary(machine, BinOp::Mod)
}

/// Equality instruction: pop two, compare structurally, push the
/// boolean; see [`binary_post`].
pub fn equal(machine: &mut Machine) -> (r: Result<Applied, VmError>)
    ensures
        binary_post(BinOp::Eq, *old(machine), *final(machine), r),
{
    apply_binary(machine, BinOp::Eq)
}

/// Inequality instruction; see [`binary_post`].
pub fn n_equal(machine: &mut Machine) -> (r: Result<Applied, VmError>)
    ensures
        binary_post(BinOp::Neq, *old(machine), *final(machine), r),
{
    apply_binary(machine, BinOp::Neq)
}

/// Less-than instruction, in the structural total order; see
/// [`binary_post`].
pub fn l_than(machine: &mut Machine) -> (r: Result<Applied, VmError>)
    ensures
        binary_post(BinOp::Lt, *old(machine), *final(machine), r),
{
    apply_binary(machine, BinOp::Lt)
}

/// Less-than-or-equal instruction; see [`binary_post`].
pub fn l_than_eq(machine: &mut Machine) -> (r: Result<Applied, VmError>)
    ensures
        binary_post(BinOp::Lte, *old(machine), *final(machine), r),
{
    apply_binary(machine, BinOp::Lte)
}

/// Greater-than instruction; see [`binary_post`].
pub fn g_than(machine: &mut Machine) -> (r: Result<Applied, VmError>)
    ensures
        binary_post(BinOp::Gt, *old(machine), *final(machine), r),
{
    apply_binary(machine, BinOp::Gt)
}

/// Greater-than-or-equal instruction; see [`binary_post`].
pub fn g_than_eq(machine: &mut Machine) -> (r: Result<Applied, VmError>)
    ensures
        binary_post(BinOp::Gte, *old(machine), *final(machine), r),
{
    apply_binary(machine, BinOp::Gte)
}

/// Adding some `b` to a same-tagged integer `a` and then subtracting
/// `b` again restores `a`, including where the addition wrapped: the
/// wraparound is exact at the operand width.
pub proof fn lemma_add_sub_round_trip(a: Value, b: Value)
    requires
        a.tag() == b.tag(),
        is_int_tag(a.tag()),
    ensures
        spec_binop(BinOp::Add, a, b) is Done,
        spec_binop(BinOp::Sub, spec_binop(BinOp::Add, a, b)->Done_0, b) == BinEval::Done(a),
{
}

} // verus!
