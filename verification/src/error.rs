//! Failure conditions of the virtual machine.
//!
//! Two tiers: a `TypeMismatch` raised by an operator is recoverable in
//! principle (the baseline engine escalates it to an instruction failure),
//! while the remaining variants are fatal conditions of a malformed
//! program. A [`Fault`] pairs an error with the byte offset and source
//! line of the failing instruction.

use vstd::prelude::*;

use crate::ops::BinOp;
use crate::value::Tag;

verus! {

/// A failure raised while decoding or executing a single instruction.
#[derive(Clone, Copy, PartialEq, Eq, Structural, Debug)]
pub enum VmError {
    /// An operator was applied to an unsupported pair of operand types;
    /// carries the operator and both operand tags.
    TypeMismatch { op: BinOp, lhs: Tag, rhs: Tag },
    /// Integer division or modulo with a zero divisor.
    DivisionByZero,
    /// Signed integer division or modulo whose result does not fit the
    /// operand width (dividing the minimum value by negative one).
    Overflow,
    /// The opcode byte has no entry in the instruction registry.
    InvalidOpcode { opcode: u8 },
    /// A pop from an empty operand stack.
    StackUnderflow,
    /// A store or constant-pool index at or beyond the current size, or
    /// an instruction whose operand bytes run past the end of the code.
    OutOfBounds,
    /// An instruction that needs an operand byte was registered with
    /// arity zero, so there is no operand to read.
    MissingOperand,
}

/// A fatal failure of a run, with the byte offset and recorded source
/// line of the instruction that failed.
#[derive(Clone, Copy, PartialEq, Eq, Structural, Debug)]
pub struct Fault {
    pub offset: usize,
    pub line: usize,
    pub error: VmError,
}

} // verus!
