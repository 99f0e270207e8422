//! A single registrable instruction: an opcode byte, a mnemonic, a fixed
//! operand-byte arity, and its behaviour.
//!
//! Behaviour is a tagged variant rather than a function pointer, so the
//! execution engine's dispatch is itself verified code.

use vstd::prelude::*;

use crate::ops::BinOp;

verus! {

/// The behaviour of an instruction, dispatched by the execution engine.
#[derive(Clone, Copy, PartialEq, Eq, Structural, Debug)]
pub enum OpKind {
    /// Set the halt flag.
    Halt,
    /// Push the constant-pool entry named by the operand byte.
    Push,
    /// Discard the top of the operand stack.
    Pop,
    /// Push the store slot named by the operand byte.
    Load,
    /// Pop into the store slot named by the operand byte, growing the
    /// store with nulls if the slot is beyond its current size.
    Store,
    /// Rewrite the instruction pointer to the operand byte.
    Jump,
    /// Pop the top of the stack onto the output side-channel.
    Print,
    /// Pop two operands, apply the operator, push the result.
    Binary(BinOp),
}

/// A named instruction with a fixed operand-byte arity.
pub struct Instruction {
    pub op_code: u8,
    pub name: String,
    pub arity: u8,
    pub kind: OpKind,
}

impl Instruction {
    /// Builds an instruction from its parts.
    pub fn new(op_code: u8, n_str: &str, arity: u8, kind: OpKind) -> (r: Instruction)
        ensures
            r.op_code == op_code,
            r.name@ == n_str@,
            r.arity == arity,
            r.kind == kind,
    {
        Instruction { op_code, name: n_str.to_owned(), arity, kind }
    }
}

} // verus!
