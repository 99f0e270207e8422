//! The baseline instruction set: the fixed opcodes that the default
//! instruction registry provides.

use vstd::prelude::*;

use crate::instruction::OpKind;
use crate::ops::BinOp;

verus! {

/// An opcode of the baseline instruction set.
///
/// `Push`, `Load` and `Store` take one operand byte; every other
/// baseline instruction is stack-addressed and takes none.
#[derive(Clone, Copy, PartialEq, Eq, Structural, Debug)]
pub enum Opcode {
    Halt,
    Push,
    Pop,
    Load,
    Store,
    Add,
    Sub,
    Mul,
    Div,
    Mod,
    Eq,
    Neq,
    Lt,
    Lte,
    Gt,
    Gte,
}

impl Opcode {
    /// The encoded opcode byte.
    pub open spec fn spec_code(self) -> u8 {
        match self {
            Opcode::Halt => 0,
            Opcode::Push => 1,
            Opcode::Pop => 2,
            Opcode::Load => 3,
            Opcode::Store => 4,
            Opcode::Add => 5,
            Opcode::Sub => 6,
            Opcode::Mul => 7,
            Opcode::Div => 8,
            Opcode::Mod => 9,
            Opcode::Eq => 10,
            Opcode::Neq => 11,
            Opcode::Lt => 12,
            Opcode::Lte => 13,
            Opcode::Gt => 14,
            Opcode::Gte => 15,
        }
    }

    /// Executable form of [`Opcode::spec_code`].
    pub fn code(&self) -> (b: u8)
        ensures
            b == self.spec_code(),
    {
        match self {
            Opcode::Halt => 0,
            Opcode::Push => 1,
            Opcode::Pop => 2,
            Opcode::Load => 3,
            Opcode::Store => 4,
            Opcode::Add => 5,
            Opcode::Sub => 6,
            Opcode::Mul => 7,
            Opcode::Div => 8,
            Opcode::Mod => 9,
            Opcode::Eq => 10,
            Opcode::Neq => 11,
            Opcode::Lt => 12,
            Opcode::Lte => 13,
            Opcode::Gt => 14,
            Opcode::Gte => 15,
        }
    }

    /// The number of operand bytes that follow the opcode byte.
    pub open spec fn spec_offset(self) -> usize {
        match self {
            Opcode::Push => 1,
            Opcode::Load => 1,
            Opcode::Store => 1,
            _ => 0,
        }
    }

    /// Executable form of [`Opcode::spec_offset`]: the operand-byte
    /// count that decoding adds to the instruction pointer.
    pub fn get_offset(&self) -> (n: usize)
        ensures
            n == self.spec_offset(),
    {
        match self {
            Opcode::Push => 1,
            Opcode::Load => 1,
            Opcode::Store => 1,
            _ => 0,
        }
    }

    /// The behaviour of this opcode.
    pub open spec fn spec_kind(self) -> OpKind {
        match self {
            Opcode::Halt => OpKind::Halt,
            Opcode::Push => OpKind::Push,
            Opcode::Pop => OpKind::Pop,
            Opcode::Load => OpKind::Load,
            Opcode::Store => OpKind::Store,
            Opcode::Add => OpKind::Binary(BinOp::Add),
            Opcode::Sub => OpKind::Binary(BinOp::Sub),
            Opcode::Mul => OpKind::Binary(BinOp::Mul),
            Opcode::Div => OpKind::Binary(BinOp::Div),
            Opcode::Mod => OpKind::Binary(BinOp::Mod),
            Opcode::Eq => OpKind::Binary(BinOp::Eq),
            Opcode::Neq => OpKind::Binary(BinOp::Neq),
            Opcode::Lt => OpKind::Binary(BinOp::Lt),
            Opcode::Lte => OpKind::Binary(BinOp::Lte),
            Opcode::Gt => OpKind::Binary(BinOp::Gt),
            Opcode::Gte => OpKind::Binary(BinOp::Gte),
        }
    }

    /// Executable form of [`Opcode::spec_kind`].
    pub fn kind(&self) -> (k: OpKind)
        ensures
            k == self.spec_kind(),
    {
        match self {
            Opcode::Halt => OpKind::Halt,
            Opcode::Push => OpKind::Push,
            Opcode::Pop => OpKind::Pop,
            Opcode::Load => OpKind::Load,
            Opcode::Store => OpKind::Store,
            Opcode::Add => OpKind::Binary(BinOp::Add),
            Opcode::Sub => OpKind::Binary(BinOp::Sub),
            Opcode::Mul => OpKind::Binary(BinOp::Mul),
            Opcode::Div => OpKind::Binary(BinOp::Div),
            Opcode::Mod => OpKind::Binary(BinOp::Mod),
            Opcode::Eq => OpKind::Binary(BinOp::Eq),
            Opcode::Neq => OpKind::Binary(BinOp::Neq),
            Opcode::Lt => OpKind::Binary(BinOp::Lt),
            Opcode::Lte => OpKind::Binary(BinOp::Lte),
            Opcode::Gt => OpKind::Binary(BinOp::Gt),
            Opcode::Gte => OpKind::Binary(BinOp::Gte),
        }
    }

    /// The upper-case mnemonic, as the assembler and disassembler spell it.
    pub open spec fn spec_mnemonic(self) -> Seq<char> {
        match self {
            Opcode::Halt => "HALT"@,
            Opcode::Push => "PUSH"@,
            Opcode::Pop => "POP"@,
            Opcode::Load => "LOAD"@,
            Opcode::Store => "STORE"@,
            Opcode::Add => "ADD"@,
            Opcode::Sub => "SUB"@,
            Opcode::Mul => "MUL"@,
            Opcode::Div => "DIV"@,
            Opcode::Mod => "MOD"@,
            Opcode::Eq => "EQ"@,
            Opcode::Neq => "NEQ"@,
            Opcode::Lt => "LT"@,
            Opcode::Lte => "LTE"@,
            Opcode::Gt => "GT"@,
            Opcode::Gte => "GTE"@,
        }
    }

    /// Executable form of [`Opcode::spec_mnemonic`].
    pub fn mnemonic(&self) -> (s: &'static str)
        ensures
            s@ == self.spec_mnemonic(),
    {
        match self {
            Opcode::Halt => "HALT",
            Opcode::Push => "PUSH",
            Opcode::Pop => "POP",
            Opcode::Load => "LOAD",
            Opcode::Store => "STORE",
            Opcode::Add => "ADD",
            Opcode::Sub => "SUB",
            Opcode::Mul => "MUL",
            Opcode::Div => "DIV",
            Opcode::Mod => "MOD",
            Opcode::Eq => "EQ",
            Opcode::Neq => "NEQ",
            Opcode::Lt => "LT",
            Opcode::Lte => "LTE",
            Opcode::Gt => "GT",
            Opcode::Gte => "GTE",
        }
    }
}

/// The baseline instruction at position `i` of the default registry.
pub open spec fn baseline(i: int) -> Opcode {
    if i == 0 {
        Opcode::Halt
    } else if i == 1 {
        Opcode::Push
    } else if i == 2 {
        Opcode::Pop
    } else if i == 3 {
        Opcode::Load
    } else if i == 4 {
        Opcode::Store
    } else if i == 5 {
        Opcode::Add
    } else if i == 6 {
        Opcode::Sub
    } else if i == 7 {
        Opcode::Mul
    } else if i == 8 {
        Opcode::Div
    } else if i == 9 {
        Opcode::Mod
    } else if i == 10 {
        Opcode::Eq
    } else if i == 11 {
        Opcode::Neq
    } else if i == 12 {
        Opcode::Lt
    } else if i == 13 {
        Opcode::Lte
    } else if i == 14 {
        Opcode::Gt
    } else {
        Opcode::Gte
    }
}

} // verus!
