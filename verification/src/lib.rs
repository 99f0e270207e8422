//! A small verified bytecode virtual machine: tagged runtime values, a
//! bytecode container with a static disassembler, a pluggable instruction
//! registry, type-checked operator semantics, a stack-and-store execution
//! engine, and a line-oriented textual assembler.
//!
//! Floating-point payloads are carried as raw bit patterns; the arithmetic
//! on them is delegated to the embedding host, which drives the engine
//! through [`machine::Machine::run`] and [`machine::Machine::resume`].

pub mod code;
pub mod constant;
pub mod error;
pub mod instruction;
pub mod instruction_table;
pub mod machine;
pub mod opcode;
pub mod ops;
pub mod reader;
pub mod value;

pub use value::Tag;
pub use value::Value;
