//! A minimal stack-machine bytecode interpreter.
//!
//! The engine in [`evm`] owns the machine state (program counter, operand
//! stack, byte memory, loaded code) and drives the fetch-decode-execute
//! loop; the instruction set in [`opcode`] gives each opcode its decode
//! rule and its state transformation.

pub mod evm;
pub mod opcode;
