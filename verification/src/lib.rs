//! A small register+stack virtual machine and its textual assembler.
//!
//! The machine executes a flat byte stream: each instruction is an opcode
//! byte followed by register, address or tagged-immediate operands. Runtime
//! state is a sixteen-slot register file, an unbounded value stack, a heap
//! of tagged cells and two comparison flags. Host effects — streams, files,
//! the process exit a panic asks for, float arithmetic — leave the machine
//! as explicit host calls that the embedding program serves.
//!
//! The assembler translates whitespace-delimited source text to that byte
//! stream in a single pass, resolving symbolic labels in a deferred patch
//! pass and leaving float literals as payload slots for the host's float
//! unit.
use vstd::prelude::*;

pub mod assembler;
pub mod encoding;
pub mod envelope;
pub mod instr;
pub mod vm;
pub mod value;

verus! {

/// One slot of the register file, identified by its index.
pub type Register = usize;

/// An index into instruction memory or into the heap.
pub type Address = usize;

} // verus!
