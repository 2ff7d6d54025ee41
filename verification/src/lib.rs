//! A verified interpreter for the CHIP-8 virtual machine.
//!
//! The machine owns all mutable state (memory, registers, program counter,
//! call stack, timers, frame buffer) and advances it one instruction at a
//! time.  Decoding and the per-opcode semantics are stated as spec functions
//! over a mathematical view of the state, and the executable step function is
//! proved to follow them exactly.

pub mod chip;
pub mod decode;
pub mod laws;
