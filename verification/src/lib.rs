//! Emulator for a subtract-and-branch-if-borrow (RSSB) single-instruction
//! machine: 256 byte-wide cells, the program counter aliased to cell 0, the
//! accumulator to cell 1, and a hardwired zero register at cell 2.

pub mod arith;
pub mod dump;
pub mod engine;
pub mod memory;
