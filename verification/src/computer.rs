//! The machine: instruction words, the CPU that executes them, and the
//! memories it is wired to.

pub mod instruction;
pub mod cpu;
pub mod memory;
pub mod computer;
