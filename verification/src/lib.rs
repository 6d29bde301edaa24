//! A gate-level emulator for a simple 16-bit von Neumann computer built from
//! a single NAND primitive, together with a two-pass assembler that turns
//! symbolic assembly text into machine words for that computer.

pub mod primitive;
pub mod gates;
pub mod infrastructure;
pub mod sequential;
pub mod computer;
pub mod assembly;
