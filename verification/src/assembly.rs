//! The two-pass assembler: parse the source into symbolic lines, build the
//! label and variable tables, and emit machine words.

pub mod symbolic;
pub mod parser;
pub mod assemble;
