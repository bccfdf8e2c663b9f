//! An assembler for the Pep/8 instruction set: source lines are split into
//! tokens, read as instructions and directives, and encoded in two passes, the
//! first giving every label its address and the second emitting the bytes.

pub mod address;
pub mod assembler;
pub mod dotcommand;
pub mod instruction;
pub mod lexer;
pub mod register;
pub mod text;
pub mod types;
