//! A small register machine with its tools: the opcode table, a lexer and
//! an assembler for its assembly text, the machine that runs the bytecode,
//! and the decisions of an interactive session.

pub mod assembler;
pub mod instructions;
pub mod repl;
pub mod text;
pub mod vm;
