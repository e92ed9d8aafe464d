pub mod lex;
pub mod parser;
pub mod token;
