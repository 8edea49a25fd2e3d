//! alescript: the lexer and parser of a small language whose values ferment
//! over time.
pub mod text;
pub mod numeral;
pub mod token;
pub mod lexer;
pub mod ast;
pub mod parser;
pub mod runtime_error;
pub mod storage;
