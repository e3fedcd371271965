pub mod ast;
pub mod evalulator;
pub mod enviorment;
pub mod float;
pub mod laws;
pub mod lexer;
pub mod parser;
pub mod runner;
pub mod text;
pub mod token;
pub mod types;
