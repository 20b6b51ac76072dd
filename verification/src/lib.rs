pub mod ast;
pub mod generator;
pub mod lexer;
pub mod parser;
pub mod text;
pub mod token;
