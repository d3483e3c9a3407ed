pub mod ast;
pub mod error;
pub mod grammar;
pub mod interpreter;
pub mod laws;
pub mod lexer;
pub mod parser;
pub mod semantics;
pub mod text;
pub mod token;
pub mod value;
