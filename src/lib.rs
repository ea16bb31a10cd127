pub mod text;
pub mod parse_result;
pub mod ast;
pub mod lexer;
pub mod parser;
pub mod bytecode;
pub mod compiler;
pub mod vm;
pub mod interpreter;
