pub mod chars;
pub mod lexer;
