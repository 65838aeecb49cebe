pub mod token;
pub mod ast;
pub mod errors;
pub mod parser;
