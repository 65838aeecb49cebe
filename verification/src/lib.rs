//! Galyak: the lexer, parser, error reporting and variable storage of the
//! Galyak scripting language.

pub mod compiler;
pub mod pre;
pub mod runtime;
pub mod program;
pub mod error_mgr;
