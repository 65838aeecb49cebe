pub mod memory;
pub mod func;
pub mod interpreter;
