pub mod text;
pub mod errors;
pub mod error_mgr;
pub mod program;
