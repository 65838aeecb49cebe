pub mod types;
pub mod errors;
pub mod storage;
