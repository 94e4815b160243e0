pub mod error;
pub mod analyzer;
