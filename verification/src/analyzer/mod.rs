pub mod error;
pub mod scopes;
pub mod typing;
pub mod analyzer;
pub mod eval;
