pub mod token;
pub mod scanner;
pub mod rules;
pub mod comments;
