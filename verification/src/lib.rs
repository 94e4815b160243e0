//! VenusScript: lexer, parsers, semantic analyzers and the float-free parts of
//! the runtime, with their contracts.

pub mod text;

pub mod lexer;
pub mod parser;
pub mod venus_parser;
pub mod analyzer;
pub mod venus_analyzer;
