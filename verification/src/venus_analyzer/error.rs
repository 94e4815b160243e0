//! The analyzer crate reports errors with the compiler's error type.

pub use crate::analyzer::error::{VenusError, VenusErrorHandler};
