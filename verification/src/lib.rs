//! A string calculator: parses a delimited string of integers into a sum,
//! with a small grammar of separator rules and structured, multi-fault
//! diagnostics instead of failing fast on the first problem.

pub mod calculator;
pub mod digits;
pub mod errors;
pub mod laws;
pub mod model;

pub use calculator::add;
pub use errors::Error;
pub use errors::InvalidSeparator;
pub use errors::MultipleErrorKind;
pub use errors::NegativeNumber;
pub use errors::StringCalculatorError;
