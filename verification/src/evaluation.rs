//! The evaluator: walks a syntax tree and computes its collection of values.

pub mod errors;
pub mod functions;
pub mod literals;
pub mod visitor;

pub use errors::{EvaluationError, EvaluationErrorView};
pub use functions::Function;
pub use visitor::Visitor;
