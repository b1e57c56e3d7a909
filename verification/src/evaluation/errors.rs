use crate::fhirpath::collection::Collection;
use crate::fhirpath::value::{Type, ValueView};
use std::num::ParseIntError;
use vstd::prelude::*;

verus! {

/// `std::num::ParseIntError`, the reason why a text is not an integer.  The
/// library hands such reasons on and never looks inside.
#[verifier::external_type_specification]
#[verifier::external_body]
pub struct ExParseIntError(std::num::ParseIntError);

/// Why evaluating an expression failed.
#[derive(Debug, PartialEq)]
pub enum EvaluationError {
    /// The text of a number without a dot is not a 32-bit integer; with the
    /// text and the reason.
    InvalidInteger(String, ParseIntError),
    /// The text of a number with a dot is not a decimal number; with the
    /// text.
    InvalidDecimal(String),
    /// The tree has a shape that cannot be evaluated.
    InvalidAST,
    /// A collection does not hold exactly one value of the expected type.
    ExpectedSingleton(Type),
    /// No function of this name is registered.
    FunctionUnavailable(String),
    /// A function was called on values that it does not accept; with the
    /// collection that it rejected.
    InvalidFunctionArguments(Collection),
}

/// The mathematical value of an [`EvaluationError`].
pub enum EvaluationErrorView {
    InvalidInteger(Seq<char>, ParseIntError),
    InvalidDecimal(Seq<char>),
    InvalidAST,
    ExpectedSingleton(Seq<char>),
    FunctionUnavailable(Seq<char>),
    InvalidFunctionArguments(Seq<ValueView>),
}

impl View for EvaluationError {
    type V = EvaluationErrorView;

    open spec fn view(&self) -> EvaluationErrorView {
        match self {
            EvaluationError::InvalidInteger(text, cause) => EvaluationErrorView::InvalidInteger(
                text@,
                *cause,
            ),
            EvaluationError::InvalidDecimal(text) => EvaluationErrorView::InvalidDecimal(text@),
            EvaluationError::InvalidAST => EvaluationErrorView::InvalidAST,
            EvaluationError::ExpectedSingleton(expected) => EvaluationErrorView::ExpectedSingleton(
                expected@,
            ),
            EvaluationError::FunctionUnavailable(name) => EvaluationErrorView::FunctionUnavailable(
                name@,
            ),
            EvaluationError::InvalidFunctionArguments(rejected) =>
                EvaluationErrorView::InvalidFunctionArguments(rejected@),
        }
    }
}

} // verus!
