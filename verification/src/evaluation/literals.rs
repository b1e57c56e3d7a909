//! The values of number literals.
//!
//! A number is kept as the text that was written.  Text with a dot denotes
//! a decimal number, text without one a 32-bit integer.

use super::errors::{EvaluationError, EvaluationErrorView};
use crate::fhirpath::collection::Collection;
use crate::fhirpath::value::{Value, ValueView};
use crate::parser::lexer::is_digit;
use crate::text::contains_char;
use std::num::ParseIntError;
use vstd::prelude::*;

verus! {

/// `rust_decimal::Error`, the reason why a text is not a decimal number.
/// The library only tells it from success.
#[verifier::external_type_specification]
#[verifier::external_body]
pub struct ExDecimalError(rust_decimal::Error);

/// What an evaluation step returned, as mathematical values.
pub open spec fn outcome(result: Result<Collection, EvaluationError>) -> Result<
    Seq<ValueView>,
    EvaluationErrorView,
> {
    match result {
        Ok(collection) => Ok(collection@),
        Err(error) => Err(error@),
    }
}

/// Whether every character of `text` is a digit `0` to `9`.
pub open spec fn all_digits(text: Seq<char>) -> bool {
    forall|i: int| 0 <= i < text.len() ==> is_digit(#[trigger] text[i])
}

/// The number that a sequence of decimal digits denotes.
pub open spec fn digits_value(digits: Seq<char>) -> nat
    decreases digits.len(),
{
    if digits.len() == 0 {
        0
    } else {
        (10 * digits_value(digits.drop_last()) + (digits.last() as u32 - '0' as u32)) as nat
    }
}

/// The integer that `text` denotes: an optional sign, `+` or `-`, followed
/// by one or more digits `0` to `9` and nothing else.
pub open spec fn integer_value(text: Seq<char>) -> Option<int> {
    let signed = text.len() > 0 && (text[0] == '+' || text[0] == '-');
    let digits = if signed {
        text.skip(1)
    } else {
        text
    };
    if digits.len() == 0 || !all_digits(digits) {
        None
    } else if signed && text[0] == '-' {
        Some(-(digits_value(digits) as int))
    } else {
        Some(digits_value(digits) as int)
    }
}

/// Whether `text` denotes an integer that fits in 32 bits.
pub open spec fn is_i32_text(text: Seq<char>) -> bool {
    integer_value(text) matches Some(n) && i32::MIN <= n <= i32::MAX
}

/// The reason that `str::parse::<i32>` gives when it rejects `text`.
pub uninterp spec fn integer_parse_failure(text: Seq<char>) -> ParseIntError;

/// What parsing `text` as a 32-bit integer gives: its value where it denotes
/// one that fits, else the reason why it does not.
pub open spec fn parsed_i32(text: Seq<char>) -> Result<i32, ParseIntError> {
    if is_i32_text(text) {
        Ok(integer_value(text)->0 as i32)
    } else {
        Err(integer_parse_failure(text))
    }
}

/// What `rust_decimal::Decimal::from_str_radix` returns for `text` and the
/// radix 10.
pub uninterp spec fn parsed_decimal(text: Seq<char>) -> Result<
    rust_decimal::Decimal,
    rust_decimal::Error,
>;

/// Calls `str::parse::<i32>`.  It accepts an optional sign, `+` or `-`,
/// followed by one or more decimal digits whose value fits in 32 bits, and
/// returns that value.  It rejects every other text, with a reason that
/// depends on the text alone.
#[verifier::external_body]
fn parse_i32(text: &str) -> (parsed: Result<i32, ParseIntError>)
    ensures
        match parsed {
            Ok(n) => is_i32_text(text@) && n == integer_value(text@)->0,
            Err(cause) => !is_i32_text(text@) && cause == integer_parse_failure(text@),
        },
{
    text.parse::<i32>()
}

/// Calls `rust_decimal::Decimal::from_str_radix` with the radix 10.  What it
/// returns depends on the text alone and goes by the name
/// [`parsed_decimal`]; nothing more is claimed of it.
#[verifier::external_body]
fn parse_decimal(text: &str) -> (parsed: Result<rust_decimal::Decimal, rust_decimal::Error>)
    ensures
        parsed == parsed_decimal(text@),
{
    rust_decimal::Decimal::from_str_radix(text, 10)
}

/// The value of the integer literal `raw`, given what parsing it returned.
pub open spec fn integer_outcome(raw: Seq<char>, parsed: Result<i32, ParseIntError>) -> Result<
    Seq<ValueView>,
    EvaluationErrorView,
> {
    match parsed {
        Ok(n) => Ok(seq![ValueView::Integer(n)]),
        Err(cause) => Err(EvaluationErrorView::InvalidInteger(raw, cause)),
    }
}

/// The value of the decimal literal `raw`, given what parsing it returned.
pub open spec fn decimal_outcome(
    raw: Seq<char>,
    parsed: Result<rust_decimal::Decimal, rust_decimal::Error>,
) -> Result<Seq<ValueView>, EvaluationErrorView> {
    match parsed {
        Ok(d) => Ok(seq![ValueView::Decimal(d)]),
        Err(_) => Err(EvaluationErrorView::InvalidDecimal(raw)),
    }
}

/// The value of the number literal `raw`.
pub open spec fn number_value(raw: Seq<char>) -> Result<Seq<ValueView>, EvaluationErrorView> {
    if raw.contains('.') {
        decimal_outcome(raw, parsed_decimal(raw))
    } else {
        integer_outcome(raw, parsed_i32(raw))
    }
}

/// The collection for an integer literal, from what parsing its text gave.
pub fn integer_literal(raw: &str, parsed: Result<i32, ParseIntError>) -> (result: Result<
    Collection,
    EvaluationError,
>)
    ensures
        outcome(result) == integer_outcome(raw@, parsed),
{
    match parsed {
        Ok(n) => Ok(Collection::from(Value::Integer(n))),
        Err(cause) => Err(EvaluationError::InvalidInteger(raw.to_owned(), cause)),
    }
}

/// The collection for a decimal literal, from what parsing its text gave.
pub fn decimal_literal(
    raw: &str,
    parsed: Result<rust_decimal::Decimal, rust_decimal::Error>,
) -> (result: Result<Collection, EvaluationError>)
    ensures
        outcome(result) == decimal_outcome(raw@, parsed),
{
    match parsed {
        Ok(d) => Ok(Collection::from(Value::Decimal(d))),
        Err(_) => Err(EvaluationError::InvalidDecimal(raw.to_owned())),
    }
}

/// The collection for the number literal `raw`: one decimal number if the
/// text holds a dot, else one integer.
pub fn number_literal(raw: &str) -> (result: Result<Collection, EvaluationError>)
    ensures
        outcome(result) == number_value(raw@),
{
    if contains_char(raw, '.') {
        decimal_literal(raw, parse_decimal(raw))
    } else {
        integer_literal(raw, parse_i32(raw))
    }
}

} // verus!
