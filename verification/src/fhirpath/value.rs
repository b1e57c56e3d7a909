//! Typed values.

use super::data_tree::{node_type_of, DataNode, DataNodeView};
use crate::text::{chars_of, push_chars};
use vstd::prelude::*;

verus! {

/// The tag that names the data type of a value.
pub type Type = &'static str;

/// `rust_decimal::Decimal`, a decimal number of up to 96 bits with a scale.
/// The library stores and hands on such numbers and never looks inside.
#[verifier::external_type_specification]
#[verifier::external_body]
pub struct ExDecimal(rust_decimal::Decimal);

/// `chrono::NaiveDate`, a calendar date.  The library stores and hands on
/// such dates and never looks inside.
#[verifier::external_type_specification]
#[verifier::external_body]
pub struct ExNaiveDate(chrono::NaiveDate);

/// `chrono::NaiveTime`, a time of day.  The library stores and hands on such
/// times and never looks inside.
#[verifier::external_type_specification]
#[verifier::external_body]
pub struct ExNaiveTime(chrono::NaiveTime);

/// `chrono::NaiveDateTime`, a date with a time of day.  The library stores
/// and hands on such values and never looks inside.
#[verifier::external_type_specification]
#[verifier::external_body]
pub struct ExNaiveDateTime(chrono::NaiveDateTime);

/// `chrono::FixedOffset`, a fixed offset from UTC.  The library stores and
/// hands on such offsets and never looks inside.
#[verifier::external_type_specification]
#[verifier::external_body]
pub struct ExFixedOffset(chrono::FixedOffset);

/// A point in time together with the fixed offset from UTC that it was
/// written with.
#[derive(PartialEq, Debug, Clone, Copy)]
pub struct OffsetDateTime {
    /// The date and time of day in UTC.
    pub utc: chrono::NaiveDateTime,
    pub offset: chrono::FixedOffset,
}

/// A number with its unit.
#[derive(PartialEq, Debug)]
pub struct Quantity {
    value: rust_decimal::Decimal,
    unit: String,
}

/// The mathematical value of a [`Quantity`].
pub struct QuantityView {
    pub value: rust_decimal::Decimal,
    pub unit: Seq<char>,
}

impl View for Quantity {
    type V = QuantityView;

    closed spec fn view(&self) -> QuantityView {
        QuantityView { value: self.value, unit: self.unit@ }
    }
}

impl Clone for Quantity {
    fn clone(&self) -> (copy: Self)
        ensures
            copy@ == self@,
    {
        Quantity { value: self.value, unit: self.unit.clone() }
    }
}

impl Quantity {
    pub fn new(value: rust_decimal::Decimal, unit: &str) -> (quantity: Self)
        ensures
            quantity@ == (QuantityView { value, unit: unit@ }),
    {
        Quantity { value, unit: unit.to_owned() }
    }
}

/// One value of an evaluation.
#[derive(PartialEq, Debug)]
pub enum Value {
    Boolean(bool),
    String(String),
    Integer(i32),
    Decimal(rust_decimal::Decimal),
    Date(chrono::NaiveDate),
    Time(chrono::NaiveTime),
    DateTime(OffsetDateTime),
    Quantity(Quantity),
    /// A node of a tree of structured data.
    Complex(Box<DataNode>),
    /// A value whose own type is deliberately left open.
    Any(Box<Value>),
}

/// The mathematical value of a [`Value`].
pub enum ValueView {
    Boolean(bool),
    String(Seq<char>),
    Integer(i32),
    Decimal(rust_decimal::Decimal),
    Date(chrono::NaiveDate),
    Time(chrono::NaiveTime),
    DateTime(OffsetDateTime),
    Quantity(QuantityView),
    Complex(Box<DataNodeView>),
    Any(Box<ValueView>),
}

pub const BOOLEAN: Type = "System.Boolean";

pub const STRING: Type = "System.String";

pub const INTEGER: Type = "System.Integer";

pub const DECIMAL: Type = "System.Decimal";

pub const DATE: Type = "System.Date";

pub const TIME: Type = "System.Time";

pub const DATETIME: Type = "System.DateTime";

pub const QUANTITY: Type = "System.Quantity";

pub const ANY: Type = "System.Any";

impl View for Value {
    type V = ValueView;

    open spec fn view(&self) -> ValueView
        decreases self,
    {
        match self {
            Value::Boolean(b) => ValueView::Boolean(*b),
            Value::String(s) => ValueView::String(s@),
            Value::Integer(n) => ValueView::Integer(*n),
            Value::Decimal(d) => ValueView::Decimal(*d),
            Value::Date(d) => ValueView::Date(*d),
            Value::Time(t) => ValueView::Time(*t),
            Value::DateTime(t) => ValueView::DateTime(*t),
            Value::Quantity(q) => ValueView::Quantity(q@),
            Value::Complex(node) => ValueView::Complex(Box::new((**node).view())),
            Value::Any(inner) => ValueView::Any(Box::new((**inner).view())),
        }
    }
}

impl DeepView for Value {
    type V = ValueView;

    open spec fn deep_view(&self) -> ValueView {
        self@
    }
}

/// The data type of a value: a fixed tag for each kind of scalar, and for a
/// complex value the type of its node.
pub open spec fn data_type_of(value: ValueView) -> Seq<char>
    decreases value,
{
    match value {
        ValueView::Boolean(_) => BOOLEAN@,
        ValueView::String(_) => STRING@,
        ValueView::Integer(_) => INTEGER@,
        ValueView::Decimal(_) => DECIMAL@,
        ValueView::Date(_) => DATE@,
        ValueView::Time(_) => TIME@,
        ValueView::DateTime(_) => DATETIME@,
        ValueView::Quantity(_) => QUANTITY@,
        ValueView::Complex(node) => node_type_of(*node),
        ValueView::Any(_) => ANY@,
    }
}

/// Scalars of different kinds have different data types: the tags of the
/// nine kinds are pairwise different.
pub proof fn lemma_scalar_types_differ()
    ensures
        forall|a: ValueView, b: ValueView|
            #![trigger data_type_of(a), data_type_of(b)]
            a !is Complex && b !is Complex && data_type_of(a) == data_type_of(b) ==> same_kind(
                a,
                b,
            ),
{
    reveal_strlit("System.Boolean");
    reveal_strlit("System.String");
    reveal_strlit("System.Integer");
    reveal_strlit("System.Decimal");
    reveal_strlit("System.Date");
    reveal_strlit("System.Time");
    reveal_strlit("System.DateTime");
    reveal_strlit("System.Quantity");
    reveal_strlit("System.Any");
    assert(BOOLEAN@.len() == 14 && BOOLEAN@[7] == 'B');
    assert(STRING@.len() == 13);
    assert(INTEGER@.len() == 14 && INTEGER@[7] == 'I');
    assert(DECIMAL@.len() == 14 && DECIMAL@[7] == 'D');
    assert(DATE@.len() == 11 && DATE@[7] == 'D');
    assert(TIME@.len() == 11 && TIME@[7] == 'T');
    assert(DATETIME@.len() == 15 && DATETIME@[7] == 'D');
    assert(QUANTITY@.len() == 15 && QUANTITY@[7] == 'Q');
    assert(ANY@.len() == 10);
}

/// Whether two values are of the same kind: both booleans, both strings,
/// and so on.
pub open spec fn same_kind(a: ValueView, b: ValueView) -> bool {
    ||| a is Boolean && b is Boolean
    ||| a is String && b is String
    ||| a is Integer && b is Integer
    ||| a is Decimal && b is Decimal
    ||| a is Date && b is Date
    ||| a is Time && b is Time
    ||| a is DateTime && b is DateTime
    ||| a is Quantity && b is Quantity
    ||| a is Complex && b is Complex
    ||| a is Any && b is Any
}

/// A string value as it is written in an expression: between single quotes.
pub open spec fn quoted(text: Seq<char>) -> Seq<char> {
    seq!['\''] + text + seq!['\'']
}

impl Clone for Value {
    fn clone(&self) -> (copy: Self)
        ensures
            copy@ == self@,
        decreases self,
    {
        match self {
            Value::Boolean(b) => Value::Boolean(*b),
            Value::String(s) => Value::String(s.clone()),
            Value::Integer(n) => Value::Integer(*n),
            Value::Decimal(d) => Value::Decimal(*d),
            Value::Date(d) => Value::Date(*d),
            Value::Time(t) => Value::Time(*t),
            Value::DateTime(t) => Value::DateTime(*t),
            Value::Quantity(q) => Value::Quantity(q.clone()),
            Value::Complex(node) => Value::Complex(Box::new((**node).clone())),
            Value::Any(inner) => Value::Any(Box::new((**inner).clone())),
        }
    }
}

impl Value {
    pub fn data_type(&self) -> (t: Type)
        ensures
            t@ == data_type_of(self@),
        decreases self,
    {
        match self {
            Self::Boolean(_) => BOOLEAN,
            Self::String(_) => STRING,
            Self::Integer(_) => INTEGER,
            Self::Decimal(_) => DECIMAL,
            Self::Date(_) => DATE,
            Self::Time(_) => TIME,
            Self::DateTime(_) => DATETIME,
            Self::Quantity(_) => QUANTITY,
            Self::Complex(data) => data.data_type(),
            Self::Any(_) => ANY,
        }
    }

    /// Whether two values are equal.  Values of different data types are
    /// unequal.  Among values of one data type the comparison is defined
    /// for strings, which are equal when they hold the same text.
    pub fn equal(&self, other: &Value) -> (result: Option<bool>)
        requires
            data_type_of(self@) != data_type_of(other@) || self@ is String,
        ensures
            result == Some(self@ == other@),
    {
        if !self.data_type().eq(other.data_type()) {
            return Some(false);
        }
        match self {
            Value::String(text) => {
                if let Value::String(other_text) = other {
                    return Some(text.as_str().eq(other_text.as_str()));
                }
                Some(false)
            },
            _ => vstd::pervasive::unreached(),
        }
    }

    /// The value as it is written in an expression.  This is defined for
    /// strings, which stand between single quotes.
    pub fn to_string(&self) -> (text: String)
        requires
            self@ is String,
        ensures
            self@ matches ValueView::String(s) && text@ == quoted(s),
    {
        match self {
            Value::String(s) => {
                let mut text = String::new();
                text.push('\'');
                let chars = chars_of(s.as_str());
                push_chars(&mut text, &chars);
                text.push('\'');
                text
            },
            _ => vstd::pervasive::unreached(),
        }
    }
}

} // verus!
