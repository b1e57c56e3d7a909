//! Ordered collections of values, the result of every evaluation.

use super::value::{data_type_of, Type, Value, ValueView};
use crate::evaluation::errors::{EvaluationError, EvaluationErrorView};
use vstd::prelude::*;

verus! {

/// An ordered sequence of values.  The order of insertion is kept and a
/// value may occur more than once.
#[derive(Debug, PartialEq)]
pub struct Collection(Vec<Value>);

impl View for Collection {
    type V = Seq<ValueView>;

    closed spec fn view(&self) -> Seq<ValueView> {
        self.0.deep_view()
    }
}

/// Whether `items` holds exactly one value, and that of data type `expected`.
pub open spec fn is_singleton_of(items: Seq<ValueView>, expected: Seq<char>) -> bool {
    items.len() == 1 && data_type_of(items[0]) == expected
}

impl Collection {
    pub fn new() -> (collection: Self)
        ensures
            collection@ == Seq::<ValueView>::empty(),
    {
        let collection = Collection(Vec::new());
        collection
    }

    /// The collection of the given values, in their order.
    pub fn from_vec(items: Vec<Value>) -> (collection: Self)
        ensures
            collection@ == items.deep_view(),
    {
        Collection(items)
    }

    /// The only value of the collection, provided that it is the only one
    /// and of data type `t`.  A collection that is empty, holds several
    /// values, or holds one of another data type is rejected.
    pub fn singleton(&self, t: Type) -> (result: Result<&Value, EvaluationError>)
        ensures
            match result {
                Ok(value) => is_singleton_of(self@, t@) && value@ == self@[0],
                Err(error) => !is_singleton_of(self@, t@) && error@
                    == EvaluationErrorView::ExpectedSingleton(t@),
            },
    {
        if self.0.len() != 1 {
            return Err(EvaluationError::ExpectedSingleton(t));
        } else if !self.0[0].data_type().eq(t) {
            return Err(EvaluationError::ExpectedSingleton(t));
        }
        Ok(&self.0[0])
    }

    pub fn len(&self) -> (len: usize)
        ensures
            len == self@.len(),
    {
        self.0.len()
    }

    /// The value at position `index`, if there is one.
    pub fn get(&self, index: usize) -> (value: Option<&Value>)
        ensures
            match value {
                Some(v) => index < self@.len() && v@ == self@[index as int],
                None => index >= self@.len(),
            },
    {
        if index < self.0.len() {
            Some(&self.0[index])
        } else {
            None
        }
    }

    /// Adds a value at the end.
    pub fn push(&mut self, value: Value)
        ensures
            final(self)@ == old(self)@.push(value@),
    {
        self.0.push(value);
    }

    /// Adds the values of `other` at the end, in their order.
    pub fn extend(&mut self, other: Collection)
        ensures
            final(self)@ == old(self)@ + other@,
    {
        let mut items = other.0;
        self.0.append(&mut items);
    }
}

impl Clone for Collection {
    fn clone(&self) -> (copy: Self)
        ensures
            copy@ == self@,
    {
        let mut items: Vec<Value> = Vec::new();
        let mut i: usize = 0;
        while i < self.0.len()
            invariant
                i <= self.0.len(),
                items.len() == i,
                forall|j: int| 0 <= j < i ==> items[j]@ == self.0[j]@,
            decreases self.0.len() - i,
        {
            items.push(self.0[i].clone());
            i += 1;
        }
        let copy = Collection(items);
        copy
    }
}

impl std::ops::Deref for Collection {
    type Target = Vec<Value>;

    fn deref(&self) -> (items: &Vec<Value>)
        ensures
            items.deep_view() == self@,
    {
        &self.0
    }
}

impl From<Value> for Collection {
    fn from(value: Value) -> (collection: Self)
        ensures
            collection@ == seq![value@],
    {
        let mut items: Vec<Value> = Vec::new();
        items.push(value);
        let collection = Collection(items);
        collection
    }
}

impl vstd::std_specs::convert::FromSpecImpl<Value> for Collection {
    open spec fn obeys_from_spec() -> bool {
        false
    }

    closed spec fn from_spec(value: Value) -> Collection {
        arbitrary()
    }
}

} // verus!
