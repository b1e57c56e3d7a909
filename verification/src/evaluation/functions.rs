//! The functions that an expression can call, and the table that names them.

use super::errors::{EvaluationError, EvaluationErrorView};
use super::literals::outcome;
use crate::fhirpath::collection::Collection;
use crate::fhirpath::value::{Value, ValueView, STRING};
use crate::text::replace_all;
use vstd::prelude::*;

verus! {

/// A function that expressions can call on a collection, with a collection
/// of arguments.
#[derive(Clone, Copy, Debug, PartialEq, Eq)]
pub enum Function {
    /// `replace(pattern, substitution)` on one string.
    Replace,
}

/// What `replace` gives for `input` and `params`.
///
/// The input has to be a single string; a call on anything else is rejected
/// with the arguments.  The arguments have to start with two strings, the
/// pattern and the substitution; other arguments are rejected with the input
/// followed by itself.  The result is one string: the input with every
/// occurrence of the pattern replaced by the substitution.
pub open spec fn replaced(input: Seq<ValueView>, params: Seq<ValueView>) -> Result<
    Seq<ValueView>,
    EvaluationErrorView,
> {
    if input.len() == 1 && input[0] is String {
        if params.len() >= 2 && params[0] is String && params[1] is String {
            Ok(
                seq![
                    ValueView::String(
                        replace_all(input[0]->String_0, params[0]->String_0, params[1]->String_0),
                    ),
                ],
            )
        } else {
            Err(EvaluationErrorView::InvalidFunctionArguments(input + input))
        }
    } else {
        Err(EvaluationErrorView::InvalidFunctionArguments(params))
    }
}

impl Function {
    /// What calling the function on `input` with `params` gives.
    pub open spec fn apply(self, input: Seq<ValueView>, params: Seq<ValueView>) -> Result<
        Seq<ValueView>,
        EvaluationErrorView,
    > {
        match self {
            Function::Replace => replaced(input, params),
        }
    }

    /// Calls the function on `input` with `params`.
    pub fn call(&self, input: &Collection, params: &Collection) -> (result: Result<
        Collection,
        EvaluationError,
    >)
        ensures
            outcome(result) == self.apply(input@, params@),
    {
        match self {
            Function::Replace => replace(input, params),
        }
    }
}

/// The builtin `replace`: see [`replaced`].
pub fn replace(input: &Collection, params: &Collection) -> (result: Result<
    Collection,
    EvaluationError,
>)
    ensures
        outcome(result) == replaced(input@, params@),
{
    let text = match input.singleton(STRING) {
        Ok(Value::String(text)) => text,
        _ => return Err(EvaluationError::InvalidFunctionArguments(params.clone())),
    };
    if let (Some(Value::String(pattern)), Some(Value::String(substitution))) = (
        params.get(0),
        params.get(1),
    ) {
        Ok(
            Collection::from(
                Value::String(
                    crate::text::replace(text.as_str(), pattern.as_str(), substitution.as_str()),
                ),
            ),
        )
    } else {
        let mut rejected = input.clone();
        rejected.extend(input.clone());
        Err(EvaluationError::InvalidFunctionArguments(rejected))
    }
}

/// The table of the functions that every evaluation starts with.
pub open spec fn builtins() -> Map<Seq<char>, Function> {
    map!["replace"@ => Function::Replace]
}

/// The table that a list of named functions stands for.  Where a name is
/// listed twice, the earlier entry counts.
pub open spec fn table_of(entries: Seq<(&'static str, Function)>) -> Map<Seq<char>, Function>
    decreases entries.len(),
{
    if entries.len() == 0 {
        Map::empty()
    } else {
        let earlier = table_of(entries.drop_last());
        let (name, function) = entries.last();
        if earlier.contains_key(name@) {
            earlier
        } else {
            earlier.insert(name@, function)
        }
    }
}

/// What is listed under a name in a part of a list stays listed under it in
/// the whole list.
pub proof fn lemma_table_of_prefix(entries: Seq<(&'static str, Function)>, n: int, name: Seq<char>)
    requires
        0 <= n <= entries.len(),
        table_of(entries.take(n)).contains_key(name),
    ensures
        table_of(entries).contains_key(name),
        table_of(entries)[name] == table_of(entries.take(n))[name],
    decreases entries.len() - n,
{
    if n < entries.len() {
        assert(entries.take(n + 1).drop_last() =~= entries.take(n));
        lemma_table_of_prefix(entries, n + 1, name);
    } else {
        assert(entries.take(n) =~= entries);
    }
}

/// The list of the functions that every evaluation starts with.
pub fn builtin_functions() -> (entries: Vec<(&'static str, Function)>)
    ensures
        table_of(entries@) == builtins(),
{
    let mut entries: Vec<(&'static str, Function)> = Vec::new();
    entries.push(("replace", Function::Replace));
    assert(table_of(entries@.drop_last()) == Map::<Seq<char>, Function>::empty());
    entries
}

/// Looks a function up by its name, letter for letter.
pub fn lookup(entries: &Vec<(&'static str, Function)>, name: &str) -> (function: Option<Function>)
    ensures
        match function {
            Some(f) => table_of(entries@).contains_key(name@) && table_of(entries@)[name@] == f,
            None => !table_of(entries@).contains_key(name@),
        },
{
    let mut i: usize = 0;
    while i < entries.len()
        invariant
            i <= entries.len(),
            !table_of(entries@.take(i as int)).contains_key(name@),
        decreases entries.len() - i,
    {
        assert(entries@.take(i + 1).drop_last() =~= entries@.take(i as int));
        if entries[i].0.eq(name) {
            proof {
                lemma_table_of_prefix(entries@, i + 1, name@);
            }
            return Some(entries[i].1);
        }
        i += 1;
    }
    assert(entries@.take(i as int) =~= entries@);
    None
}

} // verus!
