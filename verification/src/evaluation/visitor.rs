//! The tree-walking evaluator.
//!
//! [`evaluate`] defines the collection that a syntax tree denotes, given the
//! table of functions that it may call.  [`Visitor::visit_node`] is proved to
//! compute exactly that.

use super::errors::{EvaluationError, EvaluationErrorView};
use super::functions::{builtin_functions, builtins, lookup, table_of, Function};
use super::literals::{number_literal, number_value, outcome};
use crate::fhirpath::collection::Collection;
use crate::fhirpath::value::{Value, ValueView};
use crate::parser::ast::{ASTNode, NodeView};
use vstd::prelude::*;

verus! {

/// Whether evaluation is defined for `node`.
///
/// Literals, argument lists and unions of such are evaluated, and so is a
/// call `left.name(params)` on them.  A bare identifier, a member access
/// without a receiver and a call without a receiver have no value, and
/// neither has `left.name`, the navigation into a member.
pub open spec fn evaluable(node: NodeView) -> bool
    decreases node,
{
    match node {
        NodeView::BooleanLiteral(_) => true,
        NodeView::StringLiteral(_) => true,
        NodeView::NumberLiteral(_) => true,
        NodeView::InvocationExpression(left, right) => evaluable(*left) && match *right {
            NodeView::Function(name, params) => *name is Identifier ==> evaluable(*params),
            NodeView::Identifier(_) => false,
            _ => true,
        },
        NodeView::ParamList(None) => true,
        NodeView::ParamList(Some(inner)) => evaluable(*inner),
        NodeView::Union(left, right) => evaluable(*left) && evaluable(*right),
        NodeView::Identifier(_) => false,
        NodeView::MemberInvocation(_) => false,
        NodeView::Function(_, _) => false,
    }
}

/// The collection that `node` denotes, with the named `functions` at hand.
/// It is meant for the nodes that are [`evaluable`]; on the others it says
/// that the tree is invalid, and no executable code relies on that.
///
/// - A literal denotes the one value that it writes.
/// - `left.name(params)` denotes what the function called `name` gives for
///   the values of `left` and of `params`, both evaluated in this order.  A
///   callee that is no identifier makes the tree invalid, and so does
///   anything but a call after the dot.
/// - An argument list denotes the values of the expression in it, or none.
/// - `left, right` denotes the values of `left` followed by those of `right`.
///
/// The first failure ends the evaluation and is its result.
pub open spec fn evaluate(functions: Map<Seq<char>, Function>, node: NodeView) -> Result<
    Seq<ValueView>,
    EvaluationErrorView,
>
    decreases node,
{
    match node {
        NodeView::BooleanLiteral(value) => Ok(seq![ValueView::Boolean(value)]),
        NodeView::StringLiteral(text) => Ok(seq![ValueView::String(text)]),
        NodeView::NumberLiteral(raw) => number_value(raw),
        NodeView::InvocationExpression(left, right) => match evaluate(functions, *left) {
            Err(error) => Err(error),
            Ok(input) => match *right {
                NodeView::Function(name, params) => match *name {
                    NodeView::Identifier(name) => match evaluate(functions, *params) {
                        Err(error) => Err(error),
                        Ok(arguments) => if functions.contains_key(name) {
                            functions[name].apply(input, arguments)
                        } else {
                            Err(EvaluationErrorView::FunctionUnavailable(name))
                        },
                    },
                    _ => Err(EvaluationErrorView::InvalidAST),
                },
                _ => Err(EvaluationErrorView::InvalidAST),
            },
        },
        NodeView::ParamList(None) => Ok(Seq::empty()),
        NodeView::ParamList(Some(inner)) => evaluate(functions, *inner),
        NodeView::Union(left, right) => match evaluate(functions, *left) {
            Err(error) => Err(error),
            Ok(first) => match evaluate(functions, *right) {
                Err(error) => Err(error),
                Ok(second) => Ok(first + second),
            },
        },
        NodeView::Identifier(_) => Err(EvaluationErrorView::InvalidAST),
        NodeView::MemberInvocation(_) => Err(EvaluationErrorView::InvalidAST),
        NodeView::Function(_, _) => Err(EvaluationErrorView::InvalidAST),
    }
}

/// A union denotes the values of its left side followed by those of its
/// right side: as many values as both sides have together, each side's in
/// their order, none dropped.
pub proof fn lemma_union_concatenates(
    functions: Map<Seq<char>, Function>,
    left: NodeView,
    right: NodeView,
)
    requires
        evaluate(functions, left) is Ok,
        evaluate(functions, right) is Ok,
    ensures
        evaluate(functions, NodeView::Union(Box::new(left), Box::new(right))) == Ok::<
            Seq<ValueView>,
            EvaluationErrorView,
        >(evaluate(functions, left)->Ok_0 + evaluate(functions, right)->Ok_0),
        evaluate(functions, NodeView::Union(Box::new(left), Box::new(right)))->Ok_0.len()
            == evaluate(functions, left)->Ok_0.len() + evaluate(functions, right)->Ok_0.len(),
        forall|i: int|
            0 <= i < evaluate(functions, left)->Ok_0.len() ==> evaluate(
                functions,
                NodeView::Union(Box::new(left), Box::new(right)),
            )->Ok_0[i] == evaluate(functions, left)->Ok_0[i],
        forall|i: int|
            0 <= i < evaluate(functions, right)->Ok_0.len() ==> evaluate(
                functions,
                NodeView::Union(Box::new(left), Box::new(right)),
            )->Ok_0[evaluate(functions, left)->Ok_0.len() + i] == evaluate(
                functions,
                right,
            )->Ok_0[i],
{
}

/// Whether evaluation is defined for `node`.
pub fn is_evaluable(node: &ASTNode) -> (defined: bool)
    ensures
        defined == evaluable(node@),
    decreases node,
{
    proof {
        reveal_with_fuel(<ASTNode as View>::view, 3);
    }
    match node {
        ASTNode::BooleanLiteral(_) => true,
        ASTNode::StringLiteral(_) => true,
        ASTNode::NumberLiteral(_) => true,
        ASTNode::InvocationExpression(left, right) => {
            if !is_evaluable(left) {
                return false;
            }
            match &**right {
                ASTNode::Function(name, params) => match &**name {
                    ASTNode::Identifier(_) => is_evaluable(params),
                    _ => true,
                },
                ASTNode::Identifier(_) => false,
                _ => true,
            }
        },
        ASTNode::ParamList(None) => true,
        ASTNode::ParamList(Some(inner)) => is_evaluable(inner),
        ASTNode::Union(left, right) => is_evaluable(left) && is_evaluable(right),
        ASTNode::Identifier(_) => false,
        ASTNode::MemberInvocation(_) => false,
        ASTNode::Function(_, _) => false,
    }
}

/// Evaluates syntax trees, with a table of the functions that they may call.
pub struct Visitor {
    functions: Vec<(&'static str, Function)>,
}

impl Visitor {
    /// The functions that expressions can call, by name.
    pub closed spec fn functions(&self) -> Map<Seq<char>, Function> {
        table_of(self.functions@)
    }

    /// A visitor that knows the builtin functions.
    pub fn new() -> (visitor: Self)
        ensures
            visitor.functions() == builtins(),
    {
        Visitor { functions: builtin_functions() }
    }

    /// Evaluates `node`.  The result is exactly [`evaluate`] of the node:
    /// its collection of values, or the first failure.
    pub fn visit_node(&mut self, node: &ASTNode) -> (result: Result<Collection, EvaluationError>)
        requires
            evaluable(node@),
        ensures
            final(self).functions() == old(self).functions(),
            outcome(result) == evaluate(old(self).functions(), node@),
        decreases node,
    {
        proof {
            reveal_with_fuel(<ASTNode as View>::view, 3);
        }
        match node {
            ASTNode::BooleanLiteral(value) => Ok(Collection::from(Value::Boolean(*value))),
            ASTNode::StringLiteral(text) => Ok(Collection::from(Value::String(text.clone()))),
            ASTNode::NumberLiteral(raw) => number_literal(raw.as_str()),
            ASTNode::InvocationExpression(left, right) => {
                let input = match self.visit_node(left) {
                    Ok(input) => input,
                    Err(error) => return Err(error),
                };
                match &**right {
                    ASTNode::Function(name, params) => {
                        let name = match &**name {
                            ASTNode::Identifier(name) => name,
                            _ => return Err(EvaluationError::InvalidAST),
                        };
                        let param_list = match self.visit_node(params) {
                            Ok(param_list) => param_list,
                            Err(error) => return Err(error),
                        };
                        match lookup(&self.functions, name.as_str()) {
                            Some(function) => function.call(&input, &param_list),
                            None => Err(EvaluationError::FunctionUnavailable(name.clone())),
                        }
                    },
                    ASTNode::Identifier(_) => vstd::pervasive::unreached(),
                    _ => Err(EvaluationError::InvalidAST),
                }
            },
            ASTNode::ParamList(inner) => {
                match inner {
                    Some(params) => self.visit_node(params),
                    None => Ok(Collection::new()),
                }
            },
            ASTNode::Union(left, right) => {
                let mut values = match self.visit_node(left) {
                    Ok(values) => values,
                    Err(error) => return Err(error),
                };
                let more = match self.visit_node(right) {
                    Ok(more) => more,
                    Err(error) => return Err(error),
                };
                values.extend(more);
                Ok(values)
            },
            ASTNode::Identifier(_) => vstd::pervasive::unreached(),
            ASTNode::MemberInvocation(_) => vstd::pervasive::unreached(),
            ASTNode::Function(_, _) => vstd::pervasive::unreached(),
        }
    }
}

} // verus!
