//! A small path-expression language for querying structured clinical records.
//!
//! An expression such as `'foobarian'.replace('foo', 'bar')` is split into
//! tokens, parsed into a syntax tree by precedence climbing, and evaluated to
//! an ordered collection of typed values.  Every stage states its result as a
//! mathematical function of its input, and the executable code is proved to
//! compute exactly that function.

use evaluation::functions::builtins;
use evaluation::literals::outcome;
use evaluation::visitor::{evaluable, evaluate, is_evaluable};
use evaluation::{EvaluationError, Visitor};
use fhirpath::Collection;
use parser::lexer::tokens_of;
use parser::parser::parse_tokens;
use parser::{ASTNode, Lexer, NodeView, Parser, ParserError, ParserErrorView};
use vstd::prelude::*;

pub mod evaluation;
pub mod fhirpath;
pub mod parser;
pub mod text;

verus! {

/// The syntax tree that the text of an expression denotes: the tree of its
/// tokens, or the first failure of the lexer or of the parser.
pub open spec fn compile(text: Seq<char>) -> Result<NodeView, ParserErrorView> {
    match tokens_of(text) {
        Ok(tokens) => parse_tokens(tokens),
        Err(error) => Err(error),
    }
}

/// An expression that was compiled once and can be evaluated many times.
pub struct Expression {
    _raw: String,
    ast: ASTNode,
}

impl Expression {
    /// The text that the expression was compiled from.
    pub closed spec fn text(&self) -> Seq<char> {
        self._raw@
    }

    /// The syntax tree of the expression.
    pub closed spec fn tree(&self) -> NodeView {
        self.ast@
    }

    /// Compiles the text of an expression.
    pub fn new(str: &str) -> (result: Result<Expression, ParserError>)
        ensures
            match result {
                Ok(expression) => expression.text() == str@ && compile(str@) == Ok::<
                    NodeView,
                    ParserErrorView,
                >(expression.tree()),
                Err(error) => compile(str@) == Err::<NodeView, ParserErrorView>(error@),
            },
    {
        let tokens = match Lexer::new(str).tokenize() {
            Ok(tokens) => tokens,
            Err(error) => return Err(error),
        };
        let ast = match Parser::new(tokens).parse() {
            Ok(ast) => ast,
            Err(error) => return Err(error),
        };
        Ok(Expression { _raw: str.to_owned(), ast: *ast })
    }

    /// Whether the expression has a value: see [`evaluable`].
    pub fn is_evaluable(&self) -> (defined: bool)
        ensures
            defined == evaluable(self.tree()),
    {
        is_evaluable(&self.ast)
    }

    /// Evaluates the expression with the builtin functions.
    pub fn evaluate(&self) -> (result: Result<Collection, EvaluationError>)
        requires
            evaluable(self.tree()),
        ensures
            outcome(result) == evaluate(builtins(), self.tree()),
    {
        let mut visitor = Visitor::new();
        visitor.visit_node(&self.ast)
    }
}

} // verus!
