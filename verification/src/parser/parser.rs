//! The parser: precedence climbing over a table of per-token parse rules.
//!
//! [`parse_expression`] and [`continue_expression`] define, on sequences of
//! tokens, which tree an expression denotes and which tokens it leaves.  The
//! executable parser is proved to compute exactly these functions.

use super::ast::{ASTNode, NodeView};
use super::errors::{ParserError, ParserErrorView};
use super::lexer::{Token, TokenView};
use std::collections::VecDeque;
use vstd::prelude::*;

verus! {

/// Parses a sequence of tokens into one syntax tree.
pub struct Parser {
    input: VecDeque<Token>,
}

/// How an expression starts with a given token.
#[derive(Clone, Copy, Debug, PartialEq, Eq)]
pub enum PrefixFn {
    /// The token is an identifier and becomes an identifier node.
    Identifier,
    /// The token is a string and becomes a string literal.
    StringLiteral,
    /// The token is a number and becomes a number literal.
    NumberLiteral,
    /// The token is a boolean and becomes a boolean literal.
    BooleanLiteral,
    /// The token closes an argument list that holds nothing.
    EmptyParams,
}

/// How an expression goes on with a given token, once its left operand is
/// parsed.
#[derive(Clone, Copy, Debug, PartialEq, Eq)]
pub enum InfixFn {
    /// `left.right`
    Dot,
    /// `left(params`
    Function,
    /// `left)`: the arguments of a call end.
    ParamList,
    /// `left, right`
    Union,
}

/// The parse rule of a kind of token.
#[derive(Clone, Copy, Debug, PartialEq, Eq)]
pub struct ParseRule {
    pub precedence: u8,
    pub prefix_parselet: Option<PrefixFn>,
    pub infix_parselet: Option<InfixFn>,
}

pub const INITIAL_PRECEDENCE: u8 = 0;

pub const PLUS_PRECEDENCE: u8 = 1;

pub const MINUS_PRECEDENCE: u8 = 2;

pub const DOT_PRECEDENCE: u8 = 3;

pub const LPAREN_PRECEDENCE: u8 = 4;

pub const RPAREN_PRECEDENCE: u8 = 5;

pub const COMMA_PRECEDENCE: u8 = 6;

/// The parse rule of each token.  Literals and identifiers start an
/// expression and bind loosest; `.`, `(`, `)` and `,` continue one and bind
/// tighter in that order; `)` also starts one, as an empty argument list.
/// `+` and `-` neither start nor continue an expression.
pub open spec fn rule_of(token: TokenView) -> ParseRule {
    match token {
        TokenView::Dot => ParseRule {
            precedence: DOT_PRECEDENCE,
            prefix_parselet: None,
            infix_parselet: Some(InfixFn::Dot),
        },
        TokenView::Identifier(_) => ParseRule {
            precedence: INITIAL_PRECEDENCE,
            prefix_parselet: Some(PrefixFn::Identifier),
            infix_parselet: None,
        },
        TokenView::LeftParen => ParseRule {
            precedence: LPAREN_PRECEDENCE,
            prefix_parselet: None,
            infix_parselet: Some(InfixFn::Function),
        },
        TokenView::RightParen => ParseRule {
            precedence: RPAREN_PRECEDENCE,
            prefix_parselet: Some(PrefixFn::EmptyParams),
            infix_parselet: Some(InfixFn::ParamList),
        },
        TokenView::Comma => ParseRule {
            precedence: COMMA_PRECEDENCE,
            prefix_parselet: None,
            infix_parselet: Some(InfixFn::Union),
        },
        TokenView::String(_) => ParseRule {
            precedence: INITIAL_PRECEDENCE,
            prefix_parselet: Some(PrefixFn::StringLiteral),
            infix_parselet: None,
        },
        TokenView::Number(_) => ParseRule {
            precedence: INITIAL_PRECEDENCE,
            prefix_parselet: Some(PrefixFn::NumberLiteral),
            infix_parselet: None,
        },
        TokenView::Boolean(_) => ParseRule {
            precedence: INITIAL_PRECEDENCE,
            prefix_parselet: Some(PrefixFn::BooleanLiteral),
            infix_parselet: None,
        },
        TokenView::Plus => ParseRule {
            precedence: PLUS_PRECEDENCE,
            prefix_parselet: None,
            infix_parselet: None,
        },
        TokenView::Minus => ParseRule {
            precedence: MINUS_PRECEDENCE,
            prefix_parselet: None,
            infix_parselet: None,
        },
    }
}

/// What parsing gave, and the tokens that it left unread.
pub struct Parsed {
    pub result: Result<NodeView, ParserErrorView>,
    pub rest: Seq<TokenView>,
}

/// The node that a prefix parselet makes of the token that starts an
/// expression.
pub open spec fn prefix_node(parselet: PrefixFn, token: TokenView) -> Result<
    NodeView,
    ParserErrorView,
> {
    match (parselet, token) {
        (PrefixFn::Identifier, TokenView::Identifier(name)) => Ok(NodeView::Identifier(name)),
        (PrefixFn::StringLiteral, TokenView::String(text)) => Ok(NodeView::StringLiteral(text)),
        (PrefixFn::NumberLiteral, TokenView::Number(raw)) => Ok(NodeView::NumberLiteral(raw)),
        (PrefixFn::BooleanLiteral, TokenView::Boolean(b)) => Ok(NodeView::BooleanLiteral(b)),
        (PrefixFn::EmptyParams, _) => Ok(NodeView::ParamList(None)),
        _ => Err(ParserErrorView::UnexpectedToken(token)),
    }
}

/// The node that an infix parselet makes of its operands.  `)` has no right
/// operand and wraps the left one.
pub open spec fn joined(parselet: InfixFn, left: NodeView, right: NodeView) -> NodeView {
    match parselet {
        InfixFn::Dot => NodeView::InvocationExpression(Box::new(left), Box::new(right)),
        InfixFn::Function => NodeView::Function(Box::new(left), Box::new(right)),
        InfixFn::Union => NodeView::Union(Box::new(left), Box::new(right)),
        InfixFn::ParamList => NodeView::ParamList(Some(Box::new(left))),
    }
}

/// Parses one expression from the front of `tokens`: the first token starts
/// it through its prefix parselet, and [`continue_expression`] extends it
/// while the tokens that follow bind tighter than `base`.
pub open spec fn parse_expression(tokens: Seq<TokenView>, base: u8) -> Parsed
    decreases tokens.len(), 1int,
{
    if tokens.len() == 0 {
        Parsed { result: Err(ParserErrorView::EOF), rest: tokens }
    } else {
        let token = tokens[0];
        let rest = tokens.skip(1);
        match rule_of(token).prefix_parselet {
            None => Parsed { result: Err(ParserErrorView::UnexpectedToken(token)), rest },
            Some(parselet) => match prefix_node(parselet, token) {
                Err(error) => Parsed { result: Err(error), rest },
                Ok(left) => continue_expression(left, rest, base),
            },
        }
    }
}

/// Extends the expression `left` with the tokens that follow it.  While the
/// next token has a precedence above `base` and an infix parselet, it is
/// consumed and folded into `left`; otherwise `left` is the result and the
/// tokens stay unread.
///
/// The test that folding left fewer tokens than there were only serves to
/// show that the definition ends: it always holds, by
/// [`lemma_infix_consumes`].
pub open spec fn continue_expression(left: NodeView, tokens: Seq<TokenView>, base: u8) -> Parsed
    decreases tokens.len(), 0int,
{
    if tokens.len() == 0 {
        Parsed { result: Ok(left), rest: tokens }
    } else {
        let next = tokens[0];
        match rule_of(next).infix_parselet {
            Some(parselet) if rule_of(next).precedence > base => {
                let folded = infix_node(parselet, left, next, tokens.skip(1));
                match folded.result {
                    Ok(node) if folded.rest.len() < tokens.len() => continue_expression(
                        node,
                        folded.rest,
                        base,
                    ),
                    _ => folded,
                }
            },
            _ => Parsed { result: Ok(left), rest: tokens },
        }
    }
}

/// Folds the operator `token`, already consumed, into `left`.  `)` wraps
/// `left` as an argument list; every other operator parses its right operand
/// from `tokens` at its own precedence and joins both.
pub open spec fn infix_node(
    parselet: InfixFn,
    left: NodeView,
    token: TokenView,
    tokens: Seq<TokenView>,
) -> Parsed
    decreases tokens.len(), 2int,
{
    match parselet {
        InfixFn::ParamList => Parsed {
            result: Ok(NodeView::ParamList(Some(Box::new(left)))),
            rest: tokens,
        },
        _ => {
            let right = parse_expression(tokens, rule_of(token).precedence);
            match right.result {
                Ok(node) => Parsed { result: Ok(joined(parselet, left, node)), rest: right.rest },
                Err(error) => Parsed { result: Err(error), rest: right.rest },
            }
        },
    }
}

/// The tree of a whole sequence of tokens: one expression that leaves no
/// token unread.  A token that is left over is unexpected.
pub open spec fn parse_tokens(tokens: Seq<TokenView>) -> Result<NodeView, ParserErrorView> {
    let parsed = parse_expression(tokens, INITIAL_PRECEDENCE);
    match parsed.result {
        Ok(node) => if parsed.rest.len() == 0 {
            Ok(node)
        } else {
            Err(ParserErrorView::UnexpectedToken(parsed.rest[0]))
        },
        Err(error) => Err(error),
    }
}

/// What an executable parse step returned and left, as a [`Parsed`].
pub open spec fn parsed(result: Result<Box<ASTNode>, ParserError>, rest: Seq<TokenView>) -> Parsed {
    Parsed {
        result: match result {
            Ok(node) => Ok(node@),
            Err(error) => Err(error@),
        },
        rest,
    }
}

/// Parsing never reads backwards: what is left is never longer than what was
/// given, and an expression that was parsed took at least one token.
pub proof fn lemma_parse_consumes(tokens: Seq<TokenView>, base: u8)
    ensures
        parse_expression(tokens, base).rest.len() <= tokens.len(),
        parse_expression(tokens, base).result is Ok ==> parse_expression(tokens, base).rest.len()
            < tokens.len(),
    decreases tokens.len(), 1int,
{
    if tokens.len() > 0 {
        let token = tokens[0];
        if let Some(parselet) = rule_of(token).prefix_parselet {
            if let Ok(left) = prefix_node(parselet, token) {
                lemma_continue_consumes(left, tokens.skip(1), base);
            }
        }
    }
}

/// Extending an expression leaves no more tokens than it was given.
pub proof fn lemma_continue_consumes(left: NodeView, tokens: Seq<TokenView>, base: u8)
    ensures
        continue_expression(left, tokens, base).rest.len() <= tokens.len(),
    decreases tokens.len(), 0int,
{
    if tokens.len() > 0 {
        let next = tokens[0];
        if let Some(parselet) = rule_of(next).infix_parselet {
            if rule_of(next).precedence > base {
                let folded = infix_node(parselet, left, next, tokens.skip(1));
                lemma_infix_consumes(parselet, left, next, tokens.skip(1));
                if let Ok(node) = folded.result {
                    lemma_continue_consumes(node, folded.rest, base);
                }
            }
        }
    }
}

/// Folding an operator leaves no more tokens than it was given.
pub proof fn lemma_infix_consumes(
    parselet: InfixFn,
    left: NodeView,
    token: TokenView,
    tokens: Seq<TokenView>,
)
    ensures
        infix_node(parselet, left, token, tokens).rest.len() <= tokens.len(),
    decreases tokens.len(), 2int,
{
    if parselet != InfixFn::ParamList {
        lemma_parse_consumes(tokens, rule_of(token).precedence);
    }
}

impl Token {
    pub fn parse_rule(&self) -> (rule: ParseRule)
        ensures
            rule == rule_of(self@),
    {
        match self {
            Token::Dot => ParseRule {
                precedence: DOT_PRECEDENCE,
                prefix_parselet: None,
                infix_parselet: Some(InfixFn::Dot),
            },
            Token::Identifier(_) => ParseRule {
                precedence: INITIAL_PRECEDENCE,
                prefix_parselet: Some(PrefixFn::Identifier),
                infix_parselet: None,
            },
            Token::LeftParen => ParseRule {
                precedence: LPAREN_PRECEDENCE,
                prefix_parselet: None,
                infix_parselet: Some(InfixFn::Function),
            },
            Token::RightParen => ParseRule {
                precedence: RPAREN_PRECEDENCE,
                prefix_parselet: Some(PrefixFn::EmptyParams),
                infix_parselet: Some(InfixFn::ParamList),
            },
            Token::Comma => ParseRule {
                precedence: COMMA_PRECEDENCE,
                prefix_parselet: None,
                infix_parselet: Some(InfixFn::Union),
            },
            Token::String(_) => ParseRule {
                precedence: INITIAL_PRECEDENCE,
                prefix_parselet: Some(PrefixFn::StringLiteral),
                infix_parselet: None,
            },
            Token::Number(_) => ParseRule {
                precedence: INITIAL_PRECEDENCE,
                prefix_parselet: Some(PrefixFn::NumberLiteral),
                infix_parselet: None,
            },
            Token::Boolean(_) => ParseRule {
                precedence: INITIAL_PRECEDENCE,
                prefix_parselet: Some(PrefixFn::BooleanLiteral),
                infix_parselet: None,
            },
            Token::Plus => ParseRule {
                precedence: PLUS_PRECEDENCE,
                prefix_parselet: None,
                infix_parselet: None,
            },
            Token::Minus => ParseRule {
                precedence: MINUS_PRECEDENCE,
                prefix_parselet: None,
                infix_parselet: None,
            },
        }
    }

    pub fn precedence(&self) -> (precedence: u8)
        ensures
            precedence == rule_of(self@).precedence,
    {
        self.parse_rule().precedence
    }

    pub fn prefix_parselet(&self) -> (parselet: Option<PrefixFn>)
        ensures
            parselet == rule_of(self@).prefix_parselet,
    {
        self.parse_rule().prefix_parselet
    }

    pub fn infix_parselet(&self) -> (parselet: Option<InfixFn>)
        ensures
            parselet == rule_of(self@).infix_parselet,
    {
        self.parse_rule().infix_parselet
    }
}

impl View for Parser {
    type V = Seq<TokenView>;

    /// The tokens that are still unread, in order.
    closed spec fn view(&self) -> Seq<TokenView> {
        self.input.deep_view()
    }
}

impl Parser {
    pub fn new(tokens: Vec<Token>) -> (parser: Self)
        ensures
            parser@ == tokens.deep_view(),
    {
        let mut tokens = tokens;
        let ghost all = tokens.deep_view();
        let mut input: VecDeque<Token> = VecDeque::new();
        while tokens.len() > 0
            invariant
                all == tokens.deep_view() + input.deep_view(),
            decreases tokens.len(),
        {
            let token = tokens.pop().unwrap();
            input.push_front(token);
        }
        Parser { input }
    }

    /// Parses all tokens into one tree.
    ///
    /// The result is exactly [`parse_tokens`] of the tokens: the tree of one
    /// expression that takes every token, or the failure found first.
    pub fn parse(self) -> (result: Result<Box<ASTNode>, ParserError>)
        ensures
            match result {
                Ok(node) => parse_tokens(self@) == Ok::<NodeView, ParserErrorView>(node@),
                Err(error) => parse_tokens(self@) == Err::<NodeView, ParserErrorView>(error@),
            },
    {
        let mut parser = self;
        let node = match parser.parse_expression(INITIAL_PRECEDENCE) {
            Ok(node) => node,
            Err(error) => return Err(error),
        };
        match parser.next_token() {
            None => Ok(node),
            Some(token) => Err(ParserError::UnexpectedToken(token)),
        }
    }

    /// Parses one expression from the front of the unread tokens, taking
    /// operators that bind tighter than `base_precedence`.
    pub fn parse_expression(&mut self, base_precedence: u8) -> (result: Result<
        Box<ASTNode>,
        ParserError,
    >)
        ensures
            parsed(result, final(self)@) == parse_expression(old(self)@, base_precedence),
        decreases old(self)@.len(), 1int,
    {
        let ghost target = parse_expression(self@, base_precedence);
        let token = match self.next_token() {
            Some(token) => token,
            None => return Err(ParserError::EOF),
        };
        let prefix_parselet = match token.prefix_parselet() {
            Some(parselet) => parselet,
            None => return Err(ParserError::UnexpectedToken(token)),
        };
        let mut left = match prefix_parselet.parse(self, &token) {
            Ok(node) => node,
            Err(error) => return Err(error),
        };
        loop
            invariant_except_break
                continue_expression(left@, self@, base_precedence) == target,
            invariant
                self@.len() < old(self)@.len(),
                target == parse_expression(old(self)@, base_precedence),
            ensures
                parsed(Ok(left), self@) == target,
            decreases self@.len(),
        {
            let next_token = match self.peek() {
                Some(token) => token,
                None => break ,
            };
            if next_token.precedence() <= base_precedence {
                break ;
            }
            let infix_parselet = match next_token.infix_parselet() {
                Some(parselet) => parselet,
                None => break ,
            };
            self.next_token();
            proof {
                lemma_infix_consumes(infix_parselet, left@, next_token@, self@);
            }
            left = match infix_parselet.parse(self, left, &next_token) {
                Ok(node) => node,
                Err(error) => return Err(error),
            };
        }
        Ok(left)
    }

    /// Takes the next token, if there is one.
    pub fn next_token(&mut self) -> (token: Option<Token>)
        ensures
            match token {
                Some(t) => old(self)@.len() > 0 && t@ == old(self)@[0] && final(self)@ == old(
                    self,
                )@.skip(1),
                None => old(self)@.len() == 0 && final(self)@ == old(self)@,
            },
    {
        self.input.pop_front()
    }

    /// A copy of the next token, if there is one; the token stays unread.
    pub fn peek(&self) -> (token: Option<Token>)
        ensures
            match token {
                Some(t) => self@.len() > 0 && t@ == self@[0],
                None => self@.len() == 0,
            },
    {
        if self.input.len() > 0 {
            Some(self.input[0].clone())
        } else {
            None
        }
    }
}

impl PrefixFn {
    /// Starts an expression with `token`, which was just taken.
    pub fn parse(self, parser: &mut Parser, token: &Token) -> (result: Result<
        Box<ASTNode>,
        ParserError,
    >)
        ensures
            final(parser)@ == old(parser)@,
            match result {
                Ok(node) => prefix_node(self, token@) == Ok::<NodeView, ParserErrorView>(node@),
                Err(error) => prefix_node(self, token@) == Err::<NodeView, ParserErrorView>(
                    error@,
                ),
            },
    {
        match self {
            PrefixFn::Identifier => parse_identifier(parser, token),
            PrefixFn::StringLiteral => parse_string_literal(parser, token),
            PrefixFn::NumberLiteral => parse_number_literal(parser, token),
            PrefixFn::BooleanLiteral => parse_boolean_literal(parser, token),
            PrefixFn::EmptyParams => Ok(ASTNode::empty_params()),
        }
    }
}

impl InfixFn {
    /// Folds the operator `token`, which was just taken, into `left`.
    pub fn parse(self, parser: &mut Parser, left: Box<ASTNode>, token: &Token) -> (result: Result<
        Box<ASTNode>,
        ParserError,
    >)
        ensures
            parsed(result, final(parser)@) == infix_node(self, left@, token@, old(parser)@),
        decreases old(parser)@.len(), 3int,
    {
        match self {
            InfixFn::Dot => parse_dot(parser, left, token),
            InfixFn::Function => parse_function(parser, left, token),
            InfixFn::ParamList => parse_param_list(parser, left, token),
            InfixFn::Union => parse_union(parser, left, token),
        }
    }
}

pub fn parse_dot(parser: &mut Parser, left: Box<ASTNode>, token: &Token) -> (result: Result<
    Box<ASTNode>,
    ParserError,
>)
    ensures
        parsed(result, final(parser)@) == infix_node(InfixFn::Dot, left@, token@, old(parser)@),
    decreases old(parser)@.len(), 2int,
{
    let right = match parser.parse_expression(token.precedence()) {
        Ok(node) => node,
        Err(error) => return Err(error),
    };
    Ok(Box::new(ASTNode::InvocationExpression(left, right)))
}

pub fn parse_identifier(parser: &mut Parser, token: &Token) -> (result: Result<
    Box<ASTNode>,
    ParserError,
>)
    ensures
        final(parser)@ == old(parser)@,
        match result {
            Ok(node) => prefix_node(PrefixFn::Identifier, token@) == Ok::<
                NodeView,
                ParserErrorView,
            >(node@),
            Err(error) => prefix_node(PrefixFn::Identifier, token@) == Err::<
                NodeView,
                ParserErrorView,
            >(error@),
        },
{
    if let Token::Identifier(identifier) = token {
        Ok(Box::new(ASTNode::Identifier(identifier.clone())))
    } else {
        Err(ParserError::UnexpectedToken(token.clone()))
    }
}

pub fn parse_function(parser: &mut Parser, left: Box<ASTNode>, token: &Token) -> (result: Result<
    Box<ASTNode>,
    ParserError,
>)
    ensures
        parsed(result, final(parser)@) == infix_node(
            InfixFn::Function,
            left@,
            token@,
            old(parser)@,
        ),
    decreases old(parser)@.len(), 2int,
{
    let right = match parser.parse_expression(token.precedence()) {
        Ok(node) => node,
        Err(error) => return Err(error),
    };
    Ok(Box::new(ASTNode::Function(left, right)))
}

pub fn parse_param_list(parser: &mut Parser, left: Box<ASTNode>, token: &Token) -> (result: Result<
    Box<ASTNode>,
    ParserError,
>)
    ensures
        parsed(result, final(parser)@) == infix_node(
            InfixFn::ParamList,
            left@,
            token@,
            old(parser)@,
        ),
{
    Ok(Box::new(ASTNode::ParamList(Some(left))))
}

pub fn parse_union(parser: &mut Parser, left: Box<ASTNode>, token: &Token) -> (result: Result<
    Box<ASTNode>,
    ParserError,
>)
    ensures
        parsed(result, final(parser)@) == infix_node(InfixFn::Union, left@, token@, old(parser)@),
    decreases old(parser)@.len(), 2int,
{
    let right = match parser.parse_expression(token.precedence()) {
        Ok(node) => node,
        Err(error) => return Err(error),
    };
    Ok(Box::new(ASTNode::Union(left, right)))
}

pub fn parse_string_literal(parser: &mut Parser, token: &Token) -> (result: Result<
    Box<ASTNode>,
    ParserError,
>)
    ensures
        final(parser)@ == old(parser)@,
        match result {
            Ok(node) => prefix_node(PrefixFn::StringLiteral, token@) == Ok::<
                NodeView,
                ParserErrorView,
            >(node@),
            Err(error) => prefix_node(PrefixFn::StringLiteral, token@) == Err::<
                NodeView,
                ParserErrorView,
            >(error@),
        },
{
    if let Token::String(s) = token {
        Ok(Box::new(ASTNode::StringLiteral(s.clone())))
    } else {
        Err(ParserError::UnexpectedToken(token.clone()))
    }
}

pub fn parse_number_literal(parser: &mut Parser, token: &Token) -> (result: Result<
    Box<ASTNode>,
    ParserError,
>)
    ensures
        final(parser)@ == old(parser)@,
        match result {
            Ok(node) => prefix_node(PrefixFn::NumberLiteral, token@) == Ok::<
                NodeView,
                ParserErrorView,
            >(node@),
            Err(error) => prefix_node(PrefixFn::NumberLiteral, token@) == Err::<
                NodeView,
                ParserErrorView,
            >(error@),
        },
{
    if let Token::Number(raw) = token {
        Ok(Box::new(ASTNode::NumberLiteral(raw.clone())))
    } else {
        Err(ParserError::UnexpectedToken(token.clone()))
    }
}

pub fn parse_boolean_literal(parser: &mut Parser, token: &Token) -> (result: Result<
    Box<ASTNode>,
    ParserError,
>)
    ensures
        final(parser)@ == old(parser)@,
        match result {
            Ok(node) => prefix_node(PrefixFn::BooleanLiteral, token@) == Ok::<
                NodeView,
                ParserErrorView,
            >(node@),
            Err(error) => prefix_node(PrefixFn::BooleanLiteral, token@) == Err::<
                NodeView,
                ParserErrorView,
            >(error@),
        },
{
    if let Token::Boolean(value) = token {
        Ok(Box::new(ASTNode::BooleanLiteral(*value)))
    } else {
        Err(ParserError::UnexpectedToken(token.clone()))
    }
}

} // verus!
