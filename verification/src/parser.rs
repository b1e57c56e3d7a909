//! The front end: tokens, the lexer, the syntax tree and the parser.

pub mod ast;
pub mod chains;
pub mod errors;
pub mod lexer;
pub mod parser;
pub mod sources;

pub use ast::{ASTNode, NodeView};
pub use errors::{ParserError, ParserErrorView};
pub use lexer::{Lexer, Token, TokenView};
pub use parser::{InfixFn, ParseRule, Parser, PrefixFn};
