use maghemite::parser::parser::{
    COMMA_PRECEDENCE, DOT_PRECEDENCE, INITIAL_PRECEDENCE, LPAREN_PRECEDENCE, MINUS_PRECEDENCE,
    PLUS_PRECEDENCE, RPAREN_PRECEDENCE,
};
use maghemite::parser::{ASTNode, InfixFn, Lexer, ParseRule, Parser, ParserError, PrefixFn, Token};

fn parse(expression: &str) -> Result<Box<ASTNode>, ParserError> {
    let tokens = Lexer::new(expression).tokenize().unwrap();
    Parser::new(tokens).parse()
}

#[test]
fn test_parser() {
    struct TestCase {
        input: Vec<Token>,
        expected: Box<ASTNode>,
    }
    let test_cases = vec![TestCase {
        input: vec![
            Token::identifier("Patient"),
            Token::Dot,
            Token::identifier("name"),
            Token::Dot,
            Token::identifier("family"),
            Token::Dot,
            Token::identifier("replace"),
            Token::LeftParen,
            Token::string("er"),
            Token::Comma,
            Token::string("iams"),
            Token::RightParen,
        ],
        expected: ASTNode::invocation(
            ASTNode::invocation(
                ASTNode::invocation(
                    ASTNode::identifier("Patient"),
                    ASTNode::identifier("name"),
                ),
                ASTNode::identifier("family"),
            ),
            ASTNode::function(
                ASTNode::identifier("replace"),
                ASTNode::params(ASTNode::union(
                    ASTNode::string("er"),
                    ASTNode::string("iams"),
                )),
            ),
        ),
    }];

    for test in test_cases {
        let parser = Parser::new(test.input);
        let ast = parser.parse().expect("failed building AST");
        assert_eq!(ast, test.expected, "output AST does not match expected");
    }
}

#[test]
fn literals_parse_to_leaves() {
    assert_eq!(parse("true"), Ok(Box::new(ASTNode::BooleanLiteral(true))));
    assert_eq!(parse("false"), Ok(Box::new(ASTNode::BooleanLiteral(false))));
    assert_eq!(
        parse("14060"),
        Ok(Box::new(ASTNode::NumberLiteral("14060".to_string())))
    );
    assert_eq!(parse("'hi'"), Ok(ASTNode::string("hi")));
    assert_eq!(parse("Patient"), Ok(ASTNode::identifier("Patient")));
}

#[test]
fn chain_nests_to_the_left() {
    let mut expected = ASTNode::identifier("a");
    let mut text = String::from("a");
    for name in ["b", "c", "d", "e"] {
        text.push('.');
        text.push_str(name);
        expected = ASTNode::invocation(expected, ASTNode::identifier(name));
        assert_eq!(parse(&text), Ok(expected_copy(&expected)));
    }
}

fn expected_copy(node: &ASTNode) -> Box<ASTNode> {
    Box::new(match node {
        ASTNode::BooleanLiteral(b) => ASTNode::BooleanLiteral(*b),
        ASTNode::StringLiteral(s) => ASTNode::StringLiteral(s.clone()),
        ASTNode::NumberLiteral(s) => ASTNode::NumberLiteral(s.clone()),
        ASTNode::Identifier(s) => ASTNode::Identifier(s.clone()),
        ASTNode::MemberInvocation(inner) => ASTNode::MemberInvocation(expected_copy(inner)),
        ASTNode::InvocationExpression(l, r) => {
            ASTNode::InvocationExpression(expected_copy(l), expected_copy(r))
        }
        ASTNode::Function(l, r) => ASTNode::Function(expected_copy(l), expected_copy(r)),
        ASTNode::ParamList(inner) => ASTNode::ParamList(inner.as_ref().map(|n| expected_copy(n))),
        ASTNode::Union(l, r) => ASTNode::Union(expected_copy(l), expected_copy(r)),
    })
}

#[test]
fn call_without_arguments() {
    assert_eq!(
        parse("a.f()"),
        Ok(ASTNode::invocation(
            ASTNode::identifier("a"),
            ASTNode::function(ASTNode::identifier("f"), ASTNode::empty_params()),
        ))
    );
}

#[test]
fn arguments_join_to_the_left() {
    assert_eq!(
        parse("f('a', 'b', 'c')"),
        Ok(ASTNode::function(
            ASTNode::identifier("f"),
            ASTNode::params(ASTNode::union(
                ASTNode::union(ASTNode::string("a"), ASTNode::string("b")),
                ASTNode::string("c"),
            )),
        ))
    );
}

#[test]
fn call_after_call() {
    assert_eq!(
        parse("'x'.f('a').g()"),
        Ok(ASTNode::invocation(
            ASTNode::invocation(
                ASTNode::string("x"),
                ASTNode::function(
                    ASTNode::identifier("f"),
                    ASTNode::params(ASTNode::string("a")),
                ),
            ),
            ASTNode::function(ASTNode::identifier("g"), ASTNode::empty_params()),
        ))
    );
}

#[test]
fn no_tokens_is_end_of_input() {
    assert_eq!(Parser::new(vec![]).parse(), Err(ParserError::EOF));
}

#[test]
fn missing_operand_is_end_of_input() {
    assert_eq!(parse("a."), Err(ParserError::EOF));
    assert_eq!(parse("f("), Err(ParserError::EOF));
    assert_eq!(parse("f('a',"), Err(ParserError::EOF));
}

#[test]
fn token_without_prefix_rule_is_unexpected() {
    assert_eq!(parse(".a"), Err(ParserError::UnexpectedToken(Token::Dot)));
    assert_eq!(parse("+"), Err(ParserError::UnexpectedToken(Token::Plus)));
    assert_eq!(parse("-1"), Err(ParserError::UnexpectedToken(Token::Minus)));
    assert_eq!(parse(",a"), Err(ParserError::UnexpectedToken(Token::Comma)));
    assert_eq!(
        parse("(a)"),
        Err(ParserError::UnexpectedToken(Token::LeftParen))
    );
    assert_eq!(parse("a..b"), Err(ParserError::UnexpectedToken(Token::Dot)));
}

#[test]
fn leftover_token_is_unexpected() {
    assert_eq!(
        parse("a b"),
        Err(ParserError::UnexpectedToken(Token::identifier("b")))
    );
    assert_eq!(
        parse("12345 + 67890"),
        Err(ParserError::UnexpectedToken(Token::Plus))
    );
    assert_eq!(
        parse("'a' 'b'"),
        Err(ParserError::UnexpectedToken(Token::string("b")))
    );
}

#[test]
fn parse_rules() {
    assert_eq!(
        Token::Dot.parse_rule(),
        ParseRule {
            precedence: DOT_PRECEDENCE,
            prefix_parselet: None,
            infix_parselet: Some(InfixFn::Dot),
        }
    );
    assert_eq!(
        Token::RightParen.parse_rule(),
        ParseRule {
            precedence: RPAREN_PRECEDENCE,
            prefix_parselet: Some(PrefixFn::EmptyParams),
            infix_parselet: Some(InfixFn::ParamList),
        }
    );
    assert_eq!(Token::identifier("a").precedence(), INITIAL_PRECEDENCE);
    assert_eq!(Token::string("a").precedence(), INITIAL_PRECEDENCE);
    assert_eq!(Token::Number("1".to_string()).precedence(), INITIAL_PRECEDENCE);
    assert_eq!(Token::Boolean(true).precedence(), INITIAL_PRECEDENCE);
    assert_eq!(Token::LeftParen.precedence(), LPAREN_PRECEDENCE);
    assert_eq!(Token::Comma.precedence(), COMMA_PRECEDENCE);
    assert_eq!(Token::Plus.precedence(), PLUS_PRECEDENCE);
    assert_eq!(Token::Minus.precedence(), MINUS_PRECEDENCE);
    assert_eq!(
        [
            INITIAL_PRECEDENCE,
            PLUS_PRECEDENCE,
            MINUS_PRECEDENCE,
            DOT_PRECEDENCE,
            LPAREN_PRECEDENCE,
            RPAREN_PRECEDENCE,
            COMMA_PRECEDENCE,
        ],
        [0, 1, 2, 3, 4, 5, 6]
    );
    assert_eq!(Token::identifier("a").prefix_parselet(), Some(PrefixFn::Identifier));
    assert_eq!(Token::string("a").prefix_parselet(), Some(PrefixFn::StringLiteral));
    assert_eq!(Token::Boolean(false).prefix_parselet(), Some(PrefixFn::BooleanLiteral));
    assert_eq!(
        Token::Number("1".to_string()).prefix_parselet(),
        Some(PrefixFn::NumberLiteral)
    );
    assert_eq!(Token::Plus.prefix_parselet(), None);
    assert_eq!(Token::Plus.infix_parselet(), None);
    assert_eq!(Token::LeftParen.infix_parselet(), Some(InfixFn::Function));
    assert_eq!(Token::Comma.infix_parselet(), Some(InfixFn::Union));
    assert_eq!(Token::identifier("a").infix_parselet(), None);
}

#[test]
fn parse_expression_stops_at_looser_tokens() {
    let mut parser = Parser::new(vec![
        Token::identifier("a"),
        Token::Dot,
        Token::identifier("b"),
        Token::Comma,
        Token::identifier("c"),
    ]);
    assert_eq!(
        parser.parse_expression(COMMA_PRECEDENCE),
        Ok(ASTNode::identifier("a"))
    );
    assert_eq!(parser.peek(), Some(Token::Dot));
    assert_eq!(parser.next_token(), Some(Token::Dot));
    assert_eq!(
        parser.parse_expression(DOT_PRECEDENCE),
        Ok(ASTNode::union(ASTNode::identifier("b"), ASTNode::identifier("c")))
    );
    assert_eq!(parser.next_token(), None);
    assert_eq!(parser.peek(), None);
}

#[test]
fn prefix_parselet_rejects_another_kind_of_token() {
    let mut parser = Parser::new(vec![]);
    assert_eq!(
        PrefixFn::Identifier.parse(&mut parser, &Token::string("a")),
        Err(ParserError::UnexpectedToken(Token::string("a")))
    );
    assert_eq!(
        PrefixFn::StringLiteral.parse(&mut parser, &Token::identifier("a")),
        Err(ParserError::UnexpectedToken(Token::identifier("a")))
    );
    assert_eq!(
        PrefixFn::EmptyParams.parse(&mut parser, &Token::RightParen),
        Ok(ASTNode::empty_params())
    );
}

#[test]
fn member_chain_with_call_nests_three_invocations() {
    let ast = parse("Patient.name.family.replace('er','iams')").unwrap();
    let mut depth = 0;
    let mut node: &ASTNode = &ast;
    let mut call = None;
    while let ASTNode::InvocationExpression(left, right) = node {
        if depth == 0 {
            call = Some(right);
        }
        depth += 1;
        node = left;
    }
    assert_eq!(depth, 3);
    assert_eq!(node, &ASTNode::Identifier("Patient".to_string()));
    assert!(matches!(call.map(|c| &**c), Some(ASTNode::Function(_, _))));
}
