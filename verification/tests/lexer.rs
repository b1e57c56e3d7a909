use maghemite::parser::lexer::is_valid_identifier_char;
use maghemite::parser::{Lexer, ParserError, Token};

fn tokens_of(expression: &str) -> Result<Vec<Token>, ParserError> {
    Lexer::new(expression).tokenize()
}

fn source(token: &Token) -> String {
    match token {
        Token::String(text) => format!("'{}'", text),
        Token::Number(raw) => raw.clone(),
        Token::Boolean(value) => format!("{}", value),
        Token::Identifier(name) => name.clone(),
        Token::Plus => "+".to_string(),
        Token::Minus => "-".to_string(),
        Token::Dot => ".".to_string(),
        Token::LeftParen => "(".to_string(),
        Token::RightParen => ")".to_string(),
        Token::Comma => ",".to_string(),
    }
}

fn without_whitespace(text: &str) -> String {
    text.chars()
        .filter(|c| !matches!(c, ' ' | '\t' | '\r' | '\n'))
        .collect()
}

#[test]
fn test_lexer() {
    struct TestCase {
        expression: &'static str,
        expected: Vec<Token>,
    }
    let test_cases = vec![
        TestCase {
            expression: "Patient.name.family.replace('er', 'iams')",
            expected: vec![
                Token::Identifier("Patient".to_string()),
                Token::Dot,
                Token::Identifier("name".to_string()),
                Token::Dot,
                Token::Identifier("family".to_string()),
                Token::Dot,
                Token::Identifier("replace".to_string()),
                Token::LeftParen,
                Token::String("er".to_string()),
                Token::Comma,
                Token::String("iams".to_string()),
                Token::RightParen,
            ],
        },
        TestCase {
            expression: "12345 + 67890",
            expected: vec![
                Token::Number("12345".to_string()),
                Token::Plus,
                Token::Number("67890".to_string()),
            ],
        },
        TestCase {
            expression: "true",
            expected: vec![Token::Boolean(true)],
        },
        TestCase {
            expression: "false",
            expected: vec![Token::Boolean(false)],
        },
    ];

    for test in test_cases {
        let mut lex = Lexer::new(test.expression);
        let tokens = lex.tokenize();

        if tokens.is_err() {
            assert!(false, "{:?}", tokens)
        }

        assert_eq!(tokens.unwrap(), test.expected);
    }
}

#[test]
fn empty_input_has_no_tokens() {
    assert_eq!(tokens_of(""), Ok(vec![]));
    assert_eq!(tokens_of(" \t\r\n "), Ok(vec![]));
}

#[test]
fn punctuation_maps_to_its_token() {
    assert_eq!(
        tokens_of(".,()+-"),
        Ok(vec![
            Token::Dot,
            Token::Comma,
            Token::LeftParen,
            Token::RightParen,
            Token::Plus,
            Token::Minus,
        ])
    );
}

#[test]
fn token_after_a_number_is_kept() {
    assert_eq!(
        tokens_of("1+2"),
        Ok(vec![
            Token::Number("1".to_string()),
            Token::Plus,
            Token::Number("2".to_string()),
        ])
    );
    assert_eq!(
        tokens_of("12)"),
        Ok(vec![Token::Number("12".to_string()), Token::RightParen])
    );
}

#[test]
fn number_run_takes_digits_and_dots() {
    assert_eq!(
        tokens_of("0.00729735257"),
        Ok(vec![Token::Number("0.00729735257".to_string())])
    );
    assert_eq!(
        tokens_of("1.2.3"),
        Ok(vec![Token::Number("1.2.3".to_string())])
    );
    assert_eq!(tokens_of("7."), Ok(vec![Token::Number("7.".to_string())]));
    assert_eq!(
        tokens_of("12abc"),
        Ok(vec![
            Token::Number("12".to_string()),
            Token::Identifier("abc".to_string()),
        ])
    );
}

#[test]
fn dot_before_a_digit_is_punctuation() {
    assert_eq!(
        tokens_of(".5"),
        Ok(vec![Token::Dot, Token::Number("5".to_string())])
    );
}

#[test]
fn string_run_excludes_its_quotes() {
    assert_eq!(
        tokens_of("'hello, world'"),
        Ok(vec![Token::String("hello, world".to_string())])
    );
    assert_eq!(tokens_of("''"), Ok(vec![Token::String("".to_string())]));
    assert_eq!(
        tokens_of("'a''b'"),
        Ok(vec![
            Token::String("a".to_string()),
            Token::String("b".to_string()),
        ])
    );
}

#[test]
fn string_may_hold_any_character_but_a_quote() {
    assert_eq!(
        tokens_of("'gr\u{fc}n \u{1f600}' x"),
        Ok(vec![
            Token::String("gr\u{fc}n \u{1f600}".to_string()),
            Token::Identifier("x".to_string()),
        ])
    );
}

#[test]
fn unterminated_string_is_rejected() {
    assert_eq!(tokens_of("'unterminated"), Err(ParserError::InvalidString));
    assert_eq!(tokens_of("'"), Err(ParserError::InvalidString));
    assert_eq!(tokens_of("a.b('c"), Err(ParserError::InvalidString));
}

#[test]
fn invalid_character_is_rejected() {
    assert_eq!(
        tokens_of("a # b"),
        Err(ParserError::InvalidIdentifierCharacter('#'))
    );
    assert_eq!(
        tokens_of("\u{e9}"),
        Err(ParserError::InvalidIdentifierCharacter('\u{e9}'))
    );
    assert_eq!(
        tokens_of("name*"),
        Err(ParserError::InvalidIdentifierCharacter('*'))
    );
}

#[test]
fn words_are_identifiers_or_booleans() {
    assert_eq!(
        tokens_of("truex _a1 True false0 true"),
        Ok(vec![
            Token::Identifier("truex".to_string()),
            Token::Identifier("_a1".to_string()),
            Token::Identifier("True".to_string()),
            Token::Identifier("false0".to_string()),
            Token::Boolean(true),
        ])
    );
}

#[test]
fn identifier_characters() {
    for c in ['a', 'z', 'A', 'Z', '0', '9', '_'] {
        assert!(is_valid_identifier_char(c));
    }
    for c in ['-', ' ', '.', '\'', '\u{e9}', '`', '{', '@', '[', '/', ':'] {
        assert!(!is_valid_identifier_char(c));
    }
}

#[test]
fn tokenize_twice_finds_nothing_more() {
    let mut lexer = Lexer::new("a.b");
    assert_eq!(lexer.tokenize().map(|tokens| tokens.len()), Ok(3));
    assert_eq!(lexer.tokenize(), Ok(vec![]));
}

#[test]
fn tokenize_again_after_a_failure_fails_again() {
    let mut lexer = Lexer::new("a 'b");
    assert_eq!(lexer.tokenize(), Err(ParserError::InvalidString));
    assert_eq!(lexer.tokenize(), Err(ParserError::InvalidString));
}

#[test]
fn tokens_written_back_give_the_text_without_whitespace() {
    for expression in [
        "Patient.name.family.replace('er', 'iams')",
        "12345 + 67890",
        " true ,\tfalse\r\n",
        "'a b'.f( 1.5 , x_1 )-3",
        "",
    ] {
        let tokens = tokens_of(expression).unwrap();
        let written: String = tokens.iter().map(source).collect();
        assert_eq!(without_whitespace(&written), without_whitespace(expression));
    }
}

#[test]
fn token_constructors() {
    assert_eq!(Token::identifier("abc"), Token::Identifier("abc".to_string()));
    assert_eq!(Token::string("a b"), Token::String("a b".to_string()));
    assert_eq!(Token::string("x").clone(), Token::String("x".to_string()));
}

#[test]
fn member_chain_with_call_has_twelve_tokens() {
    let tokens = tokens_of("Patient.name.family.replace('er','iams')").unwrap();
    assert_eq!(tokens.len(), 12);
    assert_eq!(tokens.last(), Some(&Token::RightParen));
}

#[test]
fn tokens_written_with_spaces_are_read_back() {
    for expression in [
        "Patient.name.family.replace('er', 'iams')",
        "12345+67890",
        "true,false",
        "'a b'.f(1.5,x_1)-3",
        "7..8",
        "",
    ] {
        let tokens = tokens_of(expression).unwrap();
        let written: String = tokens
            .iter()
            .map(|token| format!("{} ", source(token)))
            .collect();
        assert_eq!(tokens_of(&written), Ok(tokens));
    }
}
