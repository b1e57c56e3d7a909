use maghemite::evaluation::functions::{builtin_functions, lookup, replace};
use maghemite::evaluation::literals::{decimal_literal, integer_literal, number_literal};
use maghemite::evaluation::visitor::is_evaluable;
use maghemite::evaluation::{EvaluationError, Function, Visitor};
use maghemite::fhirpath::{Collection, Value, STRING};
use maghemite::parser::{ASTNode, ParserError};
use maghemite::Expression;
use rust_decimal::Decimal;

fn string(text: &str) -> Value {
    Value::String(text.to_string())
}

fn strings(texts: &[&str]) -> Collection {
    Collection::from_vec(texts.iter().map(|text| string(text)).collect())
}

fn evaluate(text: &str) -> Result<Collection, EvaluationError> {
    let expression = Expression::new(text).unwrap();
    assert!(expression.is_evaluable());
    expression.evaluate()
}

#[test]
fn test_literal_evaluation() {
    struct TestCase<'a> {
        expr: &'a str,
        expected: Collection,
    }

    let cases = vec![
        // Boolean
        TestCase {
            expr: "true",
            expected: Collection::from(Value::Boolean(true)),
        },
        TestCase {
            expr: "false",
            expected: Collection::from(Value::Boolean(false)),
        },
        // String
        TestCase {
            expr: "'hello, world'",
            expected: Collection::from(Value::String("hello, world".to_string())),
        },
        // Number
        TestCase {
            expr: "14060",
            expected: Collection::from(Value::Integer(14060)),
        },
        TestCase {
            expr: "0.00729735257",
            expected: Collection::from(Value::Decimal(Decimal::new(729735257, 11))),
        },
    ];

    for case in cases {
        if let Ok(expr) = Expression::new(case.expr) {
            assert!(expr.is_evaluable());
            if let Ok(result) = expr.evaluate() {
                assert_eq!(result.len(), case.expected.len());
                for (actual, expected) in result.iter().zip(case.expected.iter()) {
                    assert_eq!(actual, expected);
                }
            } else {
                panic!("error evaluating expression {}", case.expr)
            }
        } else {
            panic!("error parsing expression {}", case.expr)
        }
    }
}

#[test]
fn test_function_invocation() -> Result<(), EvaluationError> {
    let expression = Expression::new("'foobarian'.replace('foo', 'bar')").unwrap();
    assert!(expression.is_evaluable());
    let result = expression.evaluate()?;

    assert_eq!(result, Collection::from(Value::String("barbarian".to_string())));

    Ok(())
}

#[test]
fn true_evaluates_to_one_boolean() {
    assert_eq!(evaluate("true"), Ok(Collection::from(Value::Boolean(true))));
}

#[test]
fn string_literal_evaluates_to_its_text() {
    assert_eq!(
        evaluate("'hello, world'"),
        Ok(Collection::from(string("hello, world")))
    );
}

#[test]
fn numbers_evaluate_to_integer_or_decimal() {
    assert_eq!(evaluate("14060"), Ok(Collection::from(Value::Integer(14060))));
    assert_eq!(
        evaluate("0.00729735257"),
        Ok(Collection::from(Value::Decimal(Decimal::new(729735257, 11))))
    );
}

#[test]
fn replace_on_a_string_literal() {
    assert_eq!(
        evaluate("'foobarian'.replace('foo','bar')"),
        Ok(Collection::from(string("barbarian")))
    );
}

#[test]
fn unregistered_function_is_unavailable() {
    assert_eq!(
        evaluate("'a'.upper()"),
        Err(EvaluationError::FunctionUnavailable("upper".to_string()))
    );
    assert_eq!(
        evaluate("'a'.Replace('a', 'b')"),
        Err(EvaluationError::FunctionUnavailable("Replace".to_string()))
    );
}

#[test]
fn unterminated_string_does_not_compile() {
    assert!(matches!(
        Expression::new("'unterminated"),
        Err(ParserError::InvalidString)
    ));
}

#[test]
fn compile_reports_the_parser_failure() {
    assert!(matches!(Expression::new(""), Err(ParserError::EOF)));
    assert!(matches!(
        Expression::new("a # b"),
        Err(ParserError::InvalidIdentifierCharacter('#'))
    ));
    assert!(matches!(
        Expression::new("1 + 2"),
        Err(ParserError::UnexpectedToken(_))
    ));
}

#[test]
fn integer_limits() {
    assert_eq!(
        number_literal("2147483647"),
        Ok(Collection::from(Value::Integer(i32::MAX)))
    );
    assert_eq!(
        number_literal("-2147483648"),
        Ok(Collection::from(Value::Integer(i32::MIN)))
    );
    assert_eq!(number_literal("+7"), Ok(Collection::from(Value::Integer(7))));
    assert_eq!(number_literal("007"), Ok(Collection::from(Value::Integer(7))));
    assert_eq!(
        number_literal("00000000000000000000012"),
        Ok(Collection::from(Value::Integer(12)))
    );
    assert_eq!(number_literal("-0"), Ok(Collection::from(Value::Integer(0))));
}

#[test]
fn invalid_integer_carries_text_and_cause() {
    for raw in ["2147483648", "-2147483649", "", "+", "-", "12a", " 1", "1 ", "+-1", "\u{663}"] {
        let cause = raw.parse::<i32>().unwrap_err();
        assert_eq!(
            number_literal(raw),
            Err(EvaluationError::InvalidInteger(raw.to_string(), cause))
        );
    }
    assert_eq!(
        evaluate("99999999999"),
        Err(EvaluationError::InvalidInteger(
            "99999999999".to_string(),
            "99999999999".parse::<i32>().unwrap_err()
        ))
    );
}

#[test]
fn invalid_decimal_carries_text() {
    assert_eq!(
        evaluate("1.2.3"),
        Err(EvaluationError::InvalidDecimal("1.2.3".to_string()))
    );
    assert_eq!(
        number_literal("."),
        Err(EvaluationError::InvalidDecimal(".".to_string()))
    );
    assert_eq!(
        number_literal("1.x"),
        Err(EvaluationError::InvalidDecimal("1.x".to_string()))
    );
}

#[test]
fn decimal_literals() {
    assert_eq!(
        number_literal("1.50"),
        Ok(Collection::from(Value::Decimal(Decimal::new(150, 2))))
    );
    assert_eq!(
        number_literal("-0.5"),
        Ok(Collection::from(Value::Decimal(Decimal::new(-5, 1))))
    );
    assert_eq!(
        evaluate("7."),
        Ok(Collection::from(Value::Decimal(Decimal::new(7, 0))))
    );
}

#[test]
fn literal_from_a_given_parse_result() {
    assert_eq!(
        integer_literal("12", Ok(12)),
        Ok(Collection::from(Value::Integer(12)))
    );
    assert_eq!(
        integer_literal("x", "x".parse::<i32>()),
        Err(EvaluationError::InvalidInteger(
            "x".to_string(),
            "x".parse::<i32>().unwrap_err()
        ))
    );
    assert_eq!(
        decimal_literal("1.5", Ok(Decimal::new(15, 1))),
        Ok(Collection::from(Value::Decimal(Decimal::new(15, 1))))
    );
    assert_eq!(
        decimal_literal("1.5.", Decimal::from_str_radix("1.5.", 10)),
        Err(EvaluationError::InvalidDecimal("1.5.".to_string()))
    );
}

#[test]
fn replace_replaces_every_occurrence() {
    assert_eq!(
        evaluate("'banana'.replace('an', 'AN')"),
        Ok(Collection::from(string("bANANa")))
    );
    assert_eq!(
        evaluate("'aaaa'.replace('aa', 'b')"),
        Ok(Collection::from(string("bb")))
    );
    assert_eq!(
        evaluate("'abc'.replace('x', 'y')"),
        Ok(Collection::from(string("abc")))
    );
    assert_eq!(
        evaluate("'abc'.replace('', '-')"),
        Ok(Collection::from(string("-a-b-c-")))
    );
    assert_eq!(
        evaluate("'a.c'.replace('.', 'b')"),
        Ok(Collection::from(string("abc")))
    );
}

#[test]
fn replace_ignores_further_arguments() {
    assert_eq!(
        evaluate("'abc'.replace('a', 'b', 'c')"),
        Ok(Collection::from(string("bbc")))
    );
}

#[test]
fn replace_after_replace() {
    assert_eq!(
        evaluate("'foobarian'.replace('foo', 'bar').replace('bar', 'x')"),
        Ok(Collection::from(string("xxian")))
    );
}

#[test]
fn replace_rejects_an_input_that_is_no_single_string() {
    let params = strings(&["a", "b"]);
    assert_eq!(
        replace(&Collection::new(), &params),
        Err(EvaluationError::InvalidFunctionArguments(strings(&["a", "b"])))
    );
    assert_eq!(
        replace(&strings(&["x", "y"]), &params),
        Err(EvaluationError::InvalidFunctionArguments(strings(&["a", "b"])))
    );
    assert_eq!(
        replace(&Collection::from(Value::Integer(1)), &params),
        Err(EvaluationError::InvalidFunctionArguments(strings(&["a", "b"])))
    );
    assert_eq!(
        evaluate("14 .replace('a', 'b')"),
        Err(EvaluationError::InvalidFunctionArguments(strings(&["a", "b"])))
    );
    assert_eq!(
        evaluate("true.replace('a', 'b')"),
        Err(EvaluationError::InvalidFunctionArguments(strings(&["a", "b"])))
    );
}

#[test]
fn replace_rejects_arguments_that_are_not_two_strings() {
    let twice = strings(&["abc", "abc"]);
    let input = strings(&["abc"]);
    assert_eq!(
        replace(&input, &Collection::new()),
        Err(EvaluationError::InvalidFunctionArguments(strings(&["abc", "abc"])))
    );
    assert_eq!(
        replace(&input, &strings(&["a"])),
        Err(EvaluationError::InvalidFunctionArguments(strings(&["abc", "abc"])))
    );
    assert_eq!(
        replace(
            &input,
            &Collection::from_vec(vec![string("a"), Value::Integer(1)])
        ),
        Err(EvaluationError::InvalidFunctionArguments(strings(&["abc", "abc"])))
    );
    assert_eq!(
        evaluate("'abc'.replace()"),
        Err(EvaluationError::InvalidFunctionArguments(twice))
    );
    assert_eq!(
        evaluate("'abc'.replace(1, 'x')"),
        Err(EvaluationError::InvalidFunctionArguments(strings(&["abc", "abc"])))
    );
}

#[test]
fn function_call_goes_through_the_table() {
    let entries = builtin_functions();
    assert_eq!(lookup(&entries, "replace"), Some(Function::Replace));
    assert_eq!(lookup(&entries, "Replace"), None);
    assert_eq!(lookup(&entries, ""), None);
    assert_eq!(lookup(&vec![], "replace"), None);
    let twice = vec![("f", Function::Replace), ("g", Function::Replace), ("f", Function::Replace)];
    assert_eq!(lookup(&twice, "g"), Some(Function::Replace));
    assert_eq!(
        Function::Replace.call(&strings(&["abc"]), &strings(&["b", "x"])),
        Ok(strings(&["axc"]))
    );
}

#[test]
fn union_concatenates_in_order() {
    let mut visitor = Visitor::new();
    let node = ASTNode::union(
        ASTNode::union(ASTNode::string("a"), ASTNode::string("b")),
        ASTNode::union(ASTNode::string("a"), Box::new(ASTNode::BooleanLiteral(true))),
    );
    assert!(is_evaluable(&node));
    let left = visitor
        .visit_node(&ASTNode::union(ASTNode::string("a"), ASTNode::string("b")))
        .unwrap();
    let all = visitor.visit_node(&node).unwrap();
    assert_eq!(all.len(), left.len() + 2);
    assert_eq!(
        all,
        Collection::from_vec(vec![string("a"), string("b"), string("a"), Value::Boolean(true)])
    );
}

#[test]
fn union_fails_with_the_first_failure() {
    let mut visitor = Visitor::new();
    let node = ASTNode::union(
        Box::new(ASTNode::NumberLiteral("x".to_string())),
        Box::new(ASTNode::NumberLiteral("1.y".to_string())),
    );
    assert!(is_evaluable(&node));
    assert!(matches!(
        visitor.visit_node(&node),
        Err(EvaluationError::InvalidInteger(_, _))
    ));
}

#[test]
fn argument_lists() {
    let mut visitor = Visitor::new();
    assert_eq!(
        visitor.visit_node(&ASTNode::empty_params()),
        Ok(Collection::new())
    );
    assert_eq!(
        visitor.visit_node(&ASTNode::params(ASTNode::string("a"))),
        Ok(strings(&["a"]))
    );
}

#[test]
fn invalid_trees() {
    let mut visitor = Visitor::new();
    let callee_is_no_identifier = ASTNode::invocation(
        ASTNode::string("a"),
        ASTNode::function(ASTNode::string("f"), ASTNode::empty_params()),
    );
    assert!(is_evaluable(&callee_is_no_identifier));
    assert_eq!(
        visitor.visit_node(&callee_is_no_identifier),
        Err(EvaluationError::InvalidAST)
    );
    let no_call_after_dot = ASTNode::invocation(ASTNode::string("a"), ASTNode::string("b"));
    assert!(is_evaluable(&no_call_after_dot));
    assert_eq!(
        visitor.visit_node(&no_call_after_dot),
        Err(EvaluationError::InvalidAST)
    );
    let input_fails_first = ASTNode::invocation(
        Box::new(ASTNode::NumberLiteral("x".to_string())),
        ASTNode::string("b"),
    );
    assert!(matches!(
        visitor.visit_node(&input_fails_first),
        Err(EvaluationError::InvalidInteger(_, _))
    ));
}

#[test]
fn arguments_are_evaluated_before_the_function_is_looked_up() {
    assert!(matches!(
        evaluate("'a'.nothing('b')"),
        Err(EvaluationError::FunctionUnavailable(_))
    ));
    let mut visitor = Visitor::new();
    let node = ASTNode::invocation(
        ASTNode::string("a"),
        ASTNode::function(
            ASTNode::identifier("nothing"),
            ASTNode::params(Box::new(ASTNode::NumberLiteral("x".to_string()))),
        ),
    );
    assert!(matches!(
        visitor.visit_node(&node),
        Err(EvaluationError::InvalidInteger(_, _))
    ));
}

#[test]
fn nodes_without_a_value_are_not_evaluable() {
    assert!(!is_evaluable(&ASTNode::identifier("Patient")));
    assert!(!is_evaluable(&ASTNode::MemberInvocation(ASTNode::identifier("a"))));
    assert!(!is_evaluable(&ASTNode::function(
        ASTNode::identifier("f"),
        ASTNode::empty_params()
    )));
    assert!(!is_evaluable(&ASTNode::invocation(
        ASTNode::string("a"),
        ASTNode::identifier("b")
    )));
    assert!(!is_evaluable(&ASTNode::union(
        ASTNode::string("a"),
        ASTNode::identifier("b")
    )));
    assert!(!Expression::new("Patient.name").unwrap().is_evaluable());
    assert!(!Expression::new("Patient.name.family.replace('er', 'iams')")
        .unwrap()
        .is_evaluable());
    assert!(Expression::new("'a'.f('b', 'c')").unwrap().is_evaluable());
}

#[test]
fn singleton_of_the_input_is_required_by_replace() {
    let input = strings(&["abc"]);
    assert_eq!(input.singleton(STRING), Ok(&string("abc")));
    assert_eq!(
        replace(&input, &strings(&["b", ""])),
        Ok(strings(&["ac"]))
    );
}
