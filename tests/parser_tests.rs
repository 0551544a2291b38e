use lisp_playground::ast::{Expr, Value};
use lisp_playground::parser::parse_text;
use lisp_playground::ParseError;

fn parse_one(input: &str) -> Expr {
    let wrapped = format!("({input})");
    let mut result = parse_text(&wrapped).unwrap();
    assert_eq!(result.len(), 1);
    result.pop().unwrap()
}

fn do_literal_test(input: &str, expected: Value) {
    assert_eq!(parse_one(input), Expr::Value(expected));
}

/// Floats are held as the text of their literal; compare their values.
fn do_float_test(input: &str, expected: f64) {
    match parse_one(input) {
        Expr::Value(Value::Float(text)) => {
            let value: f64 = text.parse().unwrap();
            assert_eq!(value, expected);
            assert_eq!(value.is_sign_negative(), expected.is_sign_negative());
        },
        other => panic!("not a float: {other:?}"),
    }
}

#[test]
fn parser_test_parse_ints() {
    do_literal_test("0", Value::Int(0));
    do_literal_test("10", Value::Int(10));
    do_literal_test("00103", Value::Int(103));
}

#[test]
fn parser_test_parse_floats() {
    do_float_test("0.", 0.);
    do_float_test("82.7110", 82.7110);
    do_float_test("010.", 10.);
    do_float_test("12e3", 12000.);
}

#[test]
fn parser_test_parse_chars() {
    do_literal_test("c'0'", Value::Char('0'));
    do_literal_test("c\"👋\"", Value::Char('👋'));
    do_literal_test("c\"µ\"", Value::Char('µ'));
}

#[test]
fn parser_test_parse_negative_numbers() {
    do_literal_test("-1", Value::Int(-1));
    do_literal_test("-0", Value::Int(-0));
    do_literal_test("- 0010", Value::Int(-10));

    do_float_test("-  0.", -0.);
    do_float_test("- 82.7110", -82.7110);
    do_float_test("-010.", -10.);
    do_float_test("- 12e3", -12000.);
}

#[test]
fn expr_builder_test_parse_ints() {
    do_literal_test("0", Value::Int(0));
    do_literal_test("10", Value::Int(10));
    do_literal_test("00103", Value::Int(103));
}

#[test]
fn expr_builder_test_parse_floats() {
    do_float_test("0.", 0.);
    do_float_test("82.7110", 82.7110);
    do_float_test("010.", 10.);
    do_float_test("12e3", 12000.);
}

#[test]
fn expr_builder_test_parse_negative_numbers() {
    do_literal_test("-1", Value::Int(-1));
    do_literal_test("-0", Value::Int(-0));
    do_literal_test("- 0010", Value::Int(-10));

    do_float_test("-  0.", -0.);
    do_float_test("- 82.7110", -82.7110);
    do_float_test("-010.", -10.);
    do_float_test("- 12e3", -12000.);
}

#[test]
fn parse_words_and_quotes() {
    assert_eq!(parse_one("true"), Expr::Value(Value::Bool(true)));
    assert_eq!(parse_one("nil"), Expr::Value(Value::Nil));
    assert_eq!(parse_one(":key"), Expr::Keyword(":key".to_string()));
    assert_eq!(parse_one("foo-bar?"), Expr::Symbol("foo-bar?".to_string()));
    assert_eq!(parse_one("'a\\tb'"), Expr::Value(Value::Str("a\tb".to_string())));
    assert_eq!(parse_one("b'ab'"), Expr::Value(Value::Bytes(vec![97, 98])));
}

#[test]
fn parse_nested() {
    let parsed = parse_text("(a (b 1) ())").unwrap();
    assert_eq!(
        parsed,
        vec![
            Expr::Symbol("a".to_string()),
            Expr::SExpr(vec![Expr::Symbol("b".to_string()), Expr::Value(Value::Int(1))]),
            Expr::SExpr(vec![]),
        ]
    );
}

#[test]
fn parse_errors() {
    assert_eq!(parse_text(""), Err(ParseError::NoTokens));
    assert_eq!(parse_text("a"), Err(ParseError::MissingOpenParen));
    assert_eq!(parse_text("(a"), Err(ParseError::Unclosed));
    assert_eq!(parse_text("(a) b"), Err(ParseError::TrailingTokens));
    assert_eq!(parse_text("(a -"), Err(ParseError::DanglingDash));
    assert_eq!(parse_text("(- x)"), Err(ParseError::CannotNegate));
    assert_eq!(parse_text("(- (x))"), Err(ParseError::UnhandledToken));
    assert_eq!(parse_text("(NIL)"), Err(ParseError::UppercaseNil));
    assert_eq!(parse_text("(1abc)"), Err(ParseError::InvalidWord));
    assert_eq!(parse_text("(15u32)"), Err(ParseError::InvalidWord));
    assert_eq!(parse_text("(c'ab')"), Err(ParseError::InvalidCharQuote));
    assert_eq!(parse_text("(99999999999999999999)"), Err(ParseError::InvalidWord));
}
