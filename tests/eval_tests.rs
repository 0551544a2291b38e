use lisp_playground::ast::{Arity, BuiltinOp, CallForm, Expr, Function, Scope, SpecialForm, SpecialKind, Value};
use lisp_playground::closures::{capture_sexp_references, capture_symbol_reference};
use lisp_playground::parser::parse_text;
use lisp_playground::{builtins, eval, eval_function, EvalError};

fn parse(s: &str) -> Expr {
    Expr::SExpr(parse_text(s).unwrap())
}

fn run(s: &str, scope: &mut Scope) -> Result<Expr, EvalError> {
    eval(&parse(s), scope)
}

fn num(n: isize) -> Expr {
    Expr::Value(Value::Int(n))
}

fn sym(s: &str) -> Expr {
    Expr::Symbol(s.to_string())
}

#[test]
fn literals_quote_themselves() {
    let mut scope = builtins().child();
    for e in [
        num(7),
        Expr::Value(Value::Str("s".to_string())),
        Expr::Keyword(":k".to_string()),
        Expr::Record(vec![(":a".to_string(), num(1))]),
        Expr::Special(SpecialForm { name: "quote".to_string(), arity: Arity::Variadic, kind: SpecialKind::Quote }),
    ] {
        assert_eq!(eval(&e, &mut scope), Ok(e));
    }
    assert_eq!(run("()", &mut scope), Ok(Expr::SExpr(vec![])));
}

#[test]
fn symbol_resolution() {
    let mut scope = builtins().child();
    scope.set("x", num(42));
    assert_eq!(eval(&sym("x"), &mut scope), Ok(num(42)));
    assert_eq!(eval(&sym("y"), &mut scope), Err(EvalError::LookupError("y".to_string())));
    assert!(scope.has("x"));
    assert!(!scope.has("quote"));
    assert!(scope.lookup("quote").is_some());
}

#[test]
fn if_evaluates_only_the_chosen_branch() {
    let mut scope = builtins().child();
    assert_eq!(run("(if true 1 (unbound-symbol))", &mut scope), Ok(num(1)));
    assert_eq!(run("(if false (unbound-symbol) 2)", &mut scope), Ok(num(2)));
    assert_eq!(
        run("(if (quote true) 1 2)", &mut scope),
        Err(EvalError::Type { expected: "Bool".to_string(), actual: "S-expression".to_string() })
    );
}

#[test]
fn arguments_are_evaluated_left_to_right() {
    let mut scope = builtins().child();
    let r = run("(add (defvar x 1) (defvar x 2))", &mut scope);
    assert!(r.is_err());
    assert_eq!(scope.lookup("x"), Some(num(2)));
    assert_eq!(run("(I (echo (defvar y 3)))", &mut scope), Ok(Expr::SExpr(vec![])));
    assert_eq!(scope.lookup("y"), Some(num(3)));
}

#[test]
fn lambda_captures_at_definition() {
    let mut scope = builtins().child();
    run("(defvar x 5)", &mut scope).unwrap();
    run("(defvar f (lambda () (echo x)))", &mut scope).unwrap();
    run("(defvar x 6)", &mut scope).unwrap();
    assert_eq!(run("(f)", &mut scope), Ok(num(5)));
    assert_eq!(run("(echo x)", &mut scope), Ok(num(6)));
}

#[test]
fn parameters_shadow_outer_names() {
    let mut scope = builtins().child();
    run("(defvar x 100)", &mut scope).unwrap();
    run("(define (f x) (add x x))", &mut scope).unwrap();
    assert_eq!(run("(f 7)", &mut scope), Ok(num(14)));
    run("(defvar g (lambda (x) (echo x)))", &mut scope).unwrap();
    assert_eq!(run("(g 7)", &mut scope), Ok(num(7)));
    match scope.lookup("g") {
        Some(Expr::Function(Function { form: CallForm::Lambda { scope: captured, .. }, .. })) => {
            assert!(captured.lookup("x").is_none());
            assert!(captured.lookup("echo").is_some());
        },
        other => panic!("not a lambda: {other:?}"),
    }
}

#[test]
fn arity_is_enforced() {
    let mut scope = builtins().child();
    let err = |n| EvalError::Arity { name: "concat".to_string(), arity: 2, num_args_provided: n };
    assert_eq!(run("(concat (quote 1))", &mut scope), Err(err(1)));
    assert_eq!(run("(concat (quote 1) (quote 2) (quote 3))", &mut scope), Err(err(3)));
    assert_eq!(run("(concat (quote 1) (quote 2))", &mut scope), Ok(Expr::SExpr(vec![num(1), num(2)])));
    assert_eq!(
        run("(quote)", &mut scope),
        Ok(Expr::SExpr(vec![]))
    );
    assert_eq!(
        run("(if true 1)", &mut scope),
        Err(EvalError::Arity { name: "if".to_string(), arity: 3, num_args_provided: 2 })
    );
}

#[test]
fn quote_returns_arguments_unevaluated() {
    let mut scope = builtins().child();
    assert_eq!(run("(quote 1 2)", &mut scope), Ok(Expr::SExpr(vec![num(1), num(2)])));
}

#[test]
fn lambda_parameter_is_substituted() {
    let mut scope = builtins().child();
    assert_eq!(run("((lambda (a) (echo a)) 9)", &mut scope), Ok(num(9)));
    assert_eq!(run("((lambda (a) (quote a)) 9)", &mut scope), Ok(Expr::SExpr(vec![sym("a")])));
}

#[test]
fn define_with_symbol_and_list() {
    let mut scope = builtins().child();
    assert_eq!(run("(define z 3)", &mut scope), Ok(Expr::SExpr(vec![])));
    assert_eq!(scope.lookup("z"), Some(num(3)));
    run("(def (pair a b) (concat (quote 1) (quote 2)))", &mut scope).unwrap();
    assert_eq!(run("(len (pair 1 2))", &mut scope), Ok(num(2)));
    assert_eq!(
        run("(define () 1)", &mut scope),
        Err(EvalError::Syntax { expected: "List of symbols".to_string(), actual: "Empty".to_string() })
    );
    assert_eq!(
        run("(define 1 2)", &mut scope),
        Err(EvalError::Syntax { expected: "S-Expression or Symbol".to_string(), actual: "Value".to_string() })
    );
}

#[test]
fn capture_reports_unbound_names() {
    let mut scope = builtins().child();
    assert_eq!(
        run("(lambda () (echo nope))", &mut scope),
        Err(EvalError::LookupError("nope".to_string()))
    );
    assert_eq!(
        run("(lambda (1) (echo 1))", &mut scope),
        Err(EvalError::Syntax { expected: "Symbol".to_string(), actual: "Value".to_string() })
    );
    assert_eq!(
        run("(lambda () x)", &mut scope),
        Err(EvalError::Syntax { expected: "S-expression".to_string(), actual: "Symbol".to_string() })
    );
}

#[test]
fn capture_walk_collects_free_variables() {
    let mut outer = builtins().child();
    outer.set("x", num(1));
    outer.set("y", sym("y"));
    let body = parse_text("(add x (echo y))").unwrap();
    let mut captured = Scope::new(None);
    assert_eq!(capture_sexp_references(&body, &outer, &mut captured), Ok(()));
    assert_eq!(captured.lookup("x"), Some(num(1)));
    assert!(captured.lookup("add").is_some());
    assert!(captured.lookup("y").is_none());
    let body = parse_text("(quote missing)").unwrap();
    let mut captured = Scope::new(None);
    assert_eq!(capture_sexp_references(&body, &outer, &mut captured), Ok(()));
    assert!(captured.lookup("quote").is_some());
    assert!(captured.lookup("missing").is_none());
}

#[test]
fn not_callable_head() {
    let mut scope = builtins().child();
    assert_eq!(run("(1 2)", &mut scope), Err(EvalError::NotCallable("Value".to_string())));
}

#[test]
fn define_body_cannot_name_the_function_itself() {
    let mut scope = builtins().child();
    assert_eq!(run("(define (f) (f))", &mut scope), Err(EvalError::LookupError("f".to_string())));
}

#[test]
fn nesting_beyond_the_depth_budget_is_an_error() {
    let mut scope = builtins().child();
    let mut nested = String::from("(echo 1)");
    for _ in 0..300 {
        nested = format!("(echo {nested})");
    }
    assert_eq!(run(&nested, &mut scope), Err(EvalError::DepthExceeded));
}

#[test]
fn builtin_operations() {
    let mut scope = builtins().child();
    assert_eq!(run("(add 2 3)", &mut scope), Ok(num(5)));
    assert_eq!(run("(+ 'ab' 'cd')", &mut scope), Ok(Expr::Value(Value::Str("abcd".to_string()))));
    assert_eq!(run("(+ c'a' c'b')", &mut scope), Ok(Expr::Value(Value::Str("ab".to_string()))));
    assert_eq!(run("(+ 'a' c'b')", &mut scope), Ok(Expr::Value(Value::Str("ab".to_string()))));
    assert_eq!(run("(+ c'a' 'b')", &mut scope), Ok(Expr::Value(Value::Str("ab".to_string()))));
    assert_eq!(
        run("(+ 1 'b')", &mut scope),
        Err(EvalError::Type { expected: "Supported addition".to_string(), actual: "Int + Str".to_string() })
    );
    assert_eq!(
        run("(+ 9223372036854775807 1)", &mut scope),
        Err(EvalError::Type { expected: "Int".to_string(), actual: "Int overflow".to_string() })
    );
    assert_eq!(run("(range 2 5)", &mut scope), Ok(Expr::SExpr(vec![num(2), num(3), num(4)])));
    assert_eq!(run("(range 5 2)", &mut scope), Ok(Expr::SExpr(vec![])));
    assert_eq!(run("(! false)", &mut scope), Ok(Expr::Value(Value::Bool(true))));
    assert_eq!(
        run("(negate 1)", &mut scope),
        Err(EvalError::Type { expected: "Bool".to_string(), actual: "Value".to_string() })
    );
    assert_eq!(run("(first (quote))", &mut scope), Ok(Expr::SExpr(vec![])));
    assert_eq!(run("(rest (quote))", &mut scope), Ok(Expr::SExpr(vec![])));
    assert_eq!(
        run("(len 3)", &mut scope),
        Err(EvalError::Syntax { expected: "S-expression".to_string(), actual: "Value".to_string() })
    );
    assert_eq!(
        run("(record (echo (quote :a 1)) (echo (quote :b 2)))", &mut scope),
        Ok(Expr::Record(vec![(":a".to_string(), num(1)), (":b".to_string(), num(2))]))
    );
    assert_eq!(
        run("(record (quote :a 1) (quote :b 2) (quote :a 3))", &mut scope),
        Ok(Expr::Record(vec![(":a".to_string(), num(3)), (":b".to_string(), num(2))]))
    );
    assert_eq!(
        run("(record (quote :a 1 2))", &mut scope),
        Err(EvalError::Syntax {
            expected: "S-expression w/ length 2".to_string(),
            actual: "Length 3".to_string()
        })
    );
    assert_eq!(
        run("(record (quote a 1))", &mut scope),
        Err(EvalError::Syntax { expected: "Keyword".to_string(), actual: "Symbol".to_string() })
    );
}

#[test]
fn calling_a_function_value_directly() {
    let f = Function {
        name: "len".to_string(),
        arity: Arity::Fixed(1),
        arguments: vec!["s-exp".to_string()],
        form: CallForm::Builtin(BuiltinOp::Len),
    };
    assert_eq!(eval_function(&f, vec![Expr::SExpr(vec![num(1), num(2)])]), Ok(num(2)));
    assert_eq!(
        eval_function(&f, vec![]),
        Err(EvalError::Arity { name: "len".to_string(), arity: 1, num_args_provided: 0 })
    );
}

#[test]
fn scope_chain_and_bind_args() {
    let mut root = Scope::new(None);
    root.set("a", num(1));
    let mut child = root.child();
    child.set("a", num(2));
    assert_eq!(child.lookup("a"), Some(num(2)));
    assert_eq!(root.lookup("a"), Some(num(1)));
    assert!(child.lookup_or_error("b").is_err());
    let bound = root.bind_args(&vec!["p".to_string(), "q".to_string()], &vec![num(3), num(4)]);
    assert_eq!(bound.lookup("q"), Some(num(4)));
    assert_eq!(bound.lookup("a"), Some(num(1)));
    assert!(!bound.has("a"));
}

#[test]
fn expect_projections() {
    assert_eq!(sym("s").expect_symbol(), Ok("s"));
    assert_eq!(
        num(1).expect_symbol(),
        Err(EvalError::Syntax { expected: "Symbol".to_string(), actual: "Value".to_string() })
    );
    assert_eq!(Expr::Keyword(":k".to_string()).expect_keyword(), Ok(":k"));
    assert!(num(1).expect_fn().is_err());
    assert!(num(1).expect_special().is_err());
    assert_eq!(Expr::empty().type_str(), "S-expression");
    assert_eq!(
        Expr::SExpr(vec![num(1)]).expect_sexp_with_len(2),
        Err(EvalError::Syntax {
            expected: "S-expression w/ length 2".to_string(),
            actual: "Length 1".to_string()
        })
    );
}

#[test]
fn rendering() {
    let mut scope = builtins().child();
    let shown = |s: &str, scope: &mut Scope| run(s, scope).unwrap().render();
    assert_eq!(shown("(quote 1 -2 'a' c'b' true nil x)", &mut scope), "( 1 -2 a b true Nil #Symbol[x] )");
    assert_eq!(shown("(quote)", &mut scope), "(  )");
    assert_eq!(shown("(echo I)", &mut scope), "builtin I[s]");
    assert_eq!(shown("(echo concat)", &mut scope), "builtin concat[s-exp1,s-exp2]");
    assert_eq!(shown("(echo quote)", &mut scope), "#special[quote]");
    assert_eq!(shown("(lambda (a b) (echo a))", &mut scope), "λ λ[a,b]");
    assert_eq!(shown("(echo :k)", &mut scope), "::k");
    assert_eq!(shown("(quote 1.5)", &mut scope), "( 1.5 )");
    assert_eq!(
        shown("(record (quote :a 1) (quote :b 2))", &mut scope),
        "{\n  ::a->1,   ::b->2\n}"
    );
    assert_eq!(Arity::Fixed(2).render(), "(_,_)");
    assert_eq!(Arity::Fixed(0).render(), "()");
    assert_eq!(Arity::Variadic.render(), "(...)");
    assert_eq!(Value::Int(isize::MIN).render(), isize::MIN.to_string());
    assert_eq!(Value::Bool(false).expr(), Expr::Value(Value::Bool(false)));
}

#[test]
fn failed_capture_leaves_existing_bindings() {
    let mut outer = builtins().child();
    outer.set("x", num(1));
    let mut captured = Scope::new(None);
    captured.set("x", num(99));
    let body = parse_text("(echo x nope)").unwrap();
    assert_eq!(
        capture_sexp_references(&body, &outer, &mut captured),
        Err(EvalError::LookupError("nope".to_string()))
    );
    assert_eq!(captured.lookup("x"), Some(num(99)));
}

#[test]
fn define_rule_with_bad_target_leaves_accumulator() {
    let outer = builtins().child();
    let mut captured = Scope::new(None);
    let body = parse_text("(define 1 2)").unwrap();
    assert_eq!(
        capture_sexp_references(&body, &outer, &mut captured),
        Err(EvalError::Syntax { expected: "S-Expression or Symbol".to_string(), actual: "Value".to_string() })
    );
    assert_eq!(captured, Scope::new(None));
}

#[test]
fn failed_symbol_lookup_leaves_accumulator() {
    let outer = builtins().child();
    let mut captured = Scope::new(None);
    captured.set("a", num(1));
    assert_eq!(
        capture_symbol_reference("missing", &outer, &mut captured),
        Err(EvalError::LookupError("missing".to_string()))
    );
    let mut expected = Scope::new(None);
    expected.set("a", num(1));
    assert_eq!(captured, expected);
}

#[test]
fn words_ending_in_non_ascii_are_identifiers() {
    let word = lisp_playground::tokenizer::Token::Word("\"\\n\"é".to_string());
    assert_eq!(
        lisp_playground::token_handlers::parse_token(&word),
        Err(lisp_playground::ParseError::InvalidWord)
    );
    assert_eq!(parse_text("(abé)"), Err(lisp_playground::ParseError::InvalidWord));
}
