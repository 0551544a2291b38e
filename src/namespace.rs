//! The root scope that registers the built-in special forms and functions.
use vstd::prelude::*;
use vstd::string::StringExecFns;
use crate::ast::{
    Arity, BuiltinOp, CallForm, Expr, Form, Frame, Function, Scope, SpecialForm, SpecialKind, Term,
};

verus! {

/// A special form's model.
pub open spec fn special_entry(name: Seq<char>, arity: Arity, kind: SpecialKind) -> Term {
    Term::Special { name, arity, kind }
}

/// A built-in function's model.
pub open spec fn builtin_entry(
    name: Seq<char>,
    arity: Arity,
    params: Seq<Seq<char>>,
    op: BuiltinOp,
) -> Term {
    Term::Func { name, arity, params, form: Form::Builtin(op) }
}

/// The bindings of the root scope, in the order they are made.
pub open spec fn root_frame() -> Frame {
    let quote = special_entry("quote"@, Arity::Variadic, SpecialKind::Quote);
    let lambda = special_entry("lambda"@, Arity::Fixed(2), SpecialKind::Lambda);
    let defvar = special_entry("defvar"@, Arity::Fixed(2), SpecialKind::DefVar);
    let define = special_entry("def"@, Arity::Fixed(2), SpecialKind::Define);
    let if_form = special_entry("if"@, Arity::Fixed(3), SpecialKind::If);
    let identity = builtin_entry("I"@, Arity::Fixed(1), seq!["s"@], BuiltinOp::Identity);
    let add = builtin_entry("add"@, Arity::Fixed(2), seq!["x"@, "y"@], BuiltinOp::Add);
    let first = builtin_entry("first"@, Arity::Fixed(1), seq!["s-exp"@], BuiltinOp::First);
    let rest = builtin_entry("rest"@, Arity::Fixed(1), seq!["s-exp"@], BuiltinOp::Rest);
    let concat = builtin_entry(
        "concat"@,
        Arity::Fixed(2),
        seq!["s-exp1"@, "s-exp2"@],
        BuiltinOp::Concat,
    );
    let record = builtin_entry("record"@, Arity::Variadic, seq!["kv_pairs"@], BuiltinOp::Record);
    let len = builtin_entry("len"@, Arity::Fixed(1), seq!["s-exp"@], BuiltinOp::Len);
    let range = builtin_entry("range"@, Arity::Fixed(2), seq!["start"@, "end"@], BuiltinOp::Range);
    let negate = builtin_entry("negate"@, Arity::Fixed(1), seq!["val"@], BuiltinOp::Negate);
    seq![
        ("quote"@, quote),
        ("lambda"@, lambda),
        ("λ"@, lambda),
        ("defvar"@, defvar),
        ("def"@, define),
        ("define"@, define),
        ("if"@, if_form),
        ("I"@, identity),
        ("echo"@, identity),
        ("add"@, add),
        ("+"@, add),
        ("first"@, first),
        ("car"@, first),
        ("rest"@, rest),
        ("cdr"@, rest),
        ("concat"@, concat),
        ("record"@, record),
        ("len"@, len),
        ("range"@, range),
        ("negate"@, negate),
        ("!"@, negate),
    ]
}

fn special(name: &str, arity: Arity, kind: SpecialKind) -> (r: Expr)
    ensures
        r@ == special_entry(name@, arity, kind),
{
    Expr::Special(SpecialForm { name: String::from_str(name), arity, kind })
}

fn builtin(name: &str, arity: Arity, arguments: Vec<String>, op: BuiltinOp) -> (r: Expr)
    ensures
        r@ == builtin_entry(name@, arity, crate::ast::names_of(arguments@), op),
{
    let f = Function { name: String::from_str(name), arity, arguments, form: CallForm::Builtin(op) };
    proof {
        crate::ast::lemma_builtin_view(f, op);
    }
    Expr::Function(f)
}

fn params1(a: &str) -> (r: Vec<String>)
    ensures
        crate::ast::names_of(r@) == seq![a@],
{
    let mut v: Vec<String> = Vec::new();
    v.push(String::from_str(a));
    assert(crate::ast::names_of(v@) =~= seq![a@]);
    v
}

fn params2(a: &str, b: &str) -> (r: Vec<String>)
    ensures
        crate::ast::names_of(r@) == seq![a@, b@],
{
    let mut v: Vec<String> = Vec::new();
    v.push(String::from_str(a));
    v.push(String::from_str(b));
    assert(crate::ast::names_of(v@) =~= seq![a@, b@]);
    v
}

/// The root scope: one table that binds the built-in special forms and
/// functions.
pub fn builtins() -> (r: Scope)
    ensures
        r@ == seq![root_frame()],
{
    let mut scope = Scope::new(None);
    assert(scope@ =~= seq![Seq::<(Seq<char>, Term)>::empty()]);
    let quote = special("quote", Arity::Variadic, SpecialKind::Quote);
    scope.set("quote", quote);
    let lambda = special("lambda", Arity::Fixed(2), SpecialKind::Lambda);
    scope.set("lambda", lambda.duplicate());
    scope.set("λ", lambda);
    scope.set("defvar", special("defvar", Arity::Fixed(2), SpecialKind::DefVar));
    let define = special("def", Arity::Fixed(2), SpecialKind::Define);
    scope.set("def", define.duplicate());
    scope.set("define", define);
    scope.set("if", special("if", Arity::Fixed(3), SpecialKind::If));
    let identity = builtin("I", Arity::Fixed(1), params1("s"), BuiltinOp::Identity);
    scope.set("I", identity.duplicate());
    scope.set("echo", identity);
    let add = builtin("add", Arity::Fixed(2), params2("x", "y"), BuiltinOp::Add);
    scope.set("add", add.duplicate());
    scope.set("+", add);
    let first = builtin("first", Arity::Fixed(1), params1("s-exp"), BuiltinOp::First);
    scope.set("first", first.duplicate());
    scope.set("car", first);
    let rest = builtin("rest", Arity::Fixed(1), params1("s-exp"), BuiltinOp::Rest);
    scope.set("rest", rest.duplicate());
    scope.set("cdr", rest);
    scope.set(
        "concat",
        builtin("concat", Arity::Fixed(2), params2("s-exp1", "s-exp2"), BuiltinOp::Concat),
    );
    scope.set("record", builtin("record", Arity::Variadic, params1("kv_pairs"), BuiltinOp::Record));
    scope.set("len", builtin("len", Arity::Fixed(1), params1("s-exp"), BuiltinOp::Len));
    scope.set("range", builtin("range", Arity::Fixed(2), params2("start", "end"), BuiltinOp::Range));
    let negate = builtin("negate", Arity::Fixed(1), params1("val"), BuiltinOp::Negate);
    scope.set("negate", negate.duplicate());
    scope.set("!", negate);
    proof {
        assert(scope@[0] =~= root_frame());
        assert(scope@ =~= seq![root_frame()]);
    }
    scope
}

} // verus!
