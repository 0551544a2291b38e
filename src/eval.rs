//! The evaluator: literals quote themselves, symbols are looked up, and an
//! s-expression applies its evaluated head.
use vstd::prelude::*;
use vstd::string::StringExecFns;
use crate::ast::{
    EvalError, Expr, Fault, Function, Scope, SpecialForm, SpecialKind, Term, Value, duplicate_all,
    duplicate_from, outcome_of, terms_of,
};
use crate::builtins::apply_op;
use crate::closures::{capture_sexp_references, check_special_arity, sentinel_scope, symbol_names_from};
use crate::semantics::{
    apply_special, build_function, call_function, eval_args, eval_defvar, eval_list, eval_term,
};

verus! {

/// The depth budget of a top-level evaluation: how deeply s-expression
/// applications (including the calls they make) may nest before evaluation
/// fails with `DepthExceeded`, instead of running out of call stack.
pub const MAX_DEPTH: usize = 200;

/// The model of a list of evaluated arguments.
pub open spec fn args_outcome(r: Result<Vec<Expr>, EvalError>) -> Result<Seq<Term>, Fault> {
    match r {
        Ok(v) => Ok(terms_of(v@)),
        Err(e) => Err(e@),
    }
}

/// Evaluates an expression in `scope`, which special forms such as `defvar`
/// may extend.
pub fn eval(var: &Expr, scope: &mut Scope) -> (r: Result<Expr, EvalError>)
    ensures
        (outcome_of(r), final(scope)@) == eval_term(var@, old(scope)@, MAX_DEPTH as nat),
{
    eval_at(var, scope, MAX_DEPTH)
}

/// Evaluates an s-expression in `scope`.
pub fn eval_sexpr(sexpr: &Vec<Expr>, scope: &mut Scope) -> (r: Result<Expr, EvalError>)
    ensures
        (outcome_of(r), final(scope)@) == eval_list(terms_of(sexpr@), old(scope)@, MAX_DEPTH as nat),
{
    eval_list_at(sexpr, scope, MAX_DEPTH)
}

/// Calls a function on already evaluated arguments.
pub fn eval_function(func: &Function, eval_args: Vec<Expr>) -> (r: Result<Expr, EvalError>)
    ensures
        outcome_of(r) == call_function(Expr::Function(*func)@, terms_of(eval_args@), MAX_DEPTH as nat),
{
    call_at(func, &eval_args, MAX_DEPTH)
}

/// `eval` with depth budget `d`.
pub fn eval_at(var: &Expr, scope: &mut Scope, d: usize) -> (r: Result<Expr, EvalError>)
    ensures
        (outcome_of(r), final(scope)@) == eval_term(var@, old(scope)@, d as nat),
    decreases d, 2nat, 0nat,
{
    match var {
        Expr::SExpr(sexpr) => {
            proof {
                crate::ast::lemma_list_view(*sexpr);
            }
            eval_list_at(sexpr, scope, d)
        },
        Expr::Symbol(name) => scope.lookup_or_error(name.as_str()),
        _ => Ok(var.duplicate()),
    }
}

/// `eval_sexpr` with depth budget `d`.
pub fn eval_list_at(sexpr: &Vec<Expr>, scope: &mut Scope, d: usize) -> (r: Result<Expr, EvalError>)
    ensures
        (outcome_of(r), final(scope)@) == eval_list(terms_of(sexpr@), old(scope)@, d as nat),
    decreases d, 1nat, 0nat,
{
    let ghost items = terms_of(sexpr@);
    if sexpr.len() == 0 {
        return Ok(Expr::empty());
    }
    if d == 0 {
        return Err(EvalError::DepthExceeded);
    }
    assert(items[0] == sexpr@[0]@);
    assert(items.drop_first() =~= terms_of(sexpr@).subrange(1, sexpr@.len() as int));
    let head = eval_at(&sexpr[0], scope, d - 1)?;
    match &head {
        Expr::Special(sf) => apply_special_at(sf, sexpr, scope, d - 1),
        Expr::Function(func) => {
            let args = eval_args_at(sexpr, 1, scope, d - 1)?;
            call_at(func, &args, d - 1)
        },
        _ => Err(EvalError::NotCallable(String::from_str(head.type_str()))),
    }
}

/// Evaluates `items[start..]` left to right.
fn eval_args_at(items: &Vec<Expr>, start: usize, scope: &mut Scope, d: usize) -> (r: Result<
    Vec<Expr>,
    EvalError,
>)
    requires
        start <= items@.len(),
    ensures
        (args_outcome(r), final(scope)@) == eval_args(
            terms_of(items@).subrange(start as int, items@.len() as int),
            old(scope)@,
            d as nat,
        ),
    decreases d, 5nat, items@.len() - start,
{
    let ghost args = terms_of(items@).subrange(start as int, items@.len() as int);
    if start == items.len() {
        let v: Vec<Expr> = Vec::new();
        assert(terms_of(v@) =~= seq![]);
        return Ok(v);
    }
    assert(args[0] == items@[start as int]@);
    assert(args.drop_first() =~= terms_of(items@).subrange(start + 1, items@.len() as int));
    let v = eval_at(&items[start], scope, d)?;
    let mut rest = eval_args_at(items, start + 1, scope, d)?;
    let ghost before = rest@;
    rest.insert(0, v);
    assert(terms_of(rest@) =~= seq![v@] + terms_of(before));
    Ok(rest)
}

/// `eval_function` with depth budget `d`.
pub fn call_at(func: &Function, args: &Vec<Expr>, d: usize) -> (r: Result<Expr, EvalError>)
    ensures
        outcome_of(r) == call_function(Expr::Function(*func)@, terms_of(args@), d as nat),
    decreases d, 4nat, 0nat,
{
    match &func.form {
        crate::ast::CallForm::Builtin(op) => {
            proof {
                crate::ast::lemma_builtin_view(*func, *op);
            }
            func.arity.check(func.name.as_str(), args.len())?;
            apply_op(&func.name, *op, args)
        },
        crate::ast::CallForm::Lambda { sexpr, scope } => {
            proof {
                crate::ast::lemma_lambda_view(*func, *sexpr, *scope);
            }
            func.arity.check(func.name.as_str(), args.len())?;
            let mut arg_scope = scope.bind_args(&func.arguments, args);
            eval_list_at(sexpr, &mut arg_scope, d)
        },
    }
}

/// `defvar`: evaluates `rhs`, then binds the symbol `lhs` in `scope`.
fn defvar_at(lhs: &Expr, rhs: &Expr, scope: &mut Scope, d: usize) -> (r: Result<Expr, EvalError>)
    ensures
        (outcome_of(r), final(scope)@) == eval_defvar(lhs@, rhs@, old(scope)@, d as nat),
    decreases d, 3nat, 0nat,
{
    match lhs {
        Expr::Symbol(name) => {
            let value = eval_at(rhs, scope, d)?;
            scope.set(name.as_str(), value);
            Ok(Expr::empty())
        },
        other => Err(other.mismatch("Symbol")),
    }
}

/// Builds a lambda: parameters `ps[pstart..]`, body `body_e`, and the scope
/// captured from `scope`.
pub fn build_function_at(
    name: &str,
    ps: &Vec<Expr>,
    pstart: usize,
    body_e: &Expr,
    scope: &Scope,
) -> (r: Result<Expr, EvalError>)
    requires
        pstart <= ps@.len(),
    ensures
        outcome_of(r) == build_function(
            name@,
            Term::List(terms_of(ps@).subrange(pstart as int, ps@.len() as int)),
            body_e@,
            scope@,
        ),
{
    let names = symbol_names_from(ps, pstart)?;
    match body_e {
        Expr::SExpr(body) => {
            proof {
                crate::ast::lemma_list_view(*body);
            }
            let outer = sentinel_scope(scope, &names);
            let mut captured = Scope::new(None);
            assert(captured@ =~= seq![seq![]]);
            capture_sexp_references(body, &outer, &mut captured)?;
            let n = names.len();
            let func = Function {
                name: String::from_str(name),
                arity: crate::ast::Arity::Fixed(n),
                arguments: names,
                form: crate::ast::CallForm::Lambda { sexpr: duplicate_all(body), scope: captured },
            };
            proof {
                crate::ast::lemma_lambda_view(func, func.form->sexpr, captured);
            }
            Ok(Expr::Function(func))
        },
        other => Err(other.mismatch("S-expression")),
    }
}

/// A call of the special form `sf` on the unevaluated arguments `sexpr[1..]`.
fn apply_special_at(sf: &SpecialForm, sexpr: &Vec<Expr>, scope: &mut Scope, d: usize) -> (r: Result<
    Expr,
    EvalError,
>)
    requires
        sexpr@.len() >= 1,
    ensures
        (outcome_of(r), final(scope)@) == apply_special(
            Expr::Special(*sf)@,
            terms_of(sexpr@).drop_first(),
            old(scope)@,
            d as nat,
        ),
    decreases d, 4nat, 0nat,
{
    let ghost args = terms_of(sexpr@).drop_first();
    check_special_arity(sf, sexpr.len() - 1)?;
    match sf.kind {
        SpecialKind::Quote => {
            let w = duplicate_from(sexpr, 1);
            proof {
                crate::ast::lemma_list_view(w);
                assert(args =~= terms_of(sexpr@).subrange(1, sexpr@.len() as int));
            }
            Ok(Expr::SExpr(w))
        },
        SpecialKind::If => {
            assert(args[0] == sexpr@[1]@ && args[1] == sexpr@[2]@ && args[2] == sexpr@[3]@);
            let c = eval_at(&sexpr[1], scope, d)?;
            match &c {
                Expr::Value(Value::Bool(b)) => {
                    if *b {
                        eval_at(&sexpr[2], scope, d)
                    } else {
                        eval_at(&sexpr[3], scope, d)
                    }
                },
                _ => Err(
                    EvalError::Type {
                        expected: String::from_str("Bool"),
                        actual: String::from_str(c.type_str()),
                    },
                ),
            }
        },
        SpecialKind::DefVar => {
            assert(args[0] == sexpr@[1]@ && args[1] == sexpr@[2]@);
            defvar_at(&sexpr[1], &sexpr[2], scope, d)
        },
        SpecialKind::Define => {
            assert(args[0] == sexpr@[1]@ && args[1] == sexpr@[2]@);
            match &sexpr[1] {
                Expr::Symbol(_) => defvar_at(&sexpr[1], &sexpr[2], scope, d),
                Expr::SExpr(sexp) => {
                    proof {
                        crate::ast::lemma_list_view(*sexp);
                    }
                    if sexp.len() == 0 {
                        return Err(
                            EvalError::Syntax {
                                expected: String::from_str("List of symbols"),
                                actual: String::from_str("Empty"),
                            },
                        );
                    }
                    match &sexp[0] {
                        Expr::Symbol(fname) => {
                            assert(terms_of(sexp@).drop_first() =~= terms_of(sexp@).subrange(
                                1,
                                sexp@.len() as int,
                            ));
                            let f = build_function_at(fname.as_str(), sexp, 1, &sexpr[2], scope)?;
                            scope.set(fname.as_str(), f);
                            Ok(Expr::empty())
                        },
                        other => Err(other.mismatch("Symbol")),
                    }
                },
                other => Err(other.mismatch("S-Expression or Symbol")),
            }
        },
        SpecialKind::Lambda => {
            assert(args[0] == sexpr@[1]@ && args[1] == sexpr@[2]@);
            match &sexpr[1] {
                Expr::SExpr(ps) => {
                    proof {
                        crate::ast::lemma_list_view(*ps);
                        assert(terms_of(ps@).subrange(0, ps@.len() as int) =~= terms_of(ps@));
                    }
                    build_function_at("λ", ps, 0, &sexpr[2], scope)
                },
                other => Err(other.mismatch("S-expression")),
            }
        },
    }
}

} // verus!
