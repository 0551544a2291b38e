//! The built-in functions and the root scope that registers them.
use vstd::prelude::*;
use vstd::string::StringExecFns;
use crate::ast::{
    Arity, BuiltinOp, CallForm, EvalError, Expr, Fault, Form, Frame, Function, Lit, Scope,
    SpecialForm, SpecialKind,
    Term, Value, kind_name, outcome_of, terms_of,
};
use crate::ast::push_char;
use crate::semantics::{
    add_terms, apply_builtin, int_range, key_index, lit_name, op_args, record_entry, record_pairs,
};

verus! {

fn lit_str(v: &Value) -> (r: &'static str)
    ensures
        r@ == lit_name(v@),
{
    match v {
        Value::Str(_) => "Str",
        Value::Char(_) => "Char",
        Value::Int(_) => "Int",
        Value::Bytes(_) => "Bytes",
        Value::Float(_) => "Float",
        Value::Bool(_) => "Bool",
        Value::Nil => "Nil",
    }
}

fn type_error(expected: &str, e: &Expr) -> (r: EvalError)
    ensures
        r@ == (Fault::Type { expected: expected@, actual: kind_name(e@) }),
{
    EvalError::Type { expected: String::from_str(expected), actual: String::from_str(e.type_str()) }
}

fn str_value(s: String) -> (r: Expr)
    ensures
        r@ == Term::Lit(Lit::Str(s@)),
{
    Expr::Value(Value::Str(s))
}

/// Addition: strings and characters concatenate, integers add.
pub fn add(a: &Expr, b: &Expr) -> (r: Result<Expr, EvalError>)
    ensures
        outcome_of(r) == add_terms(a@, b@),
{
    match (a, b) {
        (Expr::Value(x), Expr::Value(y)) => match (x, y) {
            (Value::Str(p), Value::Str(q)) => Ok(str_value(p.clone().concat(q.as_str()))),
            (Value::Char(c), Value::Char(d)) => {
                let mut s = String::new();
                push_char(&mut s, *c);
                push_char(&mut s, *d);
                assert(s@ =~= seq![*c, *d]);
                Ok(str_value(s))
            },
            (Value::Str(p), Value::Char(d)) => {
                let mut s = p.clone();
                push_char(&mut s, *d);
                Ok(str_value(s))
            },
            (Value::Char(c), Value::Str(q)) => {
                let mut s = String::new();
                push_char(&mut s, *c);
                assert(s@ =~= seq![*c]);
                Ok(str_value(s.concat(q.as_str())))
            },
            (Value::Int(m), Value::Int(n)) => {
                if (*n > 0 && *m > isize::MAX - *n) || (*n < 0 && *m < isize::MIN - *n) {
                    Err(
                        EvalError::Type {
                            expected: String::from_str("Int"),
                            actual: String::from_str("Int overflow"),
                        },
                    )
                } else {
                    Ok(Expr::Value(Value::Int(*m + *n)))
                }
            },
            _ => Err(
                EvalError::Type {
                    expected: String::from_str("Supported addition"),
                    actual: String::from_str(lit_str(x)).concat(" + ").concat(lit_str(y)),
                },
            ),
        },
        (Expr::Value(_), _) => Err(type_error("Value", b)),
        _ => Err(type_error("Value", a)),
    }
}

/// The integers `start, start + 1, ..., end - 1`.
pub fn range(start: isize, end: isize) -> (r: Vec<Expr>)
    ensures
        terms_of(r@) == int_range(start as int, end as int),
{
    let mut out: Vec<Expr> = Vec::new();
    let mut i: isize = start;
    while i < end
        invariant
            start <= i,
            i <= end || i == start,
            terms_of(out@) == int_range(start as int, i as int),
        decreases end - i,
    {
        let ghost before = out@;
        out.push(Expr::Value(Value::Int(i)));
        assert(terms_of(out@) =~= terms_of(before).push(Term::Lit(Lit::Int(i as int))));
        i = i + 1;
        assert(int_range(start as int, i as int) =~= int_range(start as int, i - 1).push(
            Term::Lit(Lit::Int(i - 1)),
        ));
    }
    assert(int_range(start as int, i as int) =~= int_range(start as int, end as int));
    out
}

proof fn lemma_record_error_stays(vals: Seq<Term>, i: int, e: Fault)
    requires
        0 <= i <= vals.len(),
        record_pairs(vals.subrange(0, i)) == Err::<Seq<(Seq<char>, Term)>, Fault>(e),
    ensures
        record_pairs(vals) == Err::<Seq<(Seq<char>, Term)>, Fault>(e),
    decreases vals.len() - i,
{
    if i < vals.len() {
        assert(vals.subrange(0, i + 1).drop_last() =~= vals.subrange(0, i));
        lemma_record_error_stays(vals, i + 1, e);
    } else {
        assert(vals.subrange(0, i) =~= vals);
    }
}

/// The entry that a `(keyword value)` pair gives.
fn record_entry_of(v: &Expr) -> (r: Result<(String, Expr), EvalError>)
    ensures
        match r {
            Ok((k, e)) => record_entry(v@) == Ok::<(Seq<char>, Term), Fault>((k@, e@)),
            Err(x) => record_entry(v@) == Err::<(Seq<char>, Term), Fault>(x@),
        },
{
    let kv = v.expect_sexp_with_len(2)?;
    let key = kv[0].expect_keyword()?;
    Ok((String::from_str(key), kv[1].duplicate()))
}

/// The record built from `(keyword value)` pairs; a later pair for a key
/// replaces an earlier one.
fn record_of(vals: &Vec<Expr>) -> (r: Result<Vec<(String, Expr)>, EvalError>)
    ensures
        match r {
            Ok(t) => record_pairs(terms_of(vals@)) == Ok::<Frame, Fault>(crate::ast::frame_of(t@)),
            Err(e) => record_pairs(terms_of(vals@)) == Err::<Frame, Fault>(e@),
        },
{
    let ghost items = terms_of(vals@);
    let mut out: Vec<(String, Expr)> = Vec::new();
    let mut i: usize = 0;
    assert(crate::ast::frame_of(out@) =~= seq![]);
    while i < vals.len()
        invariant
            i <= vals@.len(),
            items == terms_of(vals@),
            record_pairs(items.subrange(0, i as int)) == Ok::<Frame, Fault>(crate::ast::frame_of(out@)),
        decreases vals@.len() - i,
    {
        let ghost before = crate::ast::frame_of(out@);
        assert(items.subrange(0, i + 1).drop_last() =~= items.subrange(0, i as int));
        assert(items.subrange(0, i + 1).last() == vals@[i as int]@);
        match record_entry_of(&vals[i]) {
            Err(x) => {
                proof {
                    lemma_record_error_stays(items, i + 1, x@);
                }
                return Err(x);
            },
            Ok((k, e)) => {
                proof {
                    crate::semantics::lemma_key_index(before, k@);
                }
                let mut j: usize = 0;
                while j < out.len() && !(out[j].0 == k)
                    invariant
                        j <= out@.len(),
                        before == crate::ast::frame_of(out@),
                        forall|m: int| 0 <= m < j ==> before[m].0 != k@,
                    decreases out@.len() - j,
                {
                    j = j + 1;
                }
                if j < out.len() {
                    assert(before[j as int].0 == out@[j as int].0@);
                    assert(before[j as int].0 == k@);
                    assert(key_index(before, k@) == Some(j as int));
                    let ghost ev = e@;
                    out.set(j, (k, e));
                    assert(crate::ast::frame_of(out@) =~= before.update(j as int, (k@, ev)));
                } else {
                    assert(key_index(before, k@) is None);
                    let ghost kv = (k@, e@);
                    out.push((k, e));
                    assert(crate::ast::frame_of(out@) =~= before.push(kv));
                }
            },
        }
        i = i + 1;
    }
    assert(items.subrange(0, vals@.len() as int) =~= items);
    Ok(out)
}

/// A built-in operation on evaluated arguments.
pub fn apply_op(name: &String, op: BuiltinOp, vals: &Vec<Expr>) -> (r: Result<Expr, EvalError>)
    ensures
        outcome_of(r) == apply_builtin(name@, op, terms_of(vals@)),
{
    let needed: usize = match op {
        BuiltinOp::Record => 0,
        BuiltinOp::Concat | BuiltinOp::Add | BuiltinOp::Range => 2,
        _ => 1,
    };
    assert(needed == op_args(op));
    if vals.len() < needed {
        return Err(
            EvalError::Arity { name: name.clone(), arity: needed, num_args_provided: vals.len() },
        );
    }
    match op {
        BuiltinOp::Identity => Ok(vals[0].duplicate()),
        BuiltinOp::Len => {
            let xs = vals[0].expect_sexp()?;
            if xs.len() > isize::MAX as usize {
                Err(
                    EvalError::Type {
                        expected: String::from_str("Int"),
                        actual: String::from_str("S-expression"),
                    },
                )
            } else {
                Ok(Expr::Value(Value::Int(xs.len() as isize)))
            }
        },
        BuiltinOp::First => {
            let xs = vals[0].expect_sexp()?;
            if xs.len() > 0 {
                Ok(xs[0].duplicate())
            } else {
                Ok(Expr::empty())
            }
        },
        BuiltinOp::Rest => {
            let xs = vals[0].expect_sexp()?;
            let start: usize = if xs.len() > 0 { 1 } else { 0 };
            let w = crate::ast::duplicate_from(xs, start);
            proof {
                crate::ast::lemma_list_view(w);
                if xs@.len() > 0 {
                    assert(terms_of(xs@).subrange(1, xs@.len() as int) =~= terms_of(xs@).drop_first());
                } else {
                    assert(terms_of(xs@).subrange(0, xs@.len() as int) =~= terms_of(xs@));
                }
            }
            Ok(Expr::SExpr(w))
        },
        BuiltinOp::Concat => {
            let a = vals[0].expect_sexp()?;
            let b = vals[1].expect_sexp()?;
            let mut w = crate::ast::duplicate_all(a);
            let mut tail = crate::ast::duplicate_all(b);
            let ghost wa = w@;
            let ghost tb = tail@;
            w.append(&mut tail);
            proof {
                crate::ast::lemma_list_view(w);
                assert(terms_of(w@) =~= terms_of(wa) + terms_of(tb));
            }
            Ok(Expr::SExpr(w))
        },
        BuiltinOp::Record => {
            let t = record_of(vals)?;
            proof {
                crate::ast::lemma_record_view(t);
            }
            Ok(Expr::Record(t))
        },
        BuiltinOp::Add => crate::builtins::add(&vals[0], &vals[1]),
        BuiltinOp::Range => match (&vals[0], &vals[1]) {
            (Expr::Value(Value::Int(a)), Expr::Value(Value::Int(b))) => {
                let w = range(*a, *b);
                proof {
                    crate::ast::lemma_list_view(w);
                }
                Ok(Expr::SExpr(w))
            },
            (Expr::Value(Value::Int(_)), other) => Err(type_error("Int", other)),
            (other, _) => Err(type_error("Int", other)),
        },
        BuiltinOp::Negate => match &vals[0] {
            Expr::Value(Value::Bool(b)) => Ok(Expr::Value(Value::Bool(!*b))),
            other => Err(type_error("Bool", other)),
        },
    }
}


} // verus!
