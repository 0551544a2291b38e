//! Lexical capture: the flat scope that a closure carries.
use vstd::prelude::*;
use vstd::string::StringExecFns;
use crate::ast::{Arity, EvalError, Expr, Fault, Scope, SpecialForm, SpecialKind, Term, names_of, syntax_fault, terms_of};
use crate::scope::{env_has, env_lookup, lemma_lookup_has};
use crate::semantics::{
    arity_check, capture_defvar_rule, capture_elems, capture_items, capture_symbol, capture_term_of,
    kind_args, lemma_capture_items_keeps, sentinels, special_arity_check, special_head_of,
    symbol_names,
};

verus! {

/// The model of a step that succeeds or fails.
pub open spec fn unit_outcome(r: Result<(), EvalError>) -> Result<(), Fault> {
    match r {
        Ok(_) => Ok(()),
        Err(e) => Err(e@),
    }
}

/// The outcome of reading names.
pub open spec fn names_outcome(r: Result<Vec<String>, EvalError>) -> Result<Seq<Seq<char>>, Fault> {
    match r {
        Ok(v) => Ok(names_of(v@)),
        Err(e) => Err(e@),
    }
}

/// The names of `xs[start..]`, each of which must be a symbol.
pub fn symbol_names_from(xs: &Vec<Expr>, start: usize) -> (r: Result<Vec<String>, EvalError>)
    requires
        start <= xs@.len(),
    ensures
        names_outcome(r) == symbol_names(terms_of(xs@).subrange(start as int, xs@.len() as int)),
    decreases xs@.len() - start,
{
    let ghost items = terms_of(xs@).subrange(start as int, xs@.len() as int);
    if start == xs.len() {
        let v: Vec<String> = Vec::new();
        assert(names_of(v@) =~= seq![]);
        return Ok(v);
    }
    assert(items.drop_first() =~= terms_of(xs@).subrange(start + 1, xs@.len() as int));
    match &xs[start] {
        Expr::Symbol(n) => {
            let mut rest = symbol_names_from(xs, start + 1)?;
            let ghost before = rest@;
            rest.insert(0, n.clone());
            assert(names_of(rest@) =~= seq![n@] + names_of(before));
            Ok(rest)
        },
        other => Err(other.mismatch("Symbol")),
    }
}

/// The special form that an s-expression head denotes, and whether it was
/// reached through a symbol.
fn special_head_exec(head: &Expr, outer: &Scope) -> (r: Option<(SpecialForm, bool)>)
    ensures
        match r {
            Some((sf, named)) => special_head_of(head@, outer@) == Some(
                (
                    Expr::Special(sf)@,
                    if named {
                        Some(head@->Symbol_0)
                    } else {
                        None
                    },
                ),
            ) && (named ==> head@ is Symbol),
            None => special_head_of(head@, outer@) is None,
        },
{
    match head {
        Expr::Special(sf) => Some(
            (SpecialForm { name: sf.name.clone(), arity: sf.arity, kind: sf.kind }, false),
        ),
        Expr::Symbol(n) => match outer.lookup(n.as_str()) {
            Some(Expr::Special(sf)) => Some((sf, true)),
            _ => None,
        },
        _ => None,
    }
}

/// The arity check of a special form on `n` arguments.
pub fn check_special_arity(sf: &SpecialForm, n: usize) -> (r: Result<(), EvalError>)
    ensures
        match r {
            Ok(_) => special_arity_check(Expr::Special(*sf)@, n as nat) is Ok,
            Err(e) => special_arity_check(Expr::Special(*sf)@, n as nat) == Err::<(), Fault>(e@),
        },
{
    sf.arity.check(sf.name.as_str(), n)?;
    let needed: usize = match sf.kind {
        SpecialKind::Quote => 0,
        SpecialKind::If => 3,
        _ => 2,
    };
    assert(needed == kind_args(sf.kind));
    if n < needed {
        Err(EvalError::Arity { name: sf.name.clone(), arity: needed, num_args_provided: n })
    } else {
        Ok(())
    }
}

impl Arity {
    /// Fails with an arity error iff the arity is fixed and `n_args` differs.
    pub fn check(&self, name: &str, n_args: usize) -> (r: Result<(), EvalError>)
        ensures
            match r {
                Ok(_) => arity_check(*self, name@, n_args as nat) is Ok,
                Err(e) => arity_check(*self, name@, n_args as nat) == Err::<(), Fault>(e@),
            },
    {
        if let Arity::Fixed(arity) = *self {
            if n_args != arity {
                return Err(
                    EvalError::Arity {
                        name: String::from_str(name),
                        arity,
                        num_args_provided: n_args,
                    },
                );
            }
        }
        Ok(())
    }
}

/// Fails with an arity error iff the arity is fixed and `n_args` differs.
pub fn check_arity(arity: &Arity, name: &str, n_args: usize) -> (r: Result<(), EvalError>)
    ensures
        match r {
            Ok(_) => arity_check(*arity, name@, n_args as nat) is Ok,
            Err(e) => arity_check(*arity, name@, n_args as nat) == Err::<(), Fault>(e@),
        },
{
    arity.check(name, n_args)
}

/// A child of `outer` that marks each name as bound at call time.
pub(crate) fn sentinel_scope(outer: &Scope, names: &Vec<String>) -> (r: Scope)
    ensures
        r@ == outer@.push(sentinels(names_of(names@))),
{
    let mut child = outer.child();
    let mut i: usize = 0;
    assert(sentinels(names_of(names@).subrange(0, 0)) =~= seq![]);
    while i < names.len()
        invariant
            i <= names@.len(),
            child@ == outer@.push(sentinels(names_of(names@).subrange(0, i as int))),
        decreases names@.len() - i,
    {
        child.set(names[i].as_str(), Expr::Symbol(names[i].clone()));
        i = i + 1;
        assert(sentinels(names_of(names@).subrange(0, i as int)) =~= sentinels(
            names_of(names@).subrange(0, i - 1),
        ).push((names@[i - 1]@, Term::Symbol(names@[i - 1]@))));
        assert(child@ =~= outer@.push(sentinels(names_of(names@).subrange(0, i as int))));
    }
    assert(names_of(names@).subrange(0, i as int) =~= names_of(names@));
    child
}


/// Lexical capture for a closure body: adds to `capture_scope` every binding
/// of `outer_scope` that `sexpr` refers to, leaving out names that will be
/// bound at call time. A reference to an unbound name is an error; the
/// accumulator then holds what was added before it. A name that
/// `capture_scope` already binds keeps its binding on every outcome.
pub fn capture_sexp_references(
    sexpr: &Vec<Expr>,
    outer_scope: &Scope,
    capture_scope: &mut Scope,
) -> (r: Result<(), EvalError>)
    ensures
        (unit_outcome(r), final(capture_scope)@) == capture_items(
            terms_of(sexpr@),
            outer_scope@,
            old(capture_scope)@,
        ),
        forall|n: Seq<char>|
            env_has(old(capture_scope)@, n) ==> env_has(final(capture_scope)@, n)
                && #[trigger] env_lookup(final(capture_scope)@, n) == env_lookup(
                old(capture_scope)@,
                n,
            ),
{
    assert(terms_of(sexpr@).subrange(0, sexpr@.len() as int) =~= terms_of(sexpr@));
    let r = capture_from(sexpr, 0, outer_scope, capture_scope);
    proof {
        lemma_capture_items_keeps(terms_of(sexpr@), outer_scope@, old(capture_scope)@);
        assert forall|n: Seq<char>| env_has(old(capture_scope)@, n) implies env_has(
            capture_scope@,
            n,
        ) && #[trigger] env_lookup(capture_scope@, n) == env_lookup(old(capture_scope)@, n) by {
            lemma_lookup_has(old(capture_scope)@, n);
            lemma_lookup_has(capture_scope@, n);
        }
    }
    r
}

/// Capture for the s-expression `body[start..]`.
fn capture_from(body: &Vec<Expr>, start: usize, outer: &Scope, capture: &mut Scope) -> (r: Result<
    (),
    EvalError,
>)
    requires
        start <= body@.len(),
    ensures
        (unit_outcome(r), final(capture)@) == capture_items(
            terms_of(body@).subrange(start as int, body@.len() as int),
            outer@,
            old(capture)@,
        ),
    decreases body, 2nat, body@.len() - start,
{
    let ghost items = terms_of(body@).subrange(start as int, body@.len() as int);
    if start == body.len() {
        return capture_elems_from(body, start, outer, capture);
    }
    assert(items[0] == body@[start as int]@);
    match special_head_exec(&body[start], outer) {
        None => capture_elems_from(body, start, outer, capture),
        Some((sf, named)) => {
            let nargs = body.len() - start - 1;
            let ghost args = items.drop_first();
            assert(args.len() == nargs);
            check_special_arity(&sf, nargs)?;
            assert(args =~= terms_of(body@).subrange(start + 1, body@.len() as int));
            let rule: Result<(), EvalError> = match sf.kind {
                SpecialKind::Quote => Ok(()),
                SpecialKind::If => capture_from(body, start + 1, outer, capture),
                SpecialKind::DefVar => {
                    assert(items[2] == body@[start + 2]@);
                    capture_binding(&body[start + 1], &body[start + 2], outer, capture)
                },
                SpecialKind::Define => {
                    assert(items[2] == body@[start + 2]@);
                    match &body[start + 1] {
                        Expr::Symbol(_) => capture_binding(
                            &body[start + 1],
                            &body[start + 2],
                            outer,
                            capture,
                        ),
                        Expr::SExpr(sexp) => {
                            proof {
                                crate::ast::lemma_list_view(*sexp);
                            }
                            if sexp.len() == 0 {
                                Err(
                                    EvalError::Syntax {
                                        expected: String::from_str("List of symbols"),
                                        actual: String::from_str("Empty"),
                                    },
                                )
                            } else {
                                assert(terms_of(sexp@).drop_first() =~= terms_of(sexp@).subrange(
                                    1,
                                    sexp@.len() as int,
                                ));
                                capture_lambda(sexp, 1, &body[start + 2], outer, capture)
                            }
                        },
                        other => Err(other.mismatch("S-Expression or Symbol")),
                    }
                },
                SpecialKind::Lambda => {
                    assert(items[2] == body@[start + 2]@);
                    match &body[start + 1] {
                        Expr::SExpr(ps) => {
                            proof {
                                crate::ast::lemma_list_view(*ps);
                            }
                            assert(terms_of(ps@) =~= terms_of(ps@).subrange(0, ps@.len() as int));
                            capture_lambda(ps, 0, &body[start + 2], outer, capture)
                        },
                        other => Err(other.mismatch("S-expression")),
                    }
                },
            };
            rule?;
            if named {
                if let Expr::Symbol(n) = &body[start] {
                    if !capture.has(n.as_str()) {
                        capture.set(n.as_str(), Expr::Special(sf.duplicate()));
                    }
                }
            }
            Ok(())
        },
    }
}

/// The lambda rule: parameters `ps[pstart..]`, body `body_e`.
fn capture_lambda(
    ps: &Vec<Expr>,
    pstart: usize,
    body_e: &Expr,
    outer: &Scope,
    capture: &mut Scope,
) -> (r: Result<(), EvalError>)
    requires
        pstart <= ps@.len(),
    ensures
        (unit_outcome(r), final(capture)@) == match symbol_names(
            terms_of(ps@).subrange(pstart as int, ps@.len() as int),
        ) {
            Err(e) => (Err(e), old(capture)@),
            Ok(names) => match body_e@ {
                Term::List(b) => capture_items(b, outer@.push(sentinels(names)), old(capture)@),
                t => (Err(syntax_fault("S-expression"@, t)), old(capture)@),
            },
        },
    decreases body_e, 1nat, 0nat,
{
    let names = symbol_names_from(ps, pstart)?;
    match body_e {
        Expr::SExpr(b) => {
            proof {
                crate::ast::lemma_list_view(*b);
            }
            assert(terms_of(b@) =~= terms_of(b@).subrange(0, b@.len() as int));
            let child = sentinel_scope(outer, &names);
            capture_from(b, 0, &child, capture)
        },
        other => Err(other.mismatch("S-expression")),
    }
}

/// The `defvar` rule: capture for the value, then mark the name as bound.
fn capture_binding(lhs: &Expr, rhs: &Expr, outer: &Scope, capture: &mut Scope) -> (r: Result<
    (),
    EvalError,
>)
    ensures
        (unit_outcome(r), final(capture)@) == capture_defvar_rule(lhs@, rhs@, outer@, old(capture)@),
    decreases rhs, 1nat, 0nat,
{
    match lhs {
        Expr::Symbol(n) => {
            capture_term(rhs, outer, capture)?;
            if !capture.has(n.as_str()) {
                capture.set(n.as_str(), Expr::Symbol(n.clone()));
            }
            Ok(())
        },
        other => Err(other.mismatch("Symbol")),
    }
}

/// Capture for one expression.
fn capture_term(e: &Expr, outer: &Scope, capture: &mut Scope) -> (r: Result<(), EvalError>)
    ensures
        (unit_outcome(r), final(capture)@) == capture_term_of(e@, outer@, old(capture)@),
    decreases e, 0nat, 0nat,
{
    match e {
        Expr::SExpr(x) => {
            proof {
                crate::ast::lemma_list_view(*x);
            }
            assert(terms_of(x@) =~= terms_of(x@).subrange(0, x@.len() as int));
            capture_from(x, 0, outer, capture)
        },
        Expr::Symbol(n) => capture_symbol_reference(n.as_str(), outer, capture),
        _ => Ok(()),
    }
}

/// The generic walk over `body[i..]`.
fn capture_elems_from(body: &Vec<Expr>, i: usize, outer: &Scope, capture: &mut Scope) -> (r: Result<
    (),
    EvalError,
>)
    requires
        i <= body@.len(),
    ensures
        (unit_outcome(r), final(capture)@) == capture_elems(
            terms_of(body@).subrange(i as int, body@.len() as int),
            outer@,
            old(capture)@,
        ),
    decreases body, 1nat, body@.len() - i,
{
    let ghost items = terms_of(body@).subrange(i as int, body@.len() as int);
    if i == body.len() {
        return Ok(());
    }
    assert(items[0] == body@[i as int]@);
    assert(items.drop_first() =~= terms_of(body@).subrange(i + 1, body@.len() as int));
    capture_term(&body[i], outer, capture)?;
    capture_elems_from(body, i + 1, outer, capture)
}

/// Capture of one symbol reference: a name not yet captured is looked up in
/// `outer`; it is copied in unless it is bound to itself, which marks a name
/// bound at call time. When the lookup fails the accumulator is unchanged.
pub fn capture_symbol_reference(name: &str, outer: &Scope, capture: &mut Scope) -> (r: Result<
    (),
    EvalError,
>)
    ensures
        (unit_outcome(r), final(capture)@) == capture_symbol(name@, outer@, old(capture)@),
{
    if capture.has(name) {
        return Ok(());
    }
    let outer_val = outer.lookup_or_error(name)?;
    let key = String::from_str(name);
    let tautological = match &outer_val {
        Expr::Symbol(m) => *m == key,
        _ => false,
    };
    if tautological {
        return Ok(());
    }
    capture.set(name, outer_val);
    Ok(())
}

} // verus!
