//! Laws of evaluation, proved over the semantics.
use vstd::prelude::*;
use crate::ast::{Arity, BuiltinOp, Env, Fault, Form, Lit, SpecialKind, Term};
use crate::scope::{env_has, env_lookup, env_set, frame_get};
use crate::semantics::{
    apply_builtin, apply_special, arity_check, call_function, eval_args, eval_list, eval_term,
    capture_defvar_rule, capture_elems, capture_items, capture_rule, capture_symbol, capture_term_of,
    key_index, keys_unique, sentinels, lemma_key_index, record_entry, record_insert, record_pairs,
};

verus! {

/// Literals, keywords, records, functions and special forms evaluate to
/// themselves and leave the scope unchanged.
pub proof fn law_self_quoting(t: Term, s: Env, d: nat)
    requires
        !(t is List),
        !(t is Symbol),
    ensures
        eval_term(t, s, d) == (Ok::<Term, Fault>(t), s),
{
}

/// A name just bound in a scope evaluates to its value.
pub proof fn law_symbol_bound(s: Env, n: Seq<char>, v: Term, d: nat)
    ensures
        eval_term(Term::Symbol(n), env_set(s, n, v), d) == (Ok::<Term, Fault>(v), env_set(s, n, v)),
{
    let s1 = env_set(s, n, v);
    assert(s1.last().drop_last() == s1.last().subrange(0, s1.last().len() - 1));
    assert(frame_get(s1.last(), n) == Some(v));
}

/// A name bound nowhere in the scope chain is a lookup error naming it.
pub proof fn law_symbol_unbound(s: Env, n: Seq<char>, d: nat)
    requires
        env_lookup(s, n) is None,
    ensures
        eval_term(Term::Symbol(n), s, d) == (Err::<Term, Fault>(Fault::Lookup(n)), s),
{
}

/// `(if c a b)` evaluates the condition, then exactly one branch: the outcome
/// is that of the chosen branch alone, whatever the other one would do.
pub proof fn law_if_selects_one_branch(
    name: Seq<char>,
    c: Term,
    a: Term,
    b: Term,
    s: Env,
    s1: Env,
    chosen: bool,
    d: nat,
)
    requires
        d > 0,
        eval_term(c, s, (d - 1) as nat) == (
            Ok::<Term, Fault>(Term::Lit(Lit::Bool(chosen))),
            s1,
        ),
    ensures
        eval_list(
            seq![
                Term::Special { name, arity: Arity::Fixed(3), kind: SpecialKind::If },
                c,
                a,
                b,
            ],
            s,
            d,
        ) == eval_term(
            if chosen {
                a
            } else {
                b
            },
            s1,
            (d - 1) as nat,
        ),
{
    let sf = Term::Special { name, arity: Arity::Fixed(3), kind: SpecialKind::If };
    let items = seq![sf, c, a, b];
    assert(items.drop_first() =~= seq![c, a, b]);
    assert(eval_term(sf, s, (d - 1) as nat) == (Ok::<Term, Fault>(sf), s));
}

/// The `defvar` form `(defvar n v)`, with the form itself in head position.
pub open spec fn defvar_form(form_name: Seq<char>, n: Seq<char>, v: Term) -> Term {
    Term::List(
        seq![
            Term::Special { name: form_name, arity: Arity::Fixed(2), kind: SpecialKind::DefVar },
            Term::Symbol(n),
            v,
        ],
    )
}

proof fn lemma_defvar_literal(form_name: Seq<char>, n: Seq<char>, v: Term, s: Env, d: nat)
    requires
        d > 0,
        !(v is List),
        !(v is Symbol),
    ensures
        eval_term(defvar_form(form_name, n, v), s, d) == (
            Ok::<Term, Fault>(Term::List(seq![])),
            env_set(s, n, v),
        ),
{
    let sf = Term::Special { name: form_name, arity: Arity::Fixed(2), kind: SpecialKind::DefVar };
    let items = seq![sf, Term::Symbol(n), v];
    let args = seq![Term::Symbol(n), v];
    let e = (d - 1) as nat;
    assert(items.drop_first() =~= args);
    assert(eval_term(sf, s, e) == (Ok::<Term, Fault>(sf), s));
    assert(eval_term(v, s, e) == (Ok::<Term, Fault>(v), s));
    assert(crate::semantics::special_arity_check(sf, 2) is Ok);
    assert(crate::semantics::eval_defvar(Term::Symbol(n), v, s, e) == (
        Ok::<Term, Fault>(Term::List(seq![])),
        env_set(s, n, v),
    ));
    assert(apply_special(sf, args, s, e) == crate::semantics::eval_defvar(Term::Symbol(n), v, s, e));
    assert(eval_list(items, s, d) == apply_special(sf, args, s, e));
}

/// Arguments are evaluated left to right, each in the scope the previous one
/// left: in `(f (defvar n1 v1) (defvar n2 v2))` both bindings are made, in
/// that order, before `f` is called on the two results.
pub proof fn law_arguments_left_to_right(
    f: Term,
    form_name: Seq<char>,
    n1: Seq<char>,
    v1: Term,
    n2: Seq<char>,
    v2: Term,
    s: Env,
    d: nat,
)
    requires
        d > 1,
        f is Func,
        !(v1 is List),
        !(v1 is Symbol),
        !(v2 is List),
        !(v2 is Symbol),
    ensures
        eval_list(seq![f, defvar_form(form_name, n1, v1), defvar_form(form_name, n2, v2)], s, d)
            == (
            call_function(f, seq![Term::List(seq![]), Term::List(seq![])], (d - 1) as nat),
            env_set(env_set(s, n1, v1), n2, v2),
        ),
{
    let dv1 = defvar_form(form_name, n1, v1);
    let dv2 = defvar_form(form_name, n2, v2);
    let items = seq![f, dv1, dv2];
    let e = (d - 1) as nat;
    let s1 = env_set(s, n1, v1);
    let s2 = env_set(s1, n2, v2);
    assert(items.drop_first() =~= seq![dv1, dv2]);
    assert(seq![dv1, dv2].drop_first() =~= seq![dv2]);
    assert(seq![dv2].drop_first() =~= Seq::<Term>::empty());
    lemma_defvar_literal(form_name, n1, v1, s, e);
    lemma_defvar_literal(form_name, n2, v2, s1, e);
    let unit = Term::List(seq![]);
    assert(eval_args(seq![dv2].drop_first(), s2, e) == (Ok::<Seq<Term>, Fault>(Seq::empty()), s2));
    assert(seq![unit] + Seq::<Term>::empty() =~= seq![unit]);
    assert(eval_args(seq![dv2], s1, e) == (Ok::<Seq<Term>, Fault>(seq![unit]), s2));
    assert(seq![unit] + seq![unit] =~= seq![unit, unit]);
    assert(eval_args(seq![dv1, dv2], s, e) == (Ok::<Seq<Term>, Fault>(seq![unit, unit]), s2));
}

/// A function of fixed arity `k` called on a different number of arguments
/// fails with an arity error that gives both counts; on exactly `k` arguments
/// the arity check passes and the call is that of its form.
pub proof fn law_arity_enforced(f: Term, vals: Seq<Term>, d: nat)
    requires
        f is Func,
        f->Func_arity is Fixed,
    ensures
        vals.len() != f->Func_arity->Fixed_0 ==> call_function(f, vals, d) == Err::<Term, Fault>(
            Fault::Arity {
                name: f->Func_name,
                arity: f->Func_arity->Fixed_0 as nat,
                num_args: vals.len(),
            },
        ),
        vals.len() == f->Func_arity->Fixed_0 ==> call_function(f, vals, d) == match f->Func_form {
            Form::Builtin(op) => apply_builtin(f->Func_name, op, vals),
            Form::Lambda(body, captured) => eval_list(
                body,
                captured.push(crate::scope::bind_frame(f->Func_params, vals)),
                d,
            ).0,
        },
{
}


/// The lambda form `(lambda (params...) (body...))`, with the form itself in
/// head position.
pub open spec fn lambda_form(form_name: Seq<char>, params: Seq<Term>, body: Seq<Term>) -> Term {
    Term::List(
        seq![
            Term::Special { name: form_name, arity: Arity::Fixed(2), kind: SpecialKind::Lambda },
            Term::List(params),
            Term::List(body),
        ],
    )
}

/// A built-in identity function of arity one.
pub open spec fn is_identity_fn(f: Term) -> bool {
    &&& f is Func
    &&& f->Func_arity == Arity::Fixed(1)
    &&& f->Func_form == Form::Builtin(BuiltinOp::Identity)
}

/// The scope that a function value captured.
pub open spec fn captured_env(f: Term) -> Env {
    f->Func_form->Lambda_1
}

proof fn lemma_lambda_eval(form_name: Seq<char>, params: Seq<Term>, body: Seq<Term>, s: Env, d: nat)
    requires
        d > 0,
    ensures
        eval_term(lambda_form(form_name, params, body), s, d) == (
            crate::semantics::build_function("λ"@, Term::List(params), Term::List(body), s),
            s,
        ),
{
    let sf = Term::Special { name: form_name, arity: Arity::Fixed(2), kind: SpecialKind::Lambda };
    let items = seq![sf, Term::List(params), Term::List(body)];
    assert(items.drop_first() =~= seq![Term::List(params), Term::List(body)]);
    let args = seq![Term::List(params), Term::List(body)];
    let e = (d - 1) as nat;
    assert(eval_term(sf, s, e) == (Ok::<Term, Fault>(sf), s));
    assert(crate::semantics::special_arity_check(sf, 2) is Ok);
    assert(apply_special(sf, args, s, e) == (
        crate::semantics::build_function("λ"@, Term::List(params), Term::List(body), s),
        s,
    ));
    assert(eval_list(items, s, d) == apply_special(sf, args, s, e));
}

proof fn lemma_lookup_two(a: Seq<char>, va: Term, b: Seq<char>, vb: Term, n: Seq<char>)
    requires
        a != b,
        n == a || n == b,
    ensures
        frame_get(seq![(a, va), (b, vb)], n) == Some(if n == a { va } else { vb }),
{
    let f = seq![(a, va), (b, vb)];
    assert(f.drop_last() =~= seq![(a, va)]);
    assert(seq![(a, va)].drop_last() =~= Seq::<(Seq<char>, Term)>::empty());
    assert(frame_get(Seq::<(Seq<char>, Term)>::empty(), n) is None);
    if n == a {
        assert(frame_get(seq![(a, va)], n) == Some(va));
    }
}

proof fn lemma_lookup_one_miss(a: Seq<char>, va: Term, n: Seq<char>)
    requires
        a != n,
    ensures
        frame_get(seq![(a, va)], n) is None,
{
    assert(seq![(a, va)].drop_last() =~= Seq::<(Seq<char>, Term)>::empty());
    assert(frame_get(Seq::<(Seq<char>, Term)>::empty(), n) is None);
}

proof fn lemma_lookup_one_hit(a: Seq<char>, va: Term)
    ensures
        frame_get(seq![(a, va)], a) == Some(va),
{
}

proof fn lemma_lookup_pushed(s: Env, f: crate::ast::Frame, n: Seq<char>)
    requires
        frame_get(f, n) is None,
    ensures
        env_lookup(s.push(f), n) == env_lookup(s, n),
{
    assert(s.push(f).drop_last() =~= s);
}

/// A lambda captures the values its body refers to when it is created: after
/// `f = (lambda () (e x))` is built in a scope where `x` is `v`, rebinding `x`
/// to `w` in that scope does not change what calling `f` gives, which is `v`.
pub proof fn law_capture_at_definition(
    form_name: Seq<char>,
    e: Seq<char>,
    idf: Term,
    x: Seq<char>,
    v: Term,
    w: Term,
    s: Env,
    d: nat,
)
    requires
        d > 2,
        e != x,
        is_identity_fn(idf),
        env_lookup(s, e) == Some(idf),
        env_lookup(s, x) == Some(v),
        v is Lit,
    ensures
        ({
            let (r, s1) = eval_term(
                lambda_form(form_name, seq![], seq![Term::Symbol(e), Term::Symbol(x)]),
                s,
                d,
            );
            &&& r is Ok
            &&& s1 == s
            &&& eval_term(Term::List(seq![r->Ok_0]), env_set(s, x, w), d) == (
                Ok::<Term, Fault>(v),
                env_set(s, x, w),
            )
        }),
{
    let body = seq![Term::Symbol(e), Term::Symbol(x)];
    let empty = Seq::<(Seq<char>, Term)>::empty();
    let outer = s.push(crate::semantics::sentinels(seq![]));
    assert(crate::semantics::sentinels(seq![]) =~= empty);
    lemma_lookup_pushed(s, empty, e);
    lemma_lookup_pushed(s, empty, x);
    let acc0: Env = seq![empty];
    let acc1 = env_set(acc0, e, idf);
    assert(acc1 =~= seq![seq![(e, idf)]]);
    lemma_lookup_one_miss(e, idf, x);
    let acc2 = env_set(acc1, x, v);
    assert(acc2[0] =~= seq![(e, idf), (x, v)]);
    assert(acc2 =~= seq![seq![(e, idf), (x, v)]]);
    assert(crate::semantics::capture_elems(Seq::empty(), outer, acc2) == (Ok::<(), Fault>(()), acc2));
    assert(crate::semantics::capture_symbol(e, outer, acc0) == (Ok::<(), Fault>(()), acc1));
    assert(crate::semantics::capture_symbol(x, outer, acc1) == (Ok::<(), Fault>(()), acc2));
    assert(crate::semantics::capture_term_of(Term::Symbol(e), outer, acc0) == (Ok::<(), Fault>(()), acc1));
    assert(crate::semantics::capture_term_of(Term::Symbol(x), outer, acc1) == (Ok::<(), Fault>(()), acc2));
    assert(body.drop_first() =~= seq![Term::Symbol(x)]);
    assert(seq![Term::Symbol(x)].drop_first() =~= Seq::<Term>::empty());
    assert(crate::semantics::capture_elems(seq![Term::Symbol(x)], outer, acc1) == (Ok::<(), Fault>(()), acc2));
    assert(crate::semantics::capture_elems(body, outer, acc0) == (Ok::<(), Fault>(()), acc2));
    assert(crate::semantics::capture_items(body, outer, acc0) == (Ok::<(), Fault>(()), acc2));
    assert(crate::semantics::symbol_names(seq![]) == Ok::<Seq<Seq<char>>, Fault>(seq![]));
    let f = Term::Func {
        name: "λ"@,
        arity: Arity::Fixed(0),
        params: seq![],
        form: Form::Lambda(body, acc2),
    };
    lemma_lambda_eval(form_name, seq![], body, s, d);
    assert(crate::semantics::build_function("λ"@, Term::List(seq![]), Term::List(body), s) == Ok::<
        Term,
        Fault,
    >(f));
    // The call `(f)`.
    let s2 = env_set(s, x, w);
    let e1 = (d - 1) as nat;
    let e2 = (d - 2) as nat;
    assert(seq![f].drop_first() =~= Seq::<Term>::empty());
    assert(eval_term(f, s2, e1) == (Ok::<Term, Fault>(f), s2));
    let frame = crate::scope::bind_frame(seq![], seq![]);
    assert(frame =~= empty);
    let c = acc2.push(frame);
    lemma_lookup_two(e, idf, x, v, e);
    lemma_lookup_two(e, idf, x, v, x);
    lemma_lookup_pushed(acc2, frame, e);
    lemma_lookup_pushed(acc2, frame, x);
    assert(acc2.drop_last() =~= Seq::<crate::ast::Frame>::empty());
    assert(env_lookup(c, e) == Some(idf));
    assert(env_lookup(c, x) == Some(v));
    assert(eval_args(seq![Term::Symbol(x)], c, e2) == (Ok::<Seq<Term>, Fault>(seq![v]), c)) by {
        assert(eval_args(Seq::empty(), c, e2) == (Ok::<Seq<Term>, Fault>(Seq::empty()), c));
        assert(eval_term(Term::Symbol(x), c, e2) == (Ok::<Term, Fault>(v), c));
        assert(seq![v] + Seq::<Term>::empty() =~= seq![v]);
    }
    assert(call_function(idf, seq![v], e2) == Ok::<Term, Fault>(v));
    assert(eval_list(body, c, e1).0 == Ok::<Term, Fault>(v));
    assert(call_function(f, seq![], e1) == Ok::<Term, Fault>(v));
    assert(eval_args(Seq::empty(), s2, e1) == (Ok::<Seq<Term>, Fault>(Seq::empty()), s2));
    assert(eval_list(seq![f], s2, d) == (Ok::<Term, Fault>(v), s2));
}

/// A parameter hides an outer binding of the same name: `(lambda (x) (e x))`
/// captures no `x`, and called on `a` it gives `a`, whatever the outer scope
/// binds `x` to.
pub proof fn law_parameter_shadows(
    form_name: Seq<char>,
    e: Seq<char>,
    idf: Term,
    x: Seq<char>,
    a: Term,
    s: Env,
    d: nat,
)
    requires
        d > 2,
        e != x,
        is_identity_fn(idf),
        env_lookup(s, e) == Some(idf),
        !(a is List),
        !(a is Symbol),
    ensures
        ({
            let (r, s1) = eval_term(
                lambda_form(form_name, seq![Term::Symbol(x)], seq![Term::Symbol(e), Term::Symbol(x)]),
                s,
                d,
            );
            &&& r is Ok
            &&& s1 == s
            &&& env_lookup(captured_env(r->Ok_0), x) is None
            &&& eval_term(Term::List(seq![r->Ok_0, a]), s, d) == (Ok::<Term, Fault>(a), s)
        }),
{
    let body = seq![Term::Symbol(e), Term::Symbol(x)];
    let params = seq![Term::Symbol(x)];
    let empty = Seq::<(Seq<char>, Term)>::empty();
    assert(params.drop_first() =~= Seq::<Term>::empty());
    assert(crate::semantics::symbol_names(params) == Ok::<Seq<Seq<char>>, Fault>(seq![x])) by {
        assert(crate::semantics::symbol_names(Seq::empty()) == Ok::<Seq<Seq<char>>, Fault>(Seq::empty()));
        assert(seq![x] + Seq::<Seq<char>>::empty() =~= seq![x]);
    }
    let sent = crate::semantics::sentinels(seq![x]);
    assert(sent =~= seq![(x, Term::Symbol(x))]);
    let outer = s.push(sent);
    lemma_lookup_one_miss(x, Term::Symbol(x), e);
    lemma_lookup_pushed(s, sent, e);
    assert(outer.drop_last() =~= s);
    assert(env_lookup(outer, x) == Some(Term::Symbol(x)));
    let acc0: Env = seq![empty];
    let acc1 = env_set(acc0, e, idf);
    assert(acc1 =~= seq![seq![(e, idf)]]);
    lemma_lookup_one_miss(e, idf, x);
    assert(crate::semantics::capture_symbol(e, outer, acc0) == (Ok::<(), Fault>(()), acc1));
    assert(crate::semantics::capture_symbol(x, outer, acc1) == (Ok::<(), Fault>(()), acc1));
    assert(crate::semantics::capture_term_of(Term::Symbol(e), outer, acc0) == (Ok::<(), Fault>(()), acc1));
    assert(crate::semantics::capture_term_of(Term::Symbol(x), outer, acc1) == (Ok::<(), Fault>(()), acc1));
    assert(crate::semantics::capture_elems(Seq::empty(), outer, acc1) == (Ok::<(), Fault>(()), acc1));
    assert(body.drop_first() =~= seq![Term::Symbol(x)]);
    assert(seq![Term::Symbol(x)].drop_first() =~= Seq::<Term>::empty());
    assert(crate::semantics::capture_elems(seq![Term::Symbol(x)], outer, acc1) == (Ok::<(), Fault>(()), acc1));
    assert(crate::semantics::capture_elems(body, outer, acc0) == (Ok::<(), Fault>(()), acc1));
    assert(crate::semantics::capture_items(body, outer, acc0) == (Ok::<(), Fault>(()), acc1));
    let f = Term::Func {
        name: "λ"@,
        arity: Arity::Fixed(1),
        params: seq![x],
        form: Form::Lambda(body, acc1),
    };
    lemma_lambda_eval(form_name, params, body, s, d);
    assert(crate::semantics::build_function("λ"@, Term::List(params), Term::List(body), s) == Ok::<
        Term,
        Fault,
    >(f));
    assert(acc1.drop_last() =~= Seq::<crate::ast::Frame>::empty());
    assert(env_lookup(Seq::<crate::ast::Frame>::empty(), x) is None);
    assert(env_lookup(acc1, x) is None);
    // The call `(f a)`.
    let e1 = (d - 1) as nat;
    let e2 = (d - 2) as nat;
    assert(seq![f, a].drop_first() =~= seq![a]);
    assert(seq![a].drop_first() =~= Seq::<Term>::empty());
    assert(eval_term(f, s, e1) == (Ok::<Term, Fault>(f), s));
    assert(eval_args(seq![a], s, e1) == (Ok::<Seq<Term>, Fault>(seq![a]), s)) by {
        assert(eval_args(Seq::empty(), s, e1) == (Ok::<Seq<Term>, Fault>(Seq::empty()), s));
        assert(eval_term(a, s, e1) == (Ok::<Term, Fault>(a), s));
        assert(seq![a] + Seq::<Term>::empty() =~= seq![a]);
    }
    let frame = crate::scope::bind_frame(seq![x], seq![a]);
    assert(frame =~= seq![(x, a)]);
    let c = acc1.push(frame);
    lemma_lookup_one_miss(x, a, e);
    lemma_lookup_one_hit(x, a);
    lemma_lookup_pushed(acc1, frame, e);
    assert(env_lookup(c, e) == Some(idf));
    assert(c.drop_last() =~= acc1);
    assert(env_lookup(c, x) == Some(a));
    assert(eval_args(seq![Term::Symbol(x)], c, e2) == (Ok::<Seq<Term>, Fault>(seq![a]), c)) by {
        assert(eval_args(Seq::empty(), c, e2) == (Ok::<Seq<Term>, Fault>(Seq::empty()), c));
        assert(eval_term(Term::Symbol(x), c, e2) == (Ok::<Term, Fault>(a), c));
        assert(seq![a] + Seq::<Term>::empty() =~= seq![a]);
    }
    assert(call_function(idf, seq![a], e2) == Ok::<Term, Fault>(a));
    assert(eval_list(body, c, e1).0 == Ok::<Term, Fault>(a));
    assert(call_function(f, seq![a], e1) == Ok::<Term, Fault>(a));
}


/// A record that `record` builds holds each key at most once.
pub proof fn law_record_keys_unique(vals: Seq<Term>)
    ensures
        record_pairs(vals) is Ok ==> keys_unique(record_pairs(vals)->Ok_0),
    decreases vals.len(),
{
    if vals.len() > 0 {
        law_record_keys_unique(vals.drop_last());
        if let Ok(ps) = record_pairs(vals.drop_last()) {
            if let Ok((k, v)) = record_entry(vals.last()) {
                lemma_key_index(ps, k);
                let r = record_insert(ps, k, v);
                assert forall|i: int, j: int| 0 <= i < j < r.len() implies r[i].0 != r[j].0 by {
                    if key_index(ps, k) is None && j == ps.len() {
                        assert(ps[i].0 != k);
                    }
                }
            }
        }
    }
}


/// A call of a lambda whose arity admits the arguments evaluates its body in
/// a child of the scope it captured when it was created, with the parameters
/// bound; the caller's scope takes no part.
pub proof fn law_lambda_call_is_lexical(f: Term, vals: Seq<Term>, d: nat)
    requires
        f is Func,
        f->Func_form is Lambda,
        arity_check(f->Func_arity, f->Func_name, vals.len()) is Ok,
    ensures
        call_function(f, vals, d) == eval_list(
            f->Func_form->Lambda_0,
            captured_env(f).push(crate::scope::bind_frame(f->Func_params, vals)),
            d,
        ).0,
{
}

/// Building a lambda leaves the scope as it was, and the function carries a
/// flat captured scope of one table, an arity that is its parameter count, and
/// its parameters as given.
pub proof fn law_lambda_builds_flat_closure(
    form_name: Seq<char>,
    params: Seq<Term>,
    body: Seq<Term>,
    s: Env,
    d: nat,
)
    requires
        d > 0,
    ensures
        eval_term(lambda_form(form_name, params, body), s, d).1 == s,
        eval_term(lambda_form(form_name, params, body), s, d).0 is Ok ==> ({
            let f = eval_term(lambda_form(form_name, params, body), s, d).0->Ok_0;
            &&& f is Func
            &&& f->Func_form == Form::Lambda(body, captured_env(f))
            &&& captured_env(f).len() == 1
            &&& crate::semantics::symbol_names(params) == Ok::<Seq<Seq<char>>, Fault>(f->Func_params)
            &&& f->Func_arity == Arity::Fixed(f->Func_params.len() as usize)
        }),
{
    lemma_lambda_eval(form_name, params, body, s, d);
    if let Ok(names) = crate::semantics::symbol_names(params) {
        let acc0: Env = seq![Seq::empty()];
        crate::semantics::lemma_capture_items_keeps(body, s.push(crate::semantics::sentinels(names)), acc0);
    }
}


/// `acc` binds `p` in its innermost table at most to the placeholder `p`.
pub open spec fn at_most_placeholder(acc: Env, p: Seq<char>) -> bool {
    &&& acc.len() > 0
    &&& (frame_get(acc.last(), p) is None || frame_get(acc.last(), p) == Some(Term::Symbol(p)))
}

proof fn lemma_ph_set(a: Env, n: Seq<char>, v: Term, p: Seq<char>)
    requires
        at_most_placeholder(a, p),
        n != p || v == Term::Symbol(p),
    ensures
        at_most_placeholder(env_set(a, n, v), p),
{
    assert(a.last().push((n, v)).drop_last() =~= a.last());
}

proof fn lemma_sentinels_get(names: Seq<Seq<char>>, p: Seq<char>)
    ensures
        frame_get(sentinels(names), p) is None || frame_get(sentinels(names), p) == Some(
            Term::Symbol(p),
        ),
        names.contains(p) ==> frame_get(sentinels(names), p) is Some,
    decreases names.len(),
{
    if names.len() > 0 {
        let init = names.drop_last();
        assert(sentinels(names).drop_last() =~= sentinels(init));
        lemma_sentinels_get(init, p);
        if names.contains(p) && names.last() != p {
            let i = choose|i: int| 0 <= i < names.len() && names[i] == p;
            assert(init[i] == p);
        }
    }
}

proof fn lemma_ph_outer(outer: Env, names: Seq<Seq<char>>, p: Seq<char>)
    requires
        env_lookup(outer, p) == Some(Term::Symbol(p)) || names.contains(p),
    ensures
        env_lookup(outer.push(sentinels(names)), p) == Some(Term::Symbol(p)),
{
    lemma_sentinels_get(names, p);
    assert(outer.push(sentinels(names)).drop_last() =~= outer);
}

proof fn lemma_ph_symbol(n: Seq<char>, outer: Env, acc: Env, p: Seq<char>)
    requires
        at_most_placeholder(acc, p),
        env_lookup(outer, p) == Some(Term::Symbol(p)),
    ensures
        at_most_placeholder(capture_symbol(n, outer, acc).1, p),
{
    if !env_has(acc, n) {
        if let Some(v) = env_lookup(outer, n) {
            if v != Term::Symbol(n) {
                lemma_ph_set(acc, n, v, p);
            }
        }
    }
}

proof fn lemma_ph_defvar(lhs: Term, rhs: Term, outer: Env, acc: Env, p: Seq<char>)
    requires
        at_most_placeholder(acc, p),
        env_lookup(outer, p) == Some(Term::Symbol(p)),
    ensures
        at_most_placeholder(capture_defvar_rule(lhs, rhs, outer, acc).1, p),
    decreases rhs, 1nat,
{
    if let Term::Symbol(n) = lhs {
        lemma_ph_term(rhs, outer, acc, p);
        let a = capture_term_of(rhs, outer, acc).1;
        if !env_has(a, n) {
            lemma_ph_set(a, n, Term::Symbol(n), p);
        }
    }
}

proof fn lemma_ph_term(t: Term, outer: Env, acc: Env, p: Seq<char>)
    requires
        at_most_placeholder(acc, p),
        env_lookup(outer, p) == Some(Term::Symbol(p)),
    ensures
        at_most_placeholder(capture_term_of(t, outer, acc).1, p),
    decreases t, 0nat,
{
    match t {
        Term::List(x) => lemma_ph_items(x, outer, acc, p),
        Term::Symbol(n) => lemma_ph_symbol(n, outer, acc, p),
        _ => {},
    }
}

proof fn lemma_ph_elems(items: Seq<Term>, outer: Env, acc: Env, p: Seq<char>)
    requires
        at_most_placeholder(acc, p),
        env_lookup(outer, p) == Some(Term::Symbol(p)),
    ensures
        at_most_placeholder(capture_elems(items, outer, acc).1, p),
    decreases items, 1nat,
{
    if items.len() > 0 {
        lemma_ph_term(items[0], outer, acc, p);
        let (r, a) = capture_term_of(items[0], outer, acc);
        if r is Ok {
            lemma_ph_elems(items.drop_first(), outer, a, p);
        }
    }
}

proof fn lemma_ph_rule(sf: Term, items: Seq<Term>, outer: Env, acc: Env, p: Seq<char>)
    requires
        at_most_placeholder(acc, p),
        env_lookup(outer, p) == Some(Term::Symbol(p)),
    ensures
        at_most_placeholder(capture_rule(sf, items, outer, acc).1, p),
    decreases items, 1nat,
{
    if items.len() > 0 {
        let args = items.drop_first();
        if crate::semantics::special_arity_check(sf, args.len()) is Ok {
            match sf->Special_kind {
                SpecialKind::Quote => {},
                SpecialKind::If => lemma_ph_items(args, outer, acc, p),
                SpecialKind::DefVar => lemma_ph_defvar(args[0], items[2], outer, acc, p),
                SpecialKind::Define => match args[0] {
                    Term::Symbol(_) => lemma_ph_defvar(args[0], items[2], outer, acc, p),
                    Term::List(sexp) => if sexp.len() > 0 {
                        if let Ok(names) = crate::semantics::symbol_names(sexp.drop_first()) {
                            if let Term::List(body) = items[2] {
                                lemma_ph_outer(outer, names, p);
                                lemma_ph_items(body, outer.push(sentinels(names)), acc, p);
                            }
                        }
                    },
                    _ => {},
                },
                SpecialKind::Lambda => if let Ok(names) = crate::semantics::argnames(args[0]) {
                    if let Term::List(body) = items[2] {
                        lemma_ph_outer(outer, names, p);
                        lemma_ph_items(body, outer.push(sentinels(names)), acc, p);
                    }
                },
            }
        }
    }
}

proof fn lemma_ph_items(items: Seq<Term>, outer: Env, acc: Env, p: Seq<char>)
    requires
        at_most_placeholder(acc, p),
        env_lookup(outer, p) == Some(Term::Symbol(p)),
    ensures
        at_most_placeholder(capture_items(items, outer, acc).1, p),
    decreases items, 2nat,
{
    match crate::semantics::special_head(items, outer) {
        Some((sf, via)) => {
            lemma_ph_rule(sf, items, outer, acc, p);
            let a = capture_rule(sf, items, outer, acc).1;
            if let Some(n) = via {
                if !env_has(a, n) {
                    lemma_ph_set(a, n, sf, p);
                }
            }
        },
        None => lemma_ph_elems(items, outer, acc, p),
    }
}

/// A lambda never captures an outer binding of one of its parameters: in the
/// scope it carries, a parameter's name is bound at most to the placeholder
/// that marks it as bound at call time, whatever the body and the outer scope.
pub proof fn law_parameters_never_captured(
    form_name: Seq<char>,
    params: Seq<Term>,
    body: Seq<Term>,
    s: Env,
    d: nat,
    p: Seq<char>,
)
    requires
        d > 0,
        crate::semantics::symbol_names(params) is Ok,
        crate::semantics::symbol_names(params)->Ok_0.contains(p),
    ensures
        eval_term(lambda_form(form_name, params, body), s, d).0 is Ok ==> at_most_placeholder(
            captured_env(eval_term(lambda_form(form_name, params, body), s, d).0->Ok_0),
            p,
        ),
{
    lemma_lambda_eval(form_name, params, body, s, d);
    let names = crate::semantics::symbol_names(params)->Ok_0;
    let acc0: Env = seq![Seq::empty()];
    lemma_ph_outer(s, names, p);
    lemma_ph_items(body, s.push(sentinels(names)), acc0, p);
}

} // verus!
