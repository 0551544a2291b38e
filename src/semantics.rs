//! The meaning of evaluation, as spec functions over the model.
//!
//! Evaluation carries a depth budget: each s-expression application uses one
//! unit, and running out is the `DepthExceeded` error rather than a host stack
//! overflow.
use vstd::prelude::*;
use crate::ast::{Arity, BuiltinOp, Env, Fault, Form, Frame, Lit, SpecialKind, Term, decimal, kind_name, syntax_fault};
use crate::scope::{bind_frame, env_has, env_lookup, env_set, frame_get, lookup_result};

verus! {

/// Whether `n` arguments fit the arity.
pub open spec fn arity_ok(a: Arity, n: nat) -> bool {
    match a {
        Arity::Fixed(k) => n == k,
        Arity::Variadic => true,
    }
}

/// The arity check: fails iff the arity is fixed and the count differs.
pub open spec fn arity_check(a: Arity, name: Seq<char>, n: nat) -> Result<(), Fault> {
    match a {
        Arity::Fixed(k) => if n == k {
            Ok(())
        } else {
            Err(Fault::Arity { name, arity: k as nat, num_args: n })
        },
        Arity::Variadic => Ok(()),
    }
}

/// How many arguments each special form reads.
pub open spec fn kind_args(k: SpecialKind) -> nat {
    match k {
        SpecialKind::Quote => 0,
        SpecialKind::If => 3,
        _ => 2,
    }
}

/// The arity check of a special form: its declared arity, then the arguments
/// that its kind reads.
pub open spec fn special_arity_check(sf: Term, n: nat) -> Result<(), Fault> {
    match arity_check(sf->Special_arity, sf->Special_name, n) {
        Err(e) => Err(e),
        Ok(_) => if n < kind_args(sf->Special_kind) {
            Err(Fault::Arity { name: sf->Special_name, arity: kind_args(sf->Special_kind), num_args: n })
        } else {
            Ok(())
        },
    }
}

/// The names of a parameter list, or the error for its first non-symbol.
pub open spec fn symbol_names(xs: Seq<Term>) -> Result<Seq<Seq<char>>, Fault>
    decreases xs.len(),
{
    if xs.len() == 0 {
        Ok(seq![])
    } else {
        match xs[0] {
            Term::Symbol(n) => match symbol_names(xs.drop_first()) {
                Ok(r) => Ok(seq![n] + r),
                Err(e) => Err(e),
            },
            t => Err(syntax_fault("Symbol"@, t)),
        }
    }
}

/// The parameter names of a lambda, from its first argument.
pub open spec fn argnames(t: Term) -> Result<Seq<Seq<char>>, Fault> {
    match t {
        Term::List(xs) => symbol_names(xs),
        _ => Err(syntax_fault("S-expression"@, t)),
    }
}

/// The table that marks each parameter as bound at call time: it maps the
/// name to the symbol itself.
pub open spec fn sentinels(names: Seq<Seq<char>>) -> Frame {
    Seq::new(names.len(), |i: int| (names[i], Term::Symbol(names[i])))
}

/// Whether an s-expression head denotes a special form: it is a special form
/// itself, or a symbol that `outer` binds to one. Gives the form, and the name
/// that it was reached through.
pub open spec fn special_head_of(t: Term, outer: Env) -> Option<(Term, Option<Seq<char>>)> {
    match t {
        Term::Special { .. } => Some((t, None)),
        Term::Symbol(n) => match env_lookup(outer, n) {
            Some(v) => if v is Special {
                Some((v, Some(n)))
            } else {
                None
            },
            None => None,
        },
        _ => None,
    }
}

/// `special_head_of` for the first element of a non-empty s-expression.
pub open spec fn special_head(items: Seq<Term>, outer: Env) -> Option<(Term, Option<Seq<char>>)> {
    if items.len() == 0 {
        None
    } else {
        special_head_of(items[0], outer)
    }
}

/// The outcome of a capture step and the accumulator after it. On failure the
/// accumulator holds what was added before the failing step.
pub type Captured = (Result<(), Fault>, Env);

/// Capture of one symbol reference: a name not yet in `acc` is looked up in
/// `outer` and copied in, unless it is bound to itself (a name bound at call
/// time).
pub open spec fn capture_symbol(n: Seq<char>, outer: Env, acc: Env) -> Captured {
    if env_has(acc, n) {
        (Ok(()), acc)
    } else {
        match env_lookup(outer, n) {
            None => (Err(Fault::Lookup(n)), acc),
            Some(v) => if v == Term::Symbol(n) {
                (Ok(()), acc)
            } else {
                (Ok(()), env_set(acc, n, v))
            },
        }
    }
}

/// Marks `n` as bound at call time, unless `acc` already binds it.
pub open spec fn mark_bound(acc: Env, n: Seq<char>) -> Env {
    if env_has(acc, n) {
        acc
    } else {
        env_set(acc, n, Term::Symbol(n))
    }
}

/// After a special form's rule succeeded: the form is added under the name it
/// was reached through, unless `acc` already binds that name.
pub open spec fn register_head(acc: Env, via: Option<Seq<char>>, sf: Term) -> Env {
    match via {
        Some(n) => if env_has(acc, n) {
            acc
        } else {
            env_set(acc, n, sf)
        },
        None => acc,
    }
}

/// The `defvar` rule: capture for the value, then mark the name as bound.
pub open spec fn capture_defvar_rule(lhs: Term, rhs: Term, outer: Env, acc: Env) -> Captured
    decreases rhs, 1nat,
{
    match lhs {
        Term::Symbol(n) => {
            let (r, a) = capture_term_of(rhs, outer, acc);
            match r {
                Err(e) => (Err(e), a),
                Ok(_) => (Ok(()), mark_bound(a, n)),
            }
        },
        t => (Err(syntax_fault("Symbol"@, t)), acc),
    }
}

/// The rule of the special form `sf` heading `items`: checks the arity, then
/// walks what the form evaluates.
pub open spec fn capture_rule(sf: Term, items: Seq<Term>, outer: Env, acc: Env) -> Captured
    decreases items, 1nat,
{
    if items.len() == 0 {
        (Ok(()), acc)
    } else {
        let args = items.drop_first();
        match special_arity_check(sf, args.len()) {
            Err(e) => (Err(e), acc),
            Ok(_) => match sf->Special_kind {
                SpecialKind::Quote => (Ok(()), acc),
                SpecialKind::If => capture_items(args, outer, acc),
                SpecialKind::DefVar => capture_defvar_rule(args[0], items[2], outer, acc),
                SpecialKind::Define => match args[0] {
                    Term::Symbol(_) => capture_defvar_rule(args[0], items[2], outer, acc),
                    Term::List(sexp) => if sexp.len() == 0 {
                        (Err(Fault::Syntax { expected: "List of symbols"@, actual: "Empty"@ }), acc)
                    } else {
                        match symbol_names(sexp.drop_first()) {
                            Err(e) => (Err(e), acc),
                            Ok(names) => match items[2] {
                                Term::List(body) => capture_items(
                                    body,
                                    outer.push(sentinels(names)),
                                    acc,
                                ),
                                t => (Err(syntax_fault("S-expression"@, t)), acc),
                            },
                        }
                    },
                    t => (Err(syntax_fault("S-Expression or Symbol"@, t)), acc),
                },
                SpecialKind::Lambda => match argnames(args[0]) {
                    Err(e) => (Err(e), acc),
                    Ok(names) => match items[2] {
                        Term::List(body) => capture_items(body, outer.push(sentinels(names)), acc),
                        t => (Err(syntax_fault("S-expression"@, t)), acc),
                    },
                },
            },
        }
    }
}

/// The capture walk over an s-expression: the bindings of `outer` that the
/// body refers to are added to `acc`. A special form in head position is
/// handled by its rule; once the rule succeeds, the form itself is added under
/// the name it was reached through.
pub open spec fn capture_items(items: Seq<Term>, outer: Env, acc: Env) -> Captured
    decreases items, 2nat,
{
    match special_head(items, outer) {
        Some((sf, via)) => {
            let (r, a) = capture_rule(sf, items, outer, acc);
            match r {
                Err(e) => (Err(e), a),
                Ok(_) => (Ok(()), register_head(a, via, sf)),
            }
        },
        None => capture_elems(items, outer, acc),
    }
}

/// Capture for one expression: an s-expression is walked, a symbol captured.
pub open spec fn capture_term_of(t: Term, outer: Env, acc: Env) -> Captured
    decreases t, 0nat,
{
    match t {
        Term::List(x) => capture_items(x, outer, acc),
        Term::Symbol(n) => capture_symbol(n, outer, acc),
        _ => (Ok(()), acc),
    }
}

/// The generic walk: each element, left to right.
pub open spec fn capture_elems(items: Seq<Term>, outer: Env, acc: Env) -> Captured
    decreases items, 1nat,
{
    if items.len() == 0 {
        (Ok(()), acc)
    } else {
        let (r, a) = capture_term_of(items[0], outer, acc);
        match r {
            Err(e) => (Err(e), a),
            Ok(_) => capture_elems(items.drop_first(), outer, a),
        }
    }
}

/// `fin` keeps every binding that `acc` has in its innermost table, and as
/// many tables.
pub open spec fn keeps(acc: Env, fin: Env) -> bool {
    &&& acc.len() > 0 ==> fin.len() == acc.len()
    &&& forall|n: Seq<char>|
        #[trigger] env_has(acc, n) ==> env_has(fin, n) && frame_get(fin.last(), n) == frame_get(
            acc.last(),
            n,
        )
}

proof fn lemma_set_keeps(a: Env, m: Seq<char>, v: Term)
    requires
        !env_has(a, m),
    ensures
        keeps(a, env_set(a, m, v)),
{
    if a.len() > 0 {
        assert(a.last().push((m, v)).drop_last() =~= a.last());
    }
}

proof fn lemma_keeps_trans(a: Env, b: Env, c: Env)
    requires
        keeps(a, b),
        keeps(b, c),
    ensures
        keeps(a, c),
{
}

proof fn lemma_symbol_keeps(n: Seq<char>, outer: Env, acc: Env)
    ensures
        keeps(acc, capture_symbol(n, outer, acc).1),
{
    if !env_has(acc, n) {
        if let Some(v) = env_lookup(outer, n) {
            lemma_set_keeps(acc, n, v);
        }
    }
}

proof fn lemma_mark_keeps(acc: Env, n: Seq<char>)
    ensures
        keeps(acc, mark_bound(acc, n)),
{
    if !env_has(acc, n) {
        lemma_set_keeps(acc, n, Term::Symbol(n));
    }
}

proof fn lemma_register_keeps(acc: Env, via: Option<Seq<char>>, sf: Term)
    ensures
        keeps(acc, register_head(acc, via, sf)),
{
    if let Some(n) = via {
        if !env_has(acc, n) {
            lemma_set_keeps(acc, n, sf);
        }
    }
}

proof fn lemma_defvar_rule_keeps(lhs: Term, rhs: Term, outer: Env, acc: Env)
    ensures
        keeps(acc, capture_defvar_rule(lhs, rhs, outer, acc).1),
    decreases rhs, 1nat,
{
    if let Term::Symbol(n) = lhs {
        lemma_term_keeps(rhs, outer, acc);
        let a = capture_term_of(rhs, outer, acc).1;
        lemma_mark_keeps(a, n);
        lemma_keeps_trans(acc, a, mark_bound(a, n));
    }
}

proof fn lemma_term_keeps(t: Term, outer: Env, acc: Env)
    ensures
        keeps(acc, capture_term_of(t, outer, acc).1),
    decreases t, 0nat,
{
    match t {
        Term::List(x) => lemma_capture_items_keeps(x, outer, acc),
        Term::Symbol(n) => lemma_symbol_keeps(n, outer, acc),
        _ => {},
    }
}

proof fn lemma_elems_keeps(items: Seq<Term>, outer: Env, acc: Env)
    ensures
        keeps(acc, capture_elems(items, outer, acc).1),
    decreases items, 1nat,
{
    if items.len() > 0 {
        lemma_term_keeps(items[0], outer, acc);
        let (r, a) = capture_term_of(items[0], outer, acc);
        if r is Ok {
            lemma_elems_keeps(items.drop_first(), outer, a);
            lemma_keeps_trans(acc, a, capture_elems(items.drop_first(), outer, a).1);
        }
    }
}

proof fn lemma_rule_keeps(sf: Term, items: Seq<Term>, outer: Env, acc: Env)
    ensures
        keeps(acc, capture_rule(sf, items, outer, acc).1),
    decreases items, 1nat,
{
    if items.len() > 0 {
        let args = items.drop_first();
        if special_arity_check(sf, args.len()) is Ok {
            match sf->Special_kind {
                SpecialKind::Quote => {},
                SpecialKind::If => lemma_capture_items_keeps(args, outer, acc),
                SpecialKind::DefVar => lemma_defvar_rule_keeps(args[0], items[2], outer, acc),
                SpecialKind::Define => match args[0] {
                    Term::Symbol(_) => lemma_defvar_rule_keeps(args[0], items[2], outer, acc),
                    Term::List(sexp) => if sexp.len() > 0 {
                        if let Ok(names) = symbol_names(sexp.drop_first()) {
                            if let Term::List(body) = items[2] {
                                lemma_capture_items_keeps(body, outer.push(sentinels(names)), acc);
                            }
                        }
                    },
                    _ => {},
                },
                SpecialKind::Lambda => if let Ok(names) = argnames(args[0]) {
                    if let Term::List(body) = items[2] {
                        lemma_capture_items_keeps(body, outer.push(sentinels(names)), acc);
                    }
                },
            }
        }
    }
}

/// Every capture walk keeps the bindings that the accumulator already had,
/// whether it succeeds or fails.
pub proof fn lemma_capture_items_keeps(items: Seq<Term>, outer: Env, acc: Env)
    ensures
        keeps(acc, capture_items(items, outer, acc).1),
    decreases items, 2nat,
{
    match special_head(items, outer) {
        Some((sf, via)) => {
            lemma_rule_keeps(sf, items, outer, acc);
            let a = capture_rule(sf, items, outer, acc).1;
            lemma_register_keeps(a, via, sf);
            lemma_keeps_trans(acc, a, register_head(a, via, sf));
        },
        None => lemma_elems_keeps(items, outer, acc),
    }
}

/// The function that a lambda form builds: its parameters, its body, and the
/// flat scope captured from `s`.
pub open spec fn build_function(name: Seq<char>, params: Term, body: Term, s: Env) -> Result<Term, Fault> {
    match argnames(params) {
        Err(e) => Err(e),
        Ok(names) => match body {
            Term::List(b) => match capture_items(b, s.push(sentinels(names)), seq![seq![]]) {
                (Err(e), _) => Err(e),
                (Ok(_), captured) => Ok(
                    Term::Func {
                        name,
                        arity: Arity::Fixed(names.len() as usize),
                        params: names,
                        form: Form::Lambda(b, captured),
                    },
                ),
            },
            t => Err(syntax_fault("S-expression"@, t)),
        },
    }
}

/// The name of a literal's variant.
pub open spec fn lit_name(l: Lit) -> Seq<char> {
    match l {
        Lit::Str(_) => "Str"@,
        Lit::Char(_) => "Char"@,
        Lit::Int(_) => "Int"@,
        Lit::Bytes(_) => "Bytes"@,
        Lit::Float(_) => "Float"@,
        Lit::Bool(_) => "Bool"@,
        Lit::Nil => "Nil"@,
    }
}

/// The error for a value of the wrong type.
pub open spec fn type_fault(expected: Seq<char>, t: Term) -> Fault {
    Fault::Type { expected, actual: kind_name(t) }
}

/// Addition: strings and characters concatenate, integers add.
pub open spec fn add_terms(a: Term, b: Term) -> Result<Term, Fault> {
    match (a, b) {
        (Term::Lit(x), Term::Lit(y)) => match (x, y) {
            (Lit::Str(p), Lit::Str(q)) => Ok(Term::Lit(Lit::Str(p + q))),
            (Lit::Char(c), Lit::Char(d)) => Ok(Term::Lit(Lit::Str(seq![c, d]))),
            (Lit::Str(p), Lit::Char(d)) => Ok(Term::Lit(Lit::Str(p.push(d)))),
            (Lit::Char(c), Lit::Str(q)) => Ok(Term::Lit(Lit::Str(seq![c] + q))),
            (Lit::Int(m), Lit::Int(n)) => if isize::MIN <= m + n <= isize::MAX {
                Ok(Term::Lit(Lit::Int(m + n)))
            } else {
                Err(Fault::Type { expected: "Int"@, actual: "Int overflow"@ })
            },
            _ => Err(
                Fault::Type { expected: "Supported addition"@, actual: lit_name(x) + " + "@ + lit_name(y) },
            ),
        },
        (Term::Lit(_), _) => Err(type_fault("Value"@, b)),
        _ => Err(type_fault("Value"@, a)),
    }
}

/// The integers `start, start + 1, ..., end - 1`.
pub open spec fn int_range(start: int, end: int) -> Seq<Term> {
    Seq::new(if start < end { (end - start) as nat } else { 0 }, |i: int| Term::Lit(Lit::Int(start + i)))
}

/// One record entry: a `(keyword value)` pair.
pub open spec fn record_entry(v: Term) -> Result<(Seq<char>, Term), Fault> {
    match v {
        Term::List(kv) => if kv.len() == 2 {
            match kv[0] {
                Term::Keyword(k) => Ok((k, kv[1])),
                t => Err(syntax_fault("Keyword"@, t)),
            }
        } else {
            Err(Fault::Syntax {
                expected: "S-expression w/ length "@ + decimal(2),
                actual: "Length "@ + decimal(kv.len()),
            })
        },
        t => Err(syntax_fault("S-expression"@, t)),
    }
}

/// The position of key `k` among the entries.
pub open spec fn key_index(ps: Seq<(Seq<char>, Term)>, k: Seq<char>) -> Option<int>
    decreases ps.len(),
{
    if ps.len() == 0 {
        None
    } else {
        match key_index(ps.drop_last(), k) {
            Some(i) => Some(i),
            None => if ps.last().0 == k {
                Some(ps.len() - 1)
            } else {
                None
            },
        }
    }
}

/// `key_index` finds the first entry with the key, if any has it.
pub proof fn lemma_key_index(ps: Seq<(Seq<char>, Term)>, k: Seq<char>)
    ensures
        match key_index(ps, k) {
            Some(i) => 0 <= i < ps.len() && ps[i].0 == k && forall|j: int| 0 <= j < i ==> ps[j].0 != k,
            None => forall|j: int| 0 <= j < ps.len() ==> ps[j].0 != k,
        },
    decreases ps.len(),
{
    if ps.len() > 0 {
        let init = ps.drop_last();
        lemma_key_index(init, k);
        assert(forall|j: int| 0 <= j < init.len() ==> init[j] == ps[j]);
    }
}

/// Sets key `k` to `v`: an existing entry is replaced, else one is added.
pub open spec fn record_insert(ps: Seq<(Seq<char>, Term)>, k: Seq<char>, v: Term) -> Seq<(Seq<char>, Term)> {
    match key_index(ps, k) {
        Some(i) => ps.update(i, (k, v)),
        None => ps.push((k, v)),
    }
}

/// Whether no key occurs twice.
pub open spec fn keys_unique(ps: Seq<(Seq<char>, Term)>) -> bool {
    forall|i: int, j: int| 0 <= i < j < ps.len() ==> ps[i].0 != ps[j].0
}

/// The record built from `(keyword value)` pairs, left to right, a later
/// pair for a key replacing an earlier one; or the error of the first bad pair.
pub open spec fn record_pairs(vals: Seq<Term>) -> Result<Seq<(Seq<char>, Term)>, Fault>
    decreases vals.len(),
{
    if vals.len() == 0 {
        Ok(seq![])
    } else {
        match record_pairs(vals.drop_last()) {
            Err(e) => Err(e),
            Ok(ps) => match record_entry(vals.last()) {
                Err(e) => Err(e),
                Ok((k, v)) => Ok(record_insert(ps, k, v)),
            },
        }
    }
}

/// How many arguments each built-in operation reads.
pub open spec fn op_args(op: BuiltinOp) -> nat {
    match op {
        BuiltinOp::Record => 0,
        BuiltinOp::Concat | BuiltinOp::Add | BuiltinOp::Range => 2,
        _ => 1,
    }
}

/// A built-in operation on evaluated arguments.
pub open spec fn apply_builtin(name: Seq<char>, op: BuiltinOp, vals: Seq<Term>) -> Result<Term, Fault> {
    if vals.len() < op_args(op) {
        Err(Fault::Arity { name, arity: op_args(op), num_args: vals.len() })
    } else {
        match op {
            BuiltinOp::Identity => Ok(vals[0]),
            BuiltinOp::Len => match vals[0] {
                Term::List(xs) => if xs.len() <= isize::MAX {
                    Ok(Term::Lit(Lit::Int(xs.len() as int)))
                } else {
                    Err(Fault::Type { expected: "Int"@, actual: "S-expression"@ })
                },
                t => Err(syntax_fault("S-expression"@, t)),
            },
            BuiltinOp::First => match vals[0] {
                Term::List(xs) => Ok(
                    if xs.len() > 0 {
                        xs[0]
                    } else {
                        Term::List(seq![])
                    },
                ),
                t => Err(syntax_fault("S-expression"@, t)),
            },
            BuiltinOp::Rest => match vals[0] {
                Term::List(xs) => Ok(
                    Term::List(
                        if xs.len() > 0 {
                            xs.drop_first()
                        } else {
                            xs
                        },
                    ),
                ),
                t => Err(syntax_fault("S-expression"@, t)),
            },
            BuiltinOp::Concat => match vals[0] {
                Term::List(a) => match vals[1] {
                    Term::List(b) => Ok(Term::List(a + b)),
                    t => Err(syntax_fault("S-expression"@, t)),
                },
                t => Err(syntax_fault("S-expression"@, t)),
            },
            BuiltinOp::Record => match record_pairs(vals) {
                Ok(pairs) => Ok(Term::Record(pairs)),
                Err(e) => Err(e),
            },
            BuiltinOp::Add => add_terms(vals[0], vals[1]),
            BuiltinOp::Range => match (vals[0], vals[1]) {
                (Term::Lit(Lit::Int(a)), Term::Lit(Lit::Int(b))) => Ok(Term::List(int_range(a, b))),
                (Term::Lit(Lit::Int(_)), t) => Err(type_fault("Int"@, t)),
                (t, _) => Err(type_fault("Int"@, t)),
            },
            BuiltinOp::Negate => match vals[0] {
                Term::Lit(Lit::Bool(b)) => Ok(Term::Lit(Lit::Bool(!b))),
                t => Err(type_fault("Bool"@, t)),
            },
        }
    }
}

/// Evaluation of one expression in scope `s` with depth budget `d`: the
/// outcome and the scope afterwards.
pub open spec fn eval_term(e: Term, s: Env, d: nat) -> (Result<Term, Fault>, Env)
    decreases d, 2nat, 0nat,
{
    match e {
        Term::List(items) => eval_list(items, s, d),
        Term::Symbol(n) => (lookup_result(s, n), s),
        _ => (Ok(e), s),
    }
}

/// Evaluation of an s-expression.
pub open spec fn eval_list(items: Seq<Term>, s: Env, d: nat) -> (Result<Term, Fault>, Env)
    decreases d, 1nat, 0nat,
{
    if items.len() == 0 {
        (Ok(Term::List(seq![])), s)
    } else if d == 0 {
        (Err(Fault::DepthExceeded), s)
    } else {
        let (h, s1) = eval_term(items[0], s, (d - 1) as nat);
        match h {
            Err(e) => (Err(e), s1),
            Ok(head) => match head {
                Term::Special { .. } => apply_special(head, items.drop_first(), s1, (d - 1) as nat),
                Term::Func { .. } => {
                    let (a, s2) = eval_args(items.drop_first(), s1, (d - 1) as nat);
                    match a {
                        Err(e) => (Err(e), s2),
                        Ok(vals) => (call_function(head, vals, (d - 1) as nat), s2),
                    }
                },
                t => (Err(Fault::NotCallable(kind_name(t))), s1),
            },
        }
    }
}

/// Evaluation of call arguments, left to right, each in the scope that the
/// previous one left.
pub open spec fn eval_args(items: Seq<Term>, s: Env, d: nat) -> (Result<Seq<Term>, Fault>, Env)
    decreases d, 5nat, items.len(),
{
    if items.len() == 0 {
        (Ok(seq![]), s)
    } else {
        let (r, s1) = eval_term(items[0], s, d);
        match r {
            Err(e) => (Err(e), s1),
            Ok(v) => {
                let (rest, s2) = eval_args(items.drop_first(), s1, d);
                match rest {
                    Err(e) => (Err(e), s2),
                    Ok(vs) => (Ok(seq![v] + vs), s2),
                }
            },
        }
    }
}

/// A call of a function on evaluated arguments. A lambda's body runs in a
/// child of its captured scope that binds the parameters.
pub open spec fn call_function(f: Term, vals: Seq<Term>, d: nat) -> Result<Term, Fault>
    decreases d, 4nat, 0nat,
{
    match f {
        Term::Func { name, arity, params, form } => match arity_check(arity, name, vals.len()) {
            Err(e) => Err(e),
            Ok(_) => match form {
                Form::Builtin(op) => apply_builtin(name, op, vals),
                Form::Lambda(body, captured) => eval_list(
                    body,
                    captured.push(bind_frame(params, vals)),
                    d,
                ).0,
            },
        },
        _ => Err(Fault::NotCallable(kind_name(f))),
    }
}

/// `defvar`: evaluates the value, then binds the symbol in the current scope.
pub open spec fn eval_defvar(lhs: Term, rhs: Term, s: Env, d: nat) -> (Result<Term, Fault>, Env)
    decreases d, 3nat, 0nat,
{
    match lhs {
        Term::Symbol(n) => {
            let (v, s1) = eval_term(rhs, s, d);
            match v {
                Ok(v) => (Ok(Term::List(seq![])), env_set(s1, n, v)),
                Err(e) => (Err(e), s1),
            }
        },
        t => (Err(syntax_fault("Symbol"@, t)), s),
    }
}

/// A call of a special form on unevaluated arguments and the live scope.
pub open spec fn apply_special(sf: Term, args: Seq<Term>, s: Env, d: nat) -> (Result<Term, Fault>, Env)
    decreases d, 4nat, 0nat,
{
    match special_arity_check(sf, args.len()) {
        Err(e) => (Err(e), s),
        Ok(_) => match sf->Special_kind {
            SpecialKind::Quote => (Ok(Term::List(args)), s),
            SpecialKind::If => {
                let (c, s1) = eval_term(args[0], s, d);
                match c {
                    Err(e) => (Err(e), s1),
                    Ok(Term::Lit(Lit::Bool(b))) => eval_term(
                        if b {
                            args[1]
                        } else {
                            args[2]
                        },
                        s1,
                        d,
                    ),
                    Ok(t) => (Err(type_fault("Bool"@, t)), s1),
                }
            },
            SpecialKind::DefVar => eval_defvar(args[0], args[1], s, d),
            SpecialKind::Define => match args[0] {
                Term::Symbol(_) => eval_defvar(args[0], args[1], s, d),
                Term::List(sexp) => if sexp.len() == 0 {
                    (Err(Fault::Syntax { expected: "List of symbols"@, actual: "Empty"@ }), s)
                } else {
                    match sexp[0] {
                        Term::Symbol(fname) => match build_function(
                            fname,
                            Term::List(sexp.drop_first()),
                            args[1],
                            s,
                        ) {
                            Ok(f) => (Ok(Term::List(seq![])), env_set(s, fname, f)),
                            Err(e) => (Err(e), s),
                        },
                        t => (Err(syntax_fault("Symbol"@, t)), s),
                    }
                },
                t => (Err(syntax_fault("S-Expression or Symbol"@, t)), s),
            },
            SpecialKind::Lambda => (build_function("λ"@, args[0], args[1], s), s),
        },
    }
}

} // verus!
