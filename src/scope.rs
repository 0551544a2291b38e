//! Chained environments mapping names to expressions.
use vstd::prelude::*;
use vstd::string::StringExecFns;
use crate::ast::{Env, EvalError, Expr, Fault, Frame, Scope, Term, frame_of, names_of, outcome_of, terms_of};

verus! {

/// The value of the last binding of `n` in one table.
pub open spec fn frame_get(f: Frame, n: Seq<char>) -> Option<Term>
    decreases f.len(),
{
    if f.len() == 0 {
        None
    } else if f.last().0 == n {
        Some(f.last().1)
    } else {
        frame_get(f.drop_last(), n)
    }
}

/// The value of `n`, searched from the innermost table outwards.
pub open spec fn env_lookup(s: Env, n: Seq<char>) -> Option<Term>
    decreases s.len(),
{
    if s.len() == 0 {
        None
    } else {
        match frame_get(s.last(), n) {
            Some(v) => Some(v),
            None => env_lookup(s.drop_last(), n),
        }
    }
}

/// `lookup`, failing with a lookup error that names the symbol.
pub open spec fn lookup_result(s: Env, n: Seq<char>) -> Result<Term, Fault> {
    match env_lookup(s, n) {
        Some(v) => Ok(v),
        None => Err(Fault::Lookup(n)),
    }
}

/// Binds `n` to `v` in the innermost table.
pub open spec fn env_set(s: Env, n: Seq<char>, v: Term) -> Env {
    if s.len() == 0 {
        seq![seq![(n, v)]]
    } else {
        s.update(s.len() - 1, s.last().push((n, v)))
    }
}

/// Whether `n` is bound in the innermost table itself.
pub open spec fn env_has(s: Env, n: Seq<char>) -> bool {
    s.len() > 0 && frame_get(s.last(), n) is Some
}

/// A new, empty table inside `s`.
pub open spec fn env_child(s: Env) -> Env {
    s.push(Seq::empty())
}

/// The table that binds each name to the value at the same position.
pub open spec fn bind_frame(names: Seq<Seq<char>>, vals: Seq<Term>) -> Frame {
    Seq::new(
        if names.len() <= vals.len() { names.len() } else { vals.len() },
        |i: int| (names[i], vals[i]),
    )
}

/// The model of an optional parent scope; no parent is no table at all.
pub open spec fn parent_env(p: Option<Scope>) -> Env {
    match p {
        Some(q) => q@,
        None => Seq::empty(),
    }
}

pub open spec fn option_of(r: Option<Expr>) -> Option<Term> {
    match r {
        Some(e) => Some(e@),
        None => None,
    }
}

/// A name bound in the innermost table is found there.
pub proof fn lemma_lookup_has(s: Env, n: Seq<char>)
    ensures
        env_has(s, n) ==> env_lookup(s, n) == frame_get(s.last(), n),
{
}

proof fn lemma_frame_get_at(f: Frame, n: Seq<char>, j: int)
    requires
        0 <= j < f.len(),
        f[j].0 == n,
        forall|k: int| j < k < f.len() ==> f[k].0 != n,
    ensures
        frame_get(f, n) == Some(f[j].1),
    decreases f.len(),
{
    if j < f.len() - 1 {
        lemma_frame_get_at(f.drop_last(), n, j);
    }
}

proof fn lemma_frame_get_none(f: Frame, n: Seq<char>, upto: int)
    requires
        0 <= upto <= f.len(),
        forall|k: int| upto <= k < f.len() ==> f[k].0 != n,
    ensures
        frame_get(f, n) == frame_get(f.subrange(0, upto), n),
    decreases f.len(),
{
    if upto < f.len() {
        lemma_frame_get_none(f.drop_last(), n, upto);
        assert(f.drop_last().subrange(0, upto) =~= f.subrange(0, upto));
    } else {
        assert(f.subrange(0, upto) =~= f);
    }
}

proof fn lemma_env_lookup_from(s: Env, n: Seq<char>, upto: int)
    requires
        0 <= upto <= s.len(),
        forall|k: int| upto <= k < s.len() ==> frame_get(s[k], n) is None,
    ensures
        env_lookup(s, n) == env_lookup(s.subrange(0, upto), n),
    decreases s.len(),
{
    if upto < s.len() {
        lemma_env_lookup_from(s.drop_last(), n, upto);
        assert(s.drop_last().subrange(0, upto) =~= s.subrange(0, upto));
    } else {
        assert(s.subrange(0, upto) =~= s);
    }
}

/// The position of the last binding of `key` in one table.
fn frame_find(t: &Vec<(String, Expr)>, key: &String) -> (r: Option<usize>)
    ensures
        match r {
            Some(j) => j < t@.len() && frame_get(frame_of(t@), key@) == Some(t@[j as int].1@),
            None => frame_get(frame_of(t@), key@) is None,
        },
{
    let mut i: usize = t.len();
    while i > 0
        invariant
            i <= t@.len(),
            forall|k: int| i <= k < t@.len() ==> frame_of(t@)[k].0 != key@,
        decreases i,
    {
        if t[i - 1].0 == *key {
            proof {
                lemma_frame_get_at(frame_of(t@), key@, i - 1);
            }
            return Some(i - 1);
        }
        i = i - 1;
    }
    proof {
        lemma_frame_get_none(frame_of(t@), key@, 0);
    }
    None
}

impl Scope {
    /// A scope with one empty table, inside `parent` if there is one.
    pub fn new(parent: Option<Scope>) -> (r: Scope)
        ensures
            r@ == env_child(parent_env(parent)),
    {
        let ghost p = parent_env(parent);
        let mut frames = match parent {
            Some(p) => p.frames,
            None => Vec::new(),
        };
        frames.push(Vec::new());
        let r = Scope { frames };
        proof {
            assert(frame_of(Seq::<(String, Expr)>::empty()) =~= Seq::<(Seq<char>, Term)>::empty());
            assert(r@ =~= env_child(p));
        }
        r
    }

    /// A new scope whose parent is a copy of this one. The copy is a snapshot:
    /// bindings made in `self` afterwards are not seen through the child. The
    /// evaluator never binds in a scope while a child of it is in use (a call
    /// frame is a child of a closure's captured scope, which nothing changes),
    /// so lookups agree with a shared parent.
    pub fn child(&self) -> (r: Scope)
        ensures
            r@ == env_child(self@),
    {
        Scope::new(Some(self.duplicate()))
    }

    /// Binds `key` in this scope's own table, hiding any earlier binding.
    pub fn set(&mut self, key: &str, val: Expr)
        ensures
            final(self)@ == env_set(old(self)@, key@, val@),
    {
        let name = String::from_str(key);
        let n = self.frames.len();
        if n == 0 {
            let mut t: Vec<(String, Expr)> = Vec::new();
            t.push((name, val));
            self.frames.push(t);
            assert(frame_of(self.frames@[0]@) =~= seq![(key@, val@)]);
            assert(self@ =~= env_set(old(self)@, key@, val@));
        } else {
            let mut t = self.frames.pop().unwrap();
            let ghost t0 = t@;
            t.push((name, val));
            self.frames.push(t);
            assert(frame_of(t@) =~= frame_of(t0).push((key@, val@)));
            assert(self@ =~= env_set(old(self)@, key@, val@));
        }
    }

    /// Whether `symbol` is bound in this scope's own table (not its ancestors).
    pub fn has(&self, symbol: &str) -> (r: bool)
        ensures
            r == env_has(self@, symbol@),
    {
        let n = self.frames.len();
        if n == 0 {
            false
        } else {
            let key = String::from_str(symbol);
            frame_find(&self.frames[n - 1], &key).is_some()
        }
    }

    /// The value bound to `symbol` here or in the nearest ancestor that binds it.
    pub fn lookup(&self, symbol: &str) -> (r: Option<Expr>)
        ensures
            option_of(r) == env_lookup(self@, symbol@),
    {
        let key = String::from_str(symbol);
        let mut i: usize = self.frames.len();
        while i > 0
            invariant
                i <= self.frames@.len(),
                key@ == symbol@,
                forall|k: int| i <= k < self@.len() ==> frame_get(self@[k], symbol@) is None,
            decreases i,
        {
            match frame_find(&self.frames[i - 1], &key) {
                Some(j) => {
                    proof {
                        lemma_env_lookup_from(self@, symbol@, i as int);
                        let s = self@.subrange(0, i as int);
                        assert(s.drop_last() =~= self@.subrange(0, i - 1));
                        assert(s.last() == self@[i - 1]);
                    }
                    return Some(self.frames[i - 1][j].1.duplicate());
                },
                None => {},
            }
            i = i - 1;
        }
        proof {
            lemma_env_lookup_from(self@, symbol@, 0);
        }
        None
    }

    /// `lookup`, failing with a lookup error that names the symbol.
    pub fn lookup_or_error(&self, symbol: &str) -> (r: Result<Expr, EvalError>)
        ensures
            outcome_of(r) == lookup_result(self@, symbol@),
    {
        match self.lookup(symbol) {
            Some(v) => Ok(v),
            None => Err(EvalError::LookupError(String::from_str(symbol))),
        }
    }

    /// A child scope binding each name to the value at the same position.
    pub fn bind_args(&self, names: &Vec<String>, values: &Vec<Expr>) -> (r: Scope)
        ensures
            r@ == self@.push(bind_frame(names_of(names@), terms_of(values@))),
    {
        let mut child_scope = self.child();
        let mut i: usize = 0;
        assert(bind_frame(names_of(names@).subrange(0, 0), terms_of(values@).subrange(0, 0)) =~= Seq::empty());
        while i < names.len() && i < values.len()
            invariant
                i <= names@.len(),
                i <= values@.len(),
                child_scope@ == self@.push(
                    bind_frame(names_of(names@).subrange(0, i as int), terms_of(values@).subrange(0, i as int)),
                ),
            decreases names@.len() - i,
        {
            let v = values[i].duplicate();
            child_scope.set(names[i].as_str(), v);
            i = i + 1;
            assert(bind_frame(names_of(names@).subrange(0, i as int), terms_of(values@).subrange(0, i as int))
                =~= bind_frame(names_of(names@).subrange(0, i - 1), terms_of(values@).subrange(0, i - 1)).push((names@[i - 1]@, values@[i - 1]@)));
            assert(child_scope@ =~= self@.push(
                    bind_frame(names_of(names@).subrange(0, i as int), terms_of(values@).subrange(0, i as int))));
        }
        assert(bind_frame(names_of(names@).subrange(0, i as int), terms_of(values@).subrange(0, i as int))
            =~= bind_frame(names_of(names@), terms_of(values@)));
        child_scope
    }
}

} // verus!
