//! How expressions are written out for people.
use vstd::prelude::*;
use vstd::string::StringExecFns;
use crate::ast::{
    Arity, CallForm, Expr, Form, Function, Lit, Term, Value, decimal, decimal_string, push_char,
    terms_of,
};

verus! {

/// An integer in decimal, with a leading `-` when negative.
pub open spec fn int_text(n: int) -> Seq<char> {
    if n < 0 {
        seq!['-'] + decimal((-n) as nat)
    } else {
        decimal(n as nat)
    }
}

/// How a literal is shown. Byte strings are not shown.
pub open spec fn show_lit(l: Lit) -> Seq<char> {
    match l {
        Lit::Str(s) => s,
        Lit::Char(c) => seq![c],
        Lit::Int(n) => int_text(n),
        Lit::Bytes(_) => "not implemented"@,
        Lit::Float(s) => s,
        Lit::Bool(b) => if b {
            "true"@
        } else {
            "false"@
        },
        Lit::Nil => "Nil"@,
    }
}

/// `n` underscores joined by commas.
pub open spec fn placeholders(n: nat) -> Seq<char>
    decreases n,
{
    if n == 0 {
        seq![]
    } else if n == 1 {
        seq!['_']
    } else {
        placeholders((n - 1) as nat) + seq![',', '_']
    }
}

/// How an arity is shown: one placeholder per argument, or `(...)`.
pub open spec fn arity_text(a: Arity) -> Seq<char> {
    match a {
        Arity::Fixed(n) => seq!['('] + placeholders(n as nat) + seq![')'],
        Arity::Variadic => seq!['(', '.', '.', '.', ')'],
    }
}

/// Names joined by commas.
pub open spec fn join_names(ns: Seq<Seq<char>>) -> Seq<char>
    decreases ns.len(),
{
    if ns.len() == 0 {
        seq![]
    } else if ns.len() == 1 {
        ns[0]
    } else {
        ns[0] + seq![','] + join_names(ns.drop_first())
    }
}

/// How an expression is shown: `( a b )` for an s-expression, `#Symbol[x]`
/// for a symbol, `λ name[a,b]` for a lambda, `#special[name]` for a special
/// form, and one `:key->value` line per record entry.
pub open spec fn show(t: Term) -> Seq<char>
    decreases t, 1nat,
{
    match t {
        Term::List(items) => "( "@ + show_items(items) + " )"@,
        Term::Symbol(n) => "#Symbol["@ + n + "]"@,
        Term::Keyword(k) => ":"@ + k,
        Term::Lit(l) => show_lit(l),
        Term::Func { name, params, form, .. } => (match form {
            Form::Lambda(..) => "λ"@,
            Form::Builtin(_) => "builtin"@,
        }) + " "@ + name + "["@ + join_names(params) + "]"@,
        Term::Special { name, .. } => "#special["@ + name + "]"@,
        Term::Record(pairs) => "{\n"@ + show_pairs(pairs) + "\n}"@,
    }
}

/// Expressions shown and joined by spaces.
pub open spec fn show_items(items: Seq<Term>) -> Seq<char>
    decreases items, 0nat,
{
    if items.len() == 0 {
        seq![]
    } else if items.len() == 1 {
        show(items[0])
    } else {
        show(items[0]) + " "@ + show_items(items.drop_first())
    }
}

/// Record entries shown as `  :key->value` and joined by `, `.
pub open spec fn show_pairs(pairs: Seq<(Seq<char>, Term)>) -> Seq<char>
    decreases pairs, 0nat,
{
    if pairs.len() == 0 {
        seq![]
    } else {
        let head = "  :"@ + pairs[0].0 + "->"@ + show(pairs[0].1);
        if pairs.len() == 1 {
            head
        } else {
            head + ", "@ + show_pairs(pairs.drop_first())
        }
    }
}

/// Writes an integer in decimal.
pub fn int_string(n: isize) -> (r: String)
    ensures
        r@ == int_text(n as int),
{
    if n < 0 {
        let m: usize = if n == isize::MIN {
            (isize::MAX as usize) + 1
        } else {
            (-n) as usize
        };
        let digits = decimal_string(m);
        proof {
            reveal_strlit("-");
            assert("-"@ =~= seq!['-']);
        }
        String::from_str("-").concat(digits.as_str())
    } else {
        decimal_string(n as usize)
    }
}

fn join_from(names: &Vec<String>, i: usize) -> (r: String)
    requires
        i <= names@.len(),
    ensures
        r@ == join_names(crate::ast::names_of(names@).subrange(i as int, names@.len() as int)),
    decreases names@.len() - i,
{
    let ghost ns = crate::ast::names_of(names@).subrange(i as int, names@.len() as int);
    if i == names.len() {
        return String::new();
    }
    if i + 1 == names.len() {
        return names[i].clone();
    }
    assert(ns.drop_first() =~= crate::ast::names_of(names@).subrange(i + 1, names@.len() as int));
    let rest = join_from(names, i + 1);
    let mut s = names[i].clone();
    push_char(&mut s, ',');
    let r = s.concat(rest.as_str());
    assert(r@ =~= ns[0] + seq![','] + join_names(ns.drop_first()));
    r
}

impl Value {
    /// The text of a literal.
    pub fn render(&self) -> (r: String)
        ensures
            r@ == show_lit(self@),
    {
        match self {
            Value::Str(s) => s.clone(),
            Value::Char(c) => {
                let mut s = String::new();
                push_char(&mut s, *c);
                assert(s@ =~= seq![*c]);
                s
            },
            Value::Int(n) => int_string(*n),
            Value::Bytes(_) => String::from_str("not implemented"),
            Value::Float(s) => s.clone(),
            Value::Bool(b) => if *b {
                String::from_str("true")
            } else {
                String::from_str("false")
            },
            Value::Nil => String::from_str("Nil"),
        }
    }
}

impl Arity {
    /// `(_,_)` for a fixed arity of two, `(...)` for any number.
    pub fn render(&self) -> (r: String)
        ensures
            r@ == arity_text(*self),
    {
        match self {
            Arity::Fixed(n) => {
                let mut s = String::new();
                push_char(&mut s, '(');
                let mut i: usize = 0;
                assert(s@ =~= seq!['('] + placeholders(0));
                while i < *n
                    invariant
                        i <= *n,
                        s@ == seq!['('] + placeholders(i as nat),
                    decreases *n - i,
                {
                    if i > 0 {
                        push_char(&mut s, ',');
                    }
                    push_char(&mut s, '_');
                    i = i + 1;
                    assert(s@ =~= seq!['('] + placeholders(i as nat));
                }
                push_char(&mut s, ')');
                assert(s@ =~= arity_text(*self));
                s
            },
            Arity::Variadic => {
                proof {
                    reveal_strlit("(...)");
                }
                let s = String::from_str("(...)");
                assert(s@ =~= arity_text(*self));
                s
            },
        }
    }
}

impl Expr {
    /// The text of this expression.
    pub fn render(&self) -> (r: String)
        ensures
            r@ == show(self@),
        decreases self, 1nat, 0nat,
    {
        match self {
            Expr::SExpr(items) => {
                proof {
                    crate::ast::lemma_list_view(*items);
                    assert(terms_of(items@).subrange(0, items@.len() as int) =~= terms_of(items@));
                }
                let inner = render_items(items, 0);
                String::from_str("( ").concat(inner.as_str()).concat(" )")
            },
            Expr::Symbol(n) => String::from_str("#Symbol[").concat(n.as_str()).concat("]"),
            Expr::Keyword(k) => String::from_str(":").concat(k.as_str()),
            Expr::Value(v) => v.render(),
            Expr::Function(f) => render_function(f),
            Expr::Special(s) => String::from_str("#special[").concat(s.name.as_str()).concat("]"),
            Expr::Record(pairs) => {
                proof {
                    crate::ast::lemma_record_view(*pairs);
                    assert(crate::ast::frame_of(pairs@).subrange(0, pairs@.len() as int)
                        =~= crate::ast::frame_of(pairs@));
                }
                let inner = render_pairs(pairs, 0);
                String::from_str("{\n").concat(inner.as_str()).concat("\n}")
            },
        }
    }
}

fn render_function(f: &Function) -> (r: String)
    ensures
        r@ == show(Expr::Function(*f)@),
{
    let kind = match &f.form {
        CallForm::Lambda { sexpr, scope } => {
            proof {
                crate::ast::lemma_lambda_view(*f, *sexpr, *scope);
            }
            "λ"
        },
        CallForm::Builtin(op) => {
            proof {
                crate::ast::lemma_builtin_view(*f, *op);
            }
            "builtin"
        },
    };
    proof {
        assert(crate::ast::names_of(f.arguments@).subrange(0, f.arguments@.len() as int)
            =~= crate::ast::names_of(f.arguments@));
    }
    let args = join_from(&f.arguments, 0);
    String::from_str(kind).concat(" ").concat(f.name.as_str()).concat("[").concat(
        args.as_str(),
    ).concat("]")
}

fn render_items(items: &Vec<Expr>, i: usize) -> (r: String)
    requires
        i <= items@.len(),
    ensures
        r@ == show_items(terms_of(items@).subrange(i as int, items@.len() as int)),
    decreases items, 0nat, items@.len() - i,
{
    let ghost ts = terms_of(items@).subrange(i as int, items@.len() as int);
    if i == items.len() {
        return String::new();
    }
    assert(ts[0] == items@[i as int]@);
    let head = items[i].render();
    if i + 1 == items.len() {
        return head;
    }
    assert(ts.drop_first() =~= terms_of(items@).subrange(i + 1, items@.len() as int));
    let rest = render_items(items, i + 1);
    head.concat(" ").concat(rest.as_str())
}

fn render_pairs(pairs: &Vec<(String, Expr)>, i: usize) -> (r: String)
    requires
        i <= pairs@.len(),
    ensures
        r@ == show_pairs(crate::ast::frame_of(pairs@).subrange(i as int, pairs@.len() as int)),
    decreases pairs, 0nat, pairs@.len() - i,
{
    let ghost ps = crate::ast::frame_of(pairs@).subrange(i as int, pairs@.len() as int);
    if i == pairs.len() {
        return String::new();
    }
    assert(ps[0] == (pairs@[i as int].0@, pairs@[i as int].1@));
    let value = pairs[i].1.render();
    let head = String::from_str("  :").concat(pairs[i].0.as_str()).concat("->").concat(
        value.as_str(),
    );
    if i + 1 == pairs.len() {
        return head;
    }
    assert(ps.drop_first() =~= crate::ast::frame_of(pairs@).subrange(i + 1, pairs@.len() as int));
    let rest = render_pairs(pairs, i + 1);
    head.concat(", ").concat(rest.as_str())
}

} // verus!
