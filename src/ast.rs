//! Expression trees, their mathematical model, and the error type.
use vstd::prelude::*;
use vstd::string::StringExecFns;

verus! {

/// How many arguments a callable accepts.
#[derive(Clone, Copy, Debug, PartialEq, Eq, Structural)]
pub enum Arity {
    Fixed(usize),
    Variadic,
}

/// The built-in special forms, each with its own evaluation and capture rule.
#[derive(Clone, Copy, Debug, PartialEq, Eq, Structural)]
pub enum SpecialKind {
    Quote,
    If,
    DefVar,
    Define,
    Lambda,
}

/// The native operations behind built-in functions.
#[derive(Clone, Copy, Debug, PartialEq, Eq, Structural)]
pub enum BuiltinOp {
    Identity,
    Len,
    First,
    Rest,
    Concat,
    Record,
    Add,
    Range,
    Negate,
}

/// Literal values. A float is held as the decimal text of its literal.
#[derive(Clone, Debug, PartialEq)]
pub enum Value {
    Str(String),
    Char(char),
    Int(isize),
    Bytes(Vec<u8>),
    Float(String),
    Bool(bool),
    Nil,
}

/// A callable whose arguments are passed unevaluated, together with the live scope.
#[derive(Clone, Debug, PartialEq)]
pub struct SpecialForm {
    pub name: String,
    pub arity: Arity,
    pub kind: SpecialKind,
}

/// A callable whose arguments are evaluated before the call.
#[derive(Debug, PartialEq)]
pub struct Function {
    pub name: String,
    pub arity: Arity,
    pub arguments: Vec<String>,
    pub form: CallForm,
}

/// What a function does when called.
#[derive(Debug, PartialEq)]
pub enum CallForm {
    /// A user lambda: its body and the flat scope captured when it was created.
    Lambda { sexpr: Vec<Expr>, scope: Scope },
    Builtin(BuiltinOp),
}

/// Expressions: both the syntax tree and the runtime values.
#[derive(Debug, PartialEq)]
pub enum Expr {
    SExpr(Vec<Expr>),
    Function(Function),
    Special(SpecialForm),
    Symbol(String),
    Value(Value),
    Record(Vec<(String, Expr)>),
    Keyword(String),
}

/// A chain of binding tables, innermost last. A later binding of a name in one
/// table hides an earlier one.
#[derive(Debug, PartialEq)]
pub struct Scope {
    pub frames: Vec<Vec<(String, Expr)>>,
}

/// Errors of evaluation.
#[derive(Clone, Debug, PartialEq)]
pub enum EvalError {
    Syntax { expected: String, actual: String },
    Type { expected: String, actual: String },
    LookupError(String),
    NotCallable(String),
    Arity { name: String, arity: usize, num_args_provided: usize },
    /// Evaluation nested deeper than the evaluator allows.
    DepthExceeded,
}

/// Model of a literal value.
pub enum Lit {
    Str(Seq<char>),
    Char(char),
    Int(int),
    Bytes(Seq<u8>),
    Float(Seq<char>),
    Bool(bool),
    Nil,
}

/// Model of an expression.
pub enum Term {
    List(Seq<Term>),
    Func { name: Seq<char>, arity: Arity, params: Seq<Seq<char>>, form: Form },
    Special { name: Seq<char>, arity: Arity, kind: SpecialKind },
    Symbol(Seq<char>),
    Lit(Lit),
    Record(Seq<(Seq<char>, Term)>),
    Keyword(Seq<char>),
}

/// Model of a call form.
pub enum Form {
    Builtin(BuiltinOp),
    Lambda(Seq<Term>, Seq<Seq<(Seq<char>, Term)>>),
}

/// Model of one binding table.
pub type Frame = Seq<(Seq<char>, Term)>;

/// Model of a scope: its binding tables, innermost last.
pub type Env = Seq<Frame>;

/// Model of an evaluation error.
pub enum Fault {
    Syntax { expected: Seq<char>, actual: Seq<char> },
    Type { expected: Seq<char>, actual: Seq<char> },
    Lookup(Seq<char>),
    NotCallable(Seq<char>),
    Arity { name: Seq<char>, arity: nat, num_args: nat },
    DepthExceeded,
}

impl View for Value {
    type V = Lit;

    open spec fn view(&self) -> Lit {
        match *self {
            Value::Str(s) => Lit::Str(s@),
            Value::Char(c) => Lit::Char(c),
            Value::Int(n) => Lit::Int(n as int),
            Value::Bytes(b) => Lit::Bytes(b@),
            Value::Float(s) => Lit::Float(s@),
            Value::Bool(b) => Lit::Bool(b),
            Value::Nil => Lit::Nil,
        }
    }
}

pub open spec fn term_of(e: Expr) -> Term
    decreases e,
{
    match e {
        Expr::SExpr(v) => Term::List(
            Seq::new(
                v@.len(),
                |i: int|
                    if 0 <= i < v@.len() {
                        term_of(v@[i])
                    } else {
                        Term::List(seq![])
                    },
            ),
        ),
        Expr::Function(f) => Term::Func {
            name: f.name@,
            arity: f.arity,
            params: Seq::new(f.arguments@.len(), |i: int| f.arguments@[i]@),
            form: match f.form {
                CallForm::Builtin(op) => Form::Builtin(op),
                CallForm::Lambda { sexpr, scope } => Form::Lambda(
                    Seq::new(
                        sexpr@.len(),
                        |i: int|
                            if 0 <= i < sexpr@.len() {
                                term_of(sexpr@[i])
                            } else {
                                Term::List(seq![])
                            },
                    ),
                    Seq::new(
                        scope.frames@.len(),
                        |i: int|
                            if 0 <= i < scope.frames@.len() {
                                Seq::new(
                                    scope.frames@[i]@.len(),
                                    |j: int|
                                        if 0 <= j < scope.frames@[i]@.len() {
                                            (
                                                scope.frames@[i]@[j].0@,
                                                term_of(scope.frames@[i]@[j].1),
                                            )
                                        } else {
                                            (seq![], Term::List(seq![]))
                                        },
                                )
                            } else {
                                seq![]
                            },
                    ),
                ),
            },
        },
        Expr::Special(s) => Term::Special { name: s.name@, arity: s.arity, kind: s.kind },
        Expr::Symbol(s) => Term::Symbol(s@),
        Expr::Value(v) => Term::Lit(v@),
        Expr::Record(t) => Term::Record(
            Seq::new(
                t@.len(),
                |j: int|
                    if 0 <= j < t@.len() {
                        (t@[j].0@, term_of(t@[j].1))
                    } else {
                        (seq![], Term::List(seq![]))
                    },
            ),
        ),
        Expr::Keyword(s) => Term::Keyword(s@),
    }
}

impl View for Expr {
    type V = Term;

    open spec fn view(&self) -> Term {
        term_of(*self)
    }
}

/// The models of a sequence of expressions.
pub open spec fn terms_of(v: Seq<Expr>) -> Seq<Term> {
    Seq::new(v.len(), |i: int| v[i]@)
}

/// The model of a binding table.
pub open spec fn frame_of(t: Seq<(String, Expr)>) -> Frame {
    Seq::new(t.len(), |j: int| (t[j].0@, t[j].1@))
}

/// The names of a parameter list.
pub open spec fn names_of(v: Seq<String>) -> Seq<Seq<char>> {
    Seq::new(v.len(), |i: int| v[i]@)
}

impl View for Scope {
    type V = Env;

    open spec fn view(&self) -> Env {
        Seq::new(self.frames@.len(), |i: int| frame_of(self.frames@[i]@))
    }
}

impl View for EvalError {
    type V = Fault;

    open spec fn view(&self) -> Fault {
        match *self {
            EvalError::Syntax { expected, actual } => Fault::Syntax {
                expected: expected@,
                actual: actual@,
            },
            EvalError::Type { expected, actual } => Fault::Type {
                expected: expected@,
                actual: actual@,
            },
            EvalError::LookupError(n) => Fault::Lookup(n@),
            EvalError::NotCallable(t) => Fault::NotCallable(t@),
            EvalError::Arity { name, arity, num_args_provided } => Fault::Arity {
                name: name@,
                arity: arity as nat,
                num_args: num_args_provided as nat,
            },
            EvalError::DepthExceeded => Fault::DepthExceeded,
        }
    }
}

/// The model of an evaluation outcome.
pub open spec fn outcome_of(r: Result<Expr, EvalError>) -> Result<Term, Fault> {
    match r {
        Ok(e) => Ok(e@),
        Err(x) => Err(x@),
    }
}

/// Unfolds the model of an s-expression.
pub proof fn lemma_list_view(v: Vec<Expr>)
    ensures
        Expr::SExpr(v)@ == Term::List(terms_of(v@)),
{
    assert(Expr::SExpr(v)@->List_0 =~= terms_of(v@));
}

/// Unfolds the model of a record.
pub proof fn lemma_record_view(t: Vec<(String, Expr)>)
    ensures
        Expr::Record(t)@ == Term::Record(frame_of(t@)),
{
    assert(Expr::Record(t)@->Record_0 =~= frame_of(t@));
}

/// Unfolds the model of a lambda.
pub proof fn lemma_lambda_view(f: Function, sexpr: Vec<Expr>, scope: Scope)
    requires
        f.form == (CallForm::Lambda { sexpr, scope }),
    ensures
        Expr::Function(f)@ == (Term::Func {
            name: f.name@,
            arity: f.arity,
            params: names_of(f.arguments@),
            form: Form::Lambda(terms_of(sexpr@), scope@),
        }),
{
    let t = Expr::Function(f)@;
    assert(t->params =~= names_of(f.arguments@));
    assert(t->form->Lambda_0 =~= terms_of(sexpr@));
    assert forall|i: int| 0 <= i < scope.frames@.len() implies t->form->Lambda_1[i]
        =~= scope@[i] by {}
    assert(t->form->Lambda_1 =~= scope@);
}

/// Unfolds the model of a built-in function.
pub proof fn lemma_builtin_view(f: Function, op: BuiltinOp)
    requires
        f.form == CallForm::Builtin(op),
    ensures
        Expr::Function(f)@ == (Term::Func {
            name: f.name@,
            arity: f.arity,
            params: names_of(f.arguments@),
            form: Form::Builtin(op),
        }),
{
    assert(Expr::Function(f)@->params =~= names_of(f.arguments@));
}


/// Relies on `String::push`: appends one character.
#[verifier::external_body]
pub(crate) fn push_char(s: &mut String, c: char)
    ensures
        final(s)@ == old(s)@.push(c),
{
    s.push(c)
}

/// The type name reported in diagnostics.
pub open spec fn kind_name(t: Term) -> Seq<char> {
    match t {
        Term::List(_) => "S-expression"@,
        Term::Symbol(_) => "Symbol"@,
        Term::Lit(_) => "Value"@,
        Term::Keyword(_) => "Keyword"@,
        Term::Func { .. } => "Function"@,
        Term::Special { .. } => "SpecialForm"@,
        Term::Record(_) => "Record"@,
    }
}

/// The error of a structural expectation that was not met.
pub open spec fn syntax_fault(expected: Seq<char>, t: Term) -> Fault {
    Fault::Syntax { expected, actual: kind_name(t) }
}

/// Decimal digits of a natural number.
pub open spec fn decimal(n: nat) -> Seq<char>
    decreases n,
{
    if n < 10 {
        seq![digit_char(n)]
    } else {
        decimal(n / 10).push(digit_char(n % 10))
    }
}

pub open spec fn digit_char(d: nat) -> char {
    if d < 10 {
        (('0' as u8) + d as u8) as char
    } else {
        '?'
    }
}

fn digit_text(d: usize) -> (r: &'static str)
    requires
        d < 10,
    ensures
        r@ == seq![digit_char(d as nat)],
{
    proof {
        reveal_strlit("0");
        reveal_strlit("1");
        reveal_strlit("2");
        reveal_strlit("3");
        reveal_strlit("4");
        reveal_strlit("5");
        reveal_strlit("6");
        reveal_strlit("7");
        reveal_strlit("8");
        reveal_strlit("9");
    }
    let r = match d {
        0 => "0",
        1 => "1",
        2 => "2",
        3 => "3",
        4 => "4",
        5 => "5",
        6 => "6",
        7 => "7",
        8 => "8",
        _ => "9",
    };
    assert(r@ =~= seq![digit_char(d as nat)]);
    r
}

/// Writes a number in decimal.
pub fn decimal_string(n: usize) -> (r: String)
    ensures
        r@ == decimal(n as nat),
    decreases n,
{
    if n < 10 {
        String::from_str(digit_text(n))
    } else {
        let head = decimal_string(n / 10);
        let r = head.concat(digit_text(n % 10));
        assert(r@ =~= decimal(n as nat));
        r
    }
}

impl Value {
    /// This value as an expression.
    pub fn expr(self) -> (r: Expr)
        ensures
            r@ == Term::Lit(self@),
    {
        Expr::Value(self)
    }

    /// A copy of this value.
    pub fn duplicate(&self) -> (r: Value)
        ensures
            r@ == self@,
    {
        match self {
            Value::Str(s) => Value::Str(s.clone()),
            Value::Char(c) => Value::Char(*c),
            Value::Int(n) => Value::Int(*n),
            Value::Bytes(b) => {
                let mut out: Vec<u8> = Vec::new();
                let mut i: usize = 0;
                while i < b.len()
                    invariant
                        i <= b@.len(),
                        out@ == b@.subrange(0, i as int),
                    decreases b@.len() - i,
                {
                    out.push(b[i]);
                    i = i + 1;
                    assert(out@ =~= b@.subrange(0, i as int));
                }
                assert(out@ =~= b@);
                Value::Bytes(out)
            },
            Value::Float(s) => Value::Float(s.clone()),
            Value::Bool(b) => Value::Bool(*b),
            Value::Nil => Value::Nil,
        }
    }
}

/// Copies of a sequence of expressions.
pub fn duplicate_all(v: &Vec<Expr>) -> (w: Vec<Expr>)
    ensures
        terms_of(w@) == terms_of(v@),
    decreases v,
{
    let mut w: Vec<Expr> = Vec::new();
    let mut i: usize = 0;
    while i < v.len()
        invariant
            i <= v@.len(),
            w@.len() == i,
            forall|j: int| 0 <= j < i ==> (#[trigger] w@[j])@ == v@[j]@,
        decreases v@.len() - i,
    {
        let e = v[i].duplicate();
        w.push(e);
        i = i + 1;
    }
    assert(terms_of(w@) =~= terms_of(v@));
    w
}

/// Copies of `v[start..]`.
pub fn duplicate_from(v: &Vec<Expr>, start: usize) -> (w: Vec<Expr>)
    requires
        start <= v@.len(),
    ensures
        terms_of(w@) == terms_of(v@).subrange(start as int, v@.len() as int),
{
    let mut w: Vec<Expr> = Vec::new();
    let mut i: usize = start;
    while i < v.len()
        invariant
            start <= i <= v@.len(),
            w@.len() == i - start,
            forall|j: int| 0 <= j < i - start ==> (#[trigger] w@[j])@ == v@[j + start]@,
        decreases v@.len() - i,
    {
        let e = v[i].duplicate();
        w.push(e);
        i = i + 1;
    }
    assert(terms_of(w@) =~= terms_of(v@).subrange(start as int, v@.len() as int));
    w
}

/// Copies of a binding table.
pub fn duplicate_frame(t: &Vec<(String, Expr)>) -> (w: Vec<(String, Expr)>)
    ensures
        frame_of(w@) == frame_of(t@),
    decreases t,
{
    let mut w: Vec<(String, Expr)> = Vec::new();
    let mut i: usize = 0;
    while i < t.len()
        invariant
            i <= t@.len(),
            w@.len() == i,
            forall|j: int|
                0 <= j < i ==> (#[trigger] w@[j]).0@ == t@[j].0@ && w@[j].1@ == t@[j].1@,
        decreases t@.len() - i,
    {
        let name = t[i].0.clone();
        let e = t[i].1.duplicate();
        w.push((name, e));
        i = i + 1;
    }
    assert(frame_of(w@) =~= frame_of(t@));
    w
}

/// Copies of a list of names.
pub fn duplicate_names(v: &Vec<String>) -> (w: Vec<String>)
    ensures
        names_of(w@) == names_of(v@),
{
    let mut w: Vec<String> = Vec::new();
    let mut i: usize = 0;
    while i < v.len()
        invariant
            i <= v@.len(),
            w@.len() == i,
            forall|j: int| 0 <= j < i ==> (#[trigger] w@[j])@ == v@[j]@,
        decreases v@.len() - i,
    {
        w.push(v[i].clone());
        i = i + 1;
    }
    assert(names_of(w@) =~= names_of(v@));
    w
}

impl Scope {
    /// A copy of this scope, binding for binding.
    pub fn duplicate(&self) -> (r: Scope)
        ensures
            r@ == self@,
        decreases self,
    {
        let mut frames: Vec<Vec<(String, Expr)>> = Vec::new();
        let mut i: usize = 0;
        while i < self.frames.len()
            invariant
                i <= self.frames@.len(),
                frames@.len() == i,
                forall|j: int|
                    0 <= j < i ==> frame_of((#[trigger] frames@[j])@) == frame_of(self.frames@[j]@),
            decreases self.frames@.len() - i,
        {
            let f = duplicate_frame(&self.frames[i]);
            frames.push(f);
            i = i + 1;
        }
        let r = Scope { frames };
        assert(r@ =~= self@);
        r
    }
}

impl SpecialForm {
    /// A copy of this special form.
    pub fn duplicate(&self) -> (r: SpecialForm)
        ensures
            r.name@ == self.name@,
            r.arity == self.arity,
            r.kind == self.kind,
            Expr::Special(r)@ == Expr::Special(*self)@,
    {
        SpecialForm { name: self.name.clone(), arity: self.arity, kind: self.kind }
    }
}

impl Function {
    /// A copy of this function, with a copy of its captured scope.
    pub fn duplicate(&self) -> (r: Function)
        ensures
            Expr::Function(r)@ == Expr::Function(*self)@,
        decreases self,
    {
        let name = self.name.clone();
        let arguments = duplicate_names(&self.arguments);
        match &self.form {
            CallForm::Builtin(op) => {
                let r = Function { name, arity: self.arity, arguments, form: CallForm::Builtin(*op) };
                proof {
                    lemma_builtin_view(r, *op);
                    lemma_builtin_view(*self, *op);
                }
                r
            },
            CallForm::Lambda { sexpr, scope } => {
                let body = duplicate_all(sexpr);
                let captured = scope.duplicate();
                let r = Function {
                    name,
                    arity: self.arity,
                    arguments,
                    form: CallForm::Lambda { sexpr: body, scope: captured },
                };
                proof {
                    lemma_lambda_view(r, body, captured);
                    lemma_lambda_view(*self, *sexpr, *scope);
                }
                r
            },
        }
    }
}

impl Expr {
    /// The empty s-expression, the unit value.
    pub fn empty() -> (r: Expr)
        ensures
            r@ == Term::List(seq![]),
    {
        let v: Vec<Expr> = Vec::new();
        let r = Expr::SExpr(v);
        proof {
            lemma_list_view(v);
        }
        assert(r@->List_0 =~= seq![]);
        r
    }

    /// A copy of this expression.
    pub fn duplicate(&self) -> (r: Expr)
        ensures
            r@ == self@,
        decreases self,
    {
        match self {
            Expr::SExpr(v) => {
                let w = duplicate_all(v);
                proof {
                    lemma_list_view(*v);
                    lemma_list_view(w);
                }
                Expr::SExpr(w)
            },
            Expr::Function(f) => Expr::Function(f.duplicate()),
            Expr::Special(s) => Expr::Special(
                SpecialForm { name: s.name.clone(), arity: s.arity, kind: s.kind },
            ),
            Expr::Symbol(n) => Expr::Symbol(n.clone()),
            Expr::Value(v) => Expr::Value(v.duplicate()),
            Expr::Record(t) => {
                let w = duplicate_frame(t);
                proof {
                    lemma_record_view(*t);
                    lemma_record_view(w);
                }
                Expr::Record(w)
            },
            Expr::Keyword(k) => Expr::Keyword(k.clone()),
        }
    }

    /// The name of this expression's type, for diagnostics.
    pub fn type_str(&self) -> (r: &'static str)
        ensures
            r@ == kind_name(self@),
    {
        match self {
            Expr::SExpr(_) => "S-expression",
            Expr::Symbol(_) => "Symbol",
            Expr::Value(_) => "Value",
            Expr::Keyword(_) => "Keyword",
            Expr::Function(_) => "Function",
            Expr::Special(_) => "SpecialForm",
            Expr::Record(_) => "Record",
        }
    }

    /// The error for this expression where `expected` was wanted.
    pub fn mismatch(&self, expected: &str) -> (r: EvalError)
        ensures
            r@ == syntax_fault(expected@, self@),
    {
        EvalError::Syntax {
            expected: String::from_str(expected),
            actual: String::from_str(self.type_str()),
        }
    }

    pub fn expect_symbol(&self) -> (r: Result<&str, EvalError>)
        ensures
            match self@ {
                Term::Symbol(n) => r is Ok && r->Ok_0@ == n,
                t => r is Err && r->Err_0@ == syntax_fault("Symbol"@, t),
            },
    {
        if let Expr::Symbol(name) = self {
            Ok(name.as_str())
        } else {
            Err(self.mismatch("Symbol"))
        }
    }

    pub fn expect_keyword(&self) -> (r: Result<&str, EvalError>)
        ensures
            match self@ {
                Term::Keyword(n) => r is Ok && r->Ok_0@ == n,
                t => r is Err && r->Err_0@ == syntax_fault("Keyword"@, t),
            },
    {
        if let Expr::Keyword(name) = self {
            Ok(name.as_str())
        } else {
            Err(self.mismatch("Keyword"))
        }
    }

    pub fn expect_fn(&self) -> (r: Result<&Function, EvalError>)
        ensures
            match self@ {
                Term::Func { .. } => r is Ok && Expr::Function(*r->Ok_0)@ == self@,
                t => r is Err && r->Err_0@ == syntax_fault("Function"@, t),
            },
    {
        match self {
            Expr::Function(f) => Ok(f),
            _ => Err(self.mismatch("Function")),
        }
    }

    pub fn expect_sexp(&self) -> (r: Result<&Vec<Expr>, EvalError>)
        ensures
            match self@ {
                Term::List(items) => r is Ok && terms_of(r->Ok_0@) == items,
                t => r is Err && r->Err_0@ == syntax_fault("S-expression"@, t),
            },
    {
        match self {
            Expr::SExpr(v) => {
                proof {
                    lemma_list_view(*v);
                }
                Ok(v)
            },
            _ => Err(self.mismatch("S-expression")),
        }
    }

    pub fn expect_sexp_with_len(&self, len: usize) -> (r: Result<&Vec<Expr>, EvalError>)
        ensures
            match self@ {
                Term::List(items) => if items.len() == len {
                    r is Ok && terms_of(r->Ok_0@) == items
                } else {
                    r is Err && r->Err_0@ == (Fault::Syntax {
                        expected: "S-expression w/ length "@ + decimal(len as nat),
                        actual: "Length "@ + decimal(items.len()),
                    })
                },
                t => r is Err && r->Err_0@ == syntax_fault("S-expression"@, t),
            },
    {
        let sexp = self.expect_sexp()?;
        let actual_len = sexp.len();
        if actual_len != len {
            Err(
                EvalError::Syntax {
                    expected: String::from_str("S-expression w/ length ").concat(
                        decimal_string(len).as_str(),
                    ),
                    actual: String::from_str("Length ").concat(
                        decimal_string(actual_len).as_str(),
                    ),
                },
            )
        } else {
            Ok(sexp)
        }
    }

    pub fn expect_special(&self) -> (r: Result<&SpecialForm, EvalError>)
        ensures
            match self@ {
                Term::Special { .. } => r is Ok && Expr::Special(*r->Ok_0)@ == self@,
                t => r is Err && r->Err_0@ == syntax_fault("Special"@, t),
            },
    {
        match self {
            Expr::Special(s) => Ok(s),
            _ => Err(self.mismatch("Special")),
        }
    }
}

} // verus!
