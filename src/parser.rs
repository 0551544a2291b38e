//! Reading a token stream into an s-expression.
//!
//! The reader keeps an explicit stack of the lists being built, so nesting
//! depth is bounded by memory rather than by the call stack.
use vstd::prelude::*;
use vstd::string::StringExecFns;
use crate::ast::{Expr, Lit, Term, Value, terms_of};
use crate::token_handlers::{ParseError, parse_outcome, parse_token, token_term};
use crate::tokenizer::{Tok, Token, tokenize, tokens_of_text, toks_of};

verus! {

/// The reader's state: the lists being built (innermost last), the root once
/// it is closed, whether a dash waits for the number it negates, and the first
/// error.
pub struct Reader {
    pub stack: Seq<Seq<Term>>,
    pub done: Option<Seq<Term>>,
    pub dash: bool,
    pub err: Option<ParseError>,
}

/// Negation of a parsed number.
pub open spec fn negated(t: Result<Term, ParseError>) -> Result<Term, ParseError> {
    match t {
        Ok(Term::Lit(Lit::Int(n))) => if n > isize::MIN {
            Ok(Term::Lit(Lit::Int(-n)))
        } else {
            Err(ParseError::CannotNegate)
        },
        Ok(Term::Lit(Lit::Float(x))) => Ok(Term::Lit(Lit::Float(seq!['-'] + x))),
        Ok(_) => Err(ParseError::CannotNegate),
        Err(e) => Err(e),
    }
}

/// Appends an item to the innermost list, or records its error.
pub open spec fn push_item(st: Reader, item: Result<Term, ParseError>) -> Reader {
    match item {
        Err(e) => Reader { err: Some(e), ..st },
        Ok(t) => Reader {
            stack: st.stack.update(st.stack.len() - 1, st.stack.last().push(t)),
            ..st
        },
    }
}

/// One token.
pub open spec fn read_step(st: Reader, t: Tok) -> Reader {
    if st.err is Some {
        st
    } else if st.done is Some {
        Reader { err: Some(ParseError::TrailingTokens), ..st }
    } else if st.dash {
        push_item(Reader { dash: false, ..st }, negated(token_term(t)))
    } else {
        match t {
            Tok::ParenEnd => {
                let top = st.stack.last();
                let rest = st.stack.drop_last();
                if rest.len() == 0 {
                    Reader { stack: rest, done: Some(top), ..st }
                } else {
                    Reader {
                        stack: rest.update(rest.len() - 1, rest.last().push(Term::List(top))),
                        ..st
                    }
                }
            },
            Tok::ParenStart => Reader { stack: st.stack.push(seq![]), ..st },
            Tok::Dash => Reader { dash: true, ..st },
            _ => push_item(st, token_term(t)),
        }
    }
}

/// The state after the tokens that follow the opening parenthesis.
pub open spec fn read_run(ts: Seq<Tok>) -> Reader
    decreases ts.len(),
{
    if ts.len() == 0 {
        Reader { stack: seq![seq![]], done: None, dash: false, err: None }
    } else {
        read_step(read_run(ts.drop_last()), ts.last())
    }
}

/// The s-expression that a token stream denotes: it must open with a
/// parenthesis and end exactly where that parenthesis closes.
pub open spec fn parse_spec(ts: Seq<Tok>) -> Result<Seq<Term>, ParseError> {
    if ts.len() == 0 {
        Err(ParseError::NoTokens)
    } else if !(ts[0] is ParenStart) {
        Err(ParseError::MissingOpenParen)
    } else {
        let st = read_run(ts.drop_first());
        match st.err {
            Some(e) => Err(e),
            None => match st.done {
                Some(items) => Ok(items),
                None => if st.dash {
                    Err(ParseError::DanglingDash)
                } else {
                    Err(ParseError::Unclosed)
                },
            },
        }
    }
}

pub open spec fn parse_result(r: Result<Vec<Expr>, ParseError>) -> Result<Seq<Term>, ParseError> {
    match r {
        Ok(v) => Ok(terms_of(v@)),
        Err(e) => Err(e),
    }
}

pub open spec fn stack_of(s: Seq<Vec<Expr>>) -> Seq<Seq<Term>> {
    Seq::new(s.len(), |k: int| terms_of(s[k]@))
}

pub open spec fn done_of(d: Option<Vec<Expr>>) -> Option<Seq<Term>> {
    match d {
        Some(v) => Some(terms_of(v@)),
        None => None,
    }
}

proof fn lemma_stack_nonempty(ts: Seq<Tok>)
    ensures
        read_run(ts).err is None && read_run(ts).done is None ==> read_run(ts).stack.len() >= 1,
        read_run(ts).done is Some ==> read_run(ts).stack.len() == 0,
    decreases ts.len(),
{
    if ts.len() > 0 {
        lemma_stack_nonempty(ts.drop_last());
    }
}

/// Negates a parsed number: an integer, or a float held as text.
pub fn try_negate(expr: Expr) -> (r: Result<Expr, ParseError>)
    ensures
        parse_outcome(r) == negated(Ok(expr@)),
{
    match expr {
        Expr::Value(Value::Int(n)) => if n > isize::MIN {
            Ok(Expr::Value(Value::Int(-n)))
        } else {
            Err(ParseError::CannotNegate)
        },
        Expr::Value(Value::Float(x)) => {
            proof {
                reveal_strlit("-");
                assert("-"@ =~= seq!['-']);
            }
            Ok(Expr::Value(Value::Float(String::from_str("-").concat(x.as_str()))))
        },
        _ => Err(ParseError::CannotNegate),
    }
}

fn push_top(stack: &mut Vec<Vec<Expr>>, e: Expr)
    requires
        old(stack)@.len() >= 1,
    ensures
        stack_of(final(stack)@) == stack_of(old(stack)@).update(
            old(stack)@.len() - 1,
            stack_of(old(stack)@).last().push(e@),
        ),
{
    let mut top = stack.pop().unwrap();
    let ghost t0 = top@;
    top.push(e);
    stack.push(top);
    assert(terms_of(top@) =~= terms_of(t0).push(e@));
    assert(stack_of(stack@) =~= stack_of(old(stack)@).update(
        old(stack)@.len() - 1,
        stack_of(old(stack)@).last().push(e@),
    ));
}

/// Reads tokens into the s-expression that the first parenthesis opens.
pub fn parse_tokens(tokens: &Vec<Token>) -> (r: Result<Vec<Expr>, ParseError>)
    ensures
        parse_result(r) == parse_spec(toks_of(tokens@)),
{
    let ghost ts = toks_of(tokens@);
    if tokens.len() == 0 {
        return Err(ParseError::NoTokens);
    }
    match &tokens[0] {
        Token::ParenStart => {},
        _ => {
            return Err(ParseError::MissingOpenParen);
        },
    }
    let ghost rest = ts.drop_first();
    let mut stack: Vec<Vec<Expr>> = Vec::new();
    let first: Vec<Expr> = Vec::new();
    assert(terms_of(first@) =~= seq![]);
    stack.push(first);
    let mut done: Option<Vec<Expr>> = None;
    let mut dash = false;
    let mut err: Option<ParseError> = None;
    let mut i: usize = 1;
    assert(stack_of(stack@) =~= seq![seq![]]);
    assert(rest.subrange(0, 0) =~= Seq::<Tok>::empty());
    while i < tokens.len()
        invariant
            1 <= i <= tokens@.len(),
            ts == toks_of(tokens@),
            rest == ts.drop_first(),
            read_run(rest.subrange(0, i - 1)) == (Reader {
                stack: stack_of(stack@),
                done: done_of(done),
                dash,
                err,
            }),
        decreases tokens@.len() - i,
    {
        let ghost st = read_run(rest.subrange(0, i - 1));
        let ghost t = ts[i as int];
        proof {
            assert(rest.subrange(0, i as int).drop_last() =~= rest.subrange(0, i - 1));
            assert(rest.subrange(0, i as int).last() == t);
            lemma_stack_nonempty(rest.subrange(0, i - 1));
        }
        let token = &tokens[i];
        if err.is_some() {
        } else if done.is_some() {
            err = Some(ParseError::TrailingTokens);
        } else if dash {
            dash = false;
            let item = match parse_token(token) {
                Ok(e) => try_negate(e),
                Err(x) => Err(x),
            };
            match item {
                Ok(e) => push_top(&mut stack, e),
                Err(x) => {
                    err = Some(x);
                },
            }
        } else {
            match token {
                Token::ParenEnd => {
                    let top = stack.pop().unwrap();
                    if stack.len() == 0 {
                        done = Some(top);
                        assert(stack_of(stack@) =~= st.stack.drop_last());
                    } else {
                        let ghost mid = stack@;
                        let e = Expr::SExpr(top);
                        proof {
                            crate::ast::lemma_list_view(top);
                        }
                        push_top(&mut stack, e);
                        assert(stack_of(mid) =~= st.stack.drop_last());
                    }
                },
                Token::ParenStart => {
                    let ghost before = stack@;
                    let fresh: Vec<Expr> = Vec::new();
                    assert(terms_of(fresh@) =~= seq![]);
                    stack.push(fresh);
                    assert(stack_of(stack@) =~= stack_of(before).push(seq![]));
                },
                Token::Dash => {
                    dash = true;
                },
                _ => match parse_token(token) {
                    Ok(e) => push_top(&mut stack, e),
                    Err(x) => {
                        err = Some(x);
                    },
                },
            }
        }
        i = i + 1;
    }
    assert(rest.subrange(0, tokens@.len() - 1) =~= rest);
    match err {
        Some(e) => Err(e),
        None => match done {
            Some(items) => Ok(items),
            None => if dash {
                Err(ParseError::DanglingDash)
            } else {
                Err(ParseError::Unclosed)
            },
        },
    }
}

/// Reads text into an s-expression.
pub fn parse_text(s: &str) -> (r: Result<Vec<Expr>, ParseError>)
    ensures
        parse_result(r) == parse_spec(tokens_of_text(s@)),
{
    let tokens = tokenize(s);
    parse_tokens(&tokens)
}

} // verus!
