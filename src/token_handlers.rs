//! Turning one token into an expression.
use vstd::prelude::*;
use vstd::string::{StrSliceExecFns, StringExecFns};
use crate::ast::{Expr, Lit, Term, Value};
use crate::tokenizer::{Quote, Tok, Token};

verus! {

/// Why text could not be parsed.
#[derive(Clone, Copy, Debug, PartialEq, Eq, Structural)]
pub enum ParseError {
    NoTokens,
    MissingOpenParen,
    Unclosed,
    TrailingTokens,
    DanglingDash,
    UnhandledToken,
    CannotNegate,
    InvalidCharQuote,
    InvalidQuote,
    InvalidWord,
    UppercaseNil,
}

/// A Rust literal's kind, with its value where this crate reads it.
#[derive(Debug, PartialEq)]
pub enum LiteralKind {
    Bool(bool),
    Integer,
    /// The number part: integer, fraction and exponent, without the suffix.
    Float(String),
    Char(char),
    Str(String),
    Byte,
    Bytes(Vec<u8>),
}

/// What Rust's literal grammar makes of a text: the kind and the suffix.
pub uninterp spec fn rust_literal(s: Seq<char>) -> Option<(LiteralKind, Seq<char>)>;

/// Whether a text is empty or ends in an ASCII character. Rust's literal
/// grammar is only asked about such texts: its reader cuts a string literal's
/// text one byte before the end.
pub open spec fn ends_ascii(s: Seq<char>) -> bool {
    s.len() == 0 || (s.last() as u32) < 128
}

/// Relies on `litrs::Literal::parse`: reads `s` as a Rust literal, giving its
/// kind, its value where noted, and its suffix (`""` when it has none). It
/// slices at `s.len() - 1` bytes while unescaping, so `s` must end in a
/// one-byte character.
#[verifier::external_body]
fn classify_literal(s: &str) -> (r: Option<(LiteralKind, String)>)
    requires
        ends_ascii(s@),
    ensures
        match r {
            Some((k, suffix)) => rust_literal(s@) == Some((k, suffix@)),
            None => rust_literal(s@) is None,
        },
{
    let lit = litrs::Literal::parse(s).ok()?;
    let suffix = lit.suffix().to_string();
    let kind = match lit {
        litrs::Literal::Bool(b) => LiteralKind::Bool(b.value()),
        litrs::Literal::Integer(_) => LiteralKind::Integer,
        litrs::Literal::Float(f) => LiteralKind::Float(f.number_part().to_string()),
        litrs::Literal::Char(c) => LiteralKind::Char(c.value()),
        litrs::Literal::String(t) => LiteralKind::Str(t.value().to_string()),
        litrs::Literal::Byte(_) => LiteralKind::Byte,
        litrs::Literal::ByteString(t) => LiteralKind::Bytes(t.value().to_vec()),
    };
    Some((kind, suffix))
}

pub open spec fn is_digit(c: char) -> bool {
    '0' <= c && c <= '9'
}

/// The value of a string of decimal digits.
pub open spec fn digits_value(ds: Seq<char>) -> int
    decreases ds.len(),
{
    if ds.len() == 0 {
        0
    } else {
        digits_value(ds.drop_last()) * 10 + (ds.last() as int - '0' as int)
    }
}

/// A word of decimal digits whose value fits an `isize`.
pub open spec fn int_of_word(w: Seq<char>) -> Option<int> {
    if w.len() > 0 && (forall|i: int| 0 <= i < w.len() ==> is_digit(#[trigger] w[i]))
        && digits_value(w) <= isize::MAX {
        Some(digits_value(w))
    } else {
        None
    }
}

proof fn lemma_digits_monotone(w: Seq<char>, i: int)
    requires
        0 <= i <= w.len(),
        forall|k: int| 0 <= k < w.len() ==> is_digit(#[trigger] w[k]),
    ensures
        digits_value(w.subrange(0, i)) <= digits_value(w),
        digits_value(w) >= 0,
    decreases w.len(),
{
    if w.len() > 0 {
        lemma_digits_monotone(w.drop_last(), if i == w.len() { i - 1 } else { i });
        if i < w.len() {
            assert(w.drop_last().subrange(0, i) =~= w.subrange(0, i));
        } else {
            assert(w.subrange(0, i) =~= w);
        }
    } else {
        assert(w.subrange(0, i) =~= w);
    }
}

/// Reads a word of decimal digits.
pub fn decimal_value(w: &str) -> (r: Option<isize>)
    ensures
        match r {
            Some(n) => int_of_word(w@) == Some(n as int),
            None => int_of_word(w@) is None,
        },
{
    let n = w.unicode_len();
    if n == 0 {
        return None;
    }
    let mut v: isize = 0;
    let mut i: usize = 0;
    while i < n
        invariant
            n == w@.len(),
            i <= n,
            v as int == digits_value(w@.subrange(0, i as int)),
            v >= 0,
            forall|k: int| 0 <= k < i ==> is_digit(#[trigger] w@[k]),
        decreases n - i,
    {
        let c = w.get_char(i);
        assert(w@.subrange(0, i + 1).drop_last() =~= w@.subrange(0, i as int));
        if !('0' <= c && c <= '9') {
            return None;
        }
        let d = (c as u32 - '0' as u32) as isize;
        if v > (isize::MAX - d) / 10 {
            proof {
                let mut j: int = i as int + 1;
                assert(digits_value(w@.subrange(0, j)) > isize::MAX);
                if forall|k: int| 0 <= k < w@.len() ==> is_digit(#[trigger] w@[k]) {
                    lemma_digits_monotone(w@, j);
                }
            }
            return None;
        }
        assert(0 <= v * 10 + d <= isize::MAX) by (nonlinear_arith)
            requires
                0 <= v <= (isize::MAX - d) / 10,
                0 <= d <= 9,
        ;
        v = v * 10 + d;
        i = i + 1;
    }
    assert(w@.subrange(0, n as int) =~= w@);
    Some(v)
}

pub open spec fn is_initial(c: char) -> bool {
    ('a' <= c && c <= 'z') || ('A' <= c && c <= 'Z') || c == '*' || c == '+' || c == '!' || c
        == '-' || c == '_' || c == '?'
}

pub open spec fn is_subsequent(c: char) -> bool {
    is_initial(c) || is_digit(c)
}

/// A symbol's text: an initial character, then subsequent ones.
pub open spec fn symbol_body(w: Seq<char>) -> bool {
    w.len() >= 1 && is_initial(w[0]) && forall|i: int| 1 <= i < w.len() ==> is_subsequent(#[trigger] w[i])
}

/// A symbol or a keyword: a symbol's text, optionally after a colon.
pub open spec fn is_identifier(w: Seq<char>) -> bool {
    if w.len() > 0 && w[0] == ':' {
        symbol_body(w.drop_first())
    } else {
        symbol_body(w)
    }
}

/// `nil` in any case.
pub open spec fn nil_like(w: Seq<char>) -> bool {
    &&& w.len() == 3
    &&& (w[0] == 'n' || w[0] == 'N')
    &&& (w[1] == 'i' || w[1] == 'I')
    &&& (w[2] == 'l' || w[2] == 'L')
}

/// A word that is not a literal: a keyword, `nil`, or a symbol.
pub open spec fn identifier_term(w: Seq<char>) -> Result<Term, ParseError> {
    if !is_identifier(w) {
        Err(ParseError::InvalidWord)
    } else if w[0] == ':' {
        Ok(Term::Keyword(w))
    } else if nil_like(w) {
        if w == seq!['n', 'i', 'l'] {
            Ok(Term::Lit(Lit::Nil))
        } else {
            Err(ParseError::UppercaseNil)
        }
    } else {
        Ok(Term::Symbol(w))
    }
}

/// A word read as a literal without suffix, if it is one.
pub open spec fn literal_term(w: Seq<char>) -> Option<Term> {
    match rust_literal(w) {
        Some((k, suffix)) => if suffix.len() != 0 {
            None
        } else {
            match k {
                LiteralKind::Bool(b) => Some(Term::Lit(Lit::Bool(b))),
                LiteralKind::Integer => match int_of_word(w) {
                    Some(n) => Some(Term::Lit(Lit::Int(n))),
                    None => None,
                },
                LiteralKind::Float(num) => if num@.contains('_') {
                    None
                } else {
                    Some(Term::Lit(Lit::Float(num@)))
                },
                LiteralKind::Char(c) => Some(Term::Lit(Lit::Char(c))),
                _ => None,
            }
        },
        None => None,
    }
}

/// A word: a literal if it reads as one, else an identifier. A literal
/// without a suffix never ends in a non-ASCII character, so such a word is
/// read as an identifier straight away.
pub open spec fn word_term(w: Seq<char>) -> Result<Term, ParseError> {
    if !ends_ascii(w) {
        identifier_term(w)
    } else {
        match literal_term(w) {
            Some(t) => Ok(t),
            None => identifier_term(w),
        }
    }
}

/// A quoted literal: `c'x'` is a character; otherwise the sigil and the
/// content are read as a Rust string literal (`b` for bytes).
pub open spec fn quote_term(sigil: Seq<char>, content: Seq<char>) -> Result<Term, ParseError> {
    if sigil == seq!['c'] {
        if content.len() == 1 {
            Ok(Term::Lit(Lit::Char(content[0])))
        } else {
            Err(ParseError::InvalidCharQuote)
        }
    } else {
        match rust_literal(sigil + seq!['"'] + content + seq!['"']) {
            Some((LiteralKind::Str(v), _)) => Ok(Term::Lit(Lit::Str(v@))),
            Some((LiteralKind::Bytes(b), _)) => Ok(Term::Lit(Lit::Bytes(b@))),
            _ => Err(ParseError::InvalidQuote),
        }
    }
}

/// The expression that a word or a quoted literal denotes.
pub open spec fn token_term(t: Tok) -> Result<Term, ParseError> {
    match t {
        Tok::Word(w) => word_term(w),
        Tok::StringLit(sigil, _, content) => quote_term(sigil, content),
        _ => Err(ParseError::UnhandledToken),
    }
}

pub open spec fn parse_outcome(r: Result<Expr, ParseError>) -> Result<Term, ParseError> {
    match r {
        Ok(e) => Ok(e@),
        Err(x) => Err(x),
    }
}

fn is_symbol_body(w: &str, start: usize) -> (r: bool)
    requires
        start <= w@.len(),
    ensures
        r == symbol_body(w@.subrange(start as int, w@.len() as int)),
{
    let n = w.unicode_len();
    if start >= n {
        return false;
    }
    let ghost b = w@.subrange(start as int, w@.len() as int);
    let c = w.get_char(start);
    if !(('a' <= c && c <= 'z') || ('A' <= c && c <= 'Z') || c == '*' || c == '+' || c == '!'
        || c == '-' || c == '_' || c == '?') {
        return false;
    }
    let mut i: usize = start + 1;
    while i < n
        invariant
            n == w@.len(),
            start < i <= n,
            b == w@.subrange(start as int, w@.len() as int),
            forall|k: int| 1 <= k < i - start ==> is_subsequent(#[trigger] b[k]),
        decreases n - i,
    {
        let c = w.get_char(i);
        assert(b[i - start] == c);
        if !(('a' <= c && c <= 'z') || ('A' <= c && c <= 'Z') || ('0' <= c && c <= '9') || c
            == '*' || c == '+' || c == '!' || c == '-' || c == '_' || c == '?') {
            return false;
        }
        i = i + 1;
    }
    true
}

/// Parses a word that must be a keyword, `nil`, or a symbol.
pub fn parse_identifier(w: &str) -> (r: Result<Expr, ParseError>)
    ensures
        parse_outcome(r) == identifier_term(w@),
{
    let n = w.unicode_len();
    let keyword = n > 0 && w.get_char(0) == ':';
    let ok = if keyword {
        assert(w@.drop_first() =~= w@.subrange(1, w@.len() as int));
        is_symbol_body(w, 1)
    } else {
        assert(w@ =~= w@.subrange(0, w@.len() as int));
        is_symbol_body(w, 0)
    };
    if !ok {
        return Err(ParseError::InvalidWord);
    }
    if keyword {
        return Ok(Expr::Keyword(String::from_str(w)));
    }
    if n == 3 && (w.get_char(0) == 'n' || w.get_char(0) == 'N') && (w.get_char(1) == 'i'
        || w.get_char(1) == 'I') && (w.get_char(2) == 'l' || w.get_char(2) == 'L') {
        if w.get_char(0) == 'n' && w.get_char(1) == 'i' && w.get_char(2) == 'l' {
            assert(w@ =~= seq!['n', 'i', 'l']);
            Ok(Expr::Value(Value::Nil))
        } else {
            Err(ParseError::UppercaseNil)
        }
    } else {
        Ok(Expr::Symbol(String::from_str(w)))
    }
}

fn has_underscore(s: &str) -> (r: bool)
    ensures
        r == s@.contains('_'),
{
    let n = s.unicode_len();
    let mut i: usize = 0;
    while i < n
        invariant
            n == s@.len(),
            i <= n,
            forall|k: int| 0 <= k < i ==> s@[k] != '_',
        decreases n - i,
    {
        if s.get_char(i) == '_' {
            return true;
        }
        i = i + 1;
    }
    false
}

/// Reads a word as a literal without suffix, if it is one.
pub fn parse_literal(w: &str) -> (r: Option<Expr>)
    requires
        ends_ascii(w@),
    ensures
        match r {
            Some(e) => literal_term(w@) == Some(e@),
            None => literal_term(w@) is None,
        },
{
    let (kind, suffix) = classify_literal(w)?;
    if suffix.unicode_len() != 0 {
        return None;
    }
    match kind {
        LiteralKind::Bool(b) => Some(Expr::Value(Value::Bool(b))),
        LiteralKind::Integer => match decimal_value(w) {
            Some(n) => Some(Expr::Value(Value::Int(n))),
            None => None,
        },
        LiteralKind::Float(num) => {
            if has_underscore(num.as_str()) {
                None
            } else {
                Some(Expr::Value(Value::Float(num)))
            }
        },
        LiteralKind::Char(c) => Some(Expr::Value(Value::Char(c))),
        _ => None,
    }
}

/// Reads a quoted literal.
pub fn parse_quote(quote: &Quote) -> (r: Result<Expr, ParseError>)
    ensures
        parse_outcome(r) == quote_term(quote.sigil@, quote.content@),
{
    proof {
        reveal_strlit("c");
        reveal_strlit("\"");
        assert("c"@ =~= seq!['c']);
        assert("\""@ =~= seq!['"']);
    }
    if quote.sigil == String::from_str("c") {
        assert(quote.sigil@ == seq!['c']);
        if quote.content.unicode_len() == 1 {
            Ok(Expr::Value(Value::Char(quote.content.as_str().get_char(0))))
        } else {
            Err(ParseError::InvalidCharQuote)
        }
    } else {
        assert(quote.sigil@ != seq!['c']);
        let lits = quote.sigil.clone().concat("\"").concat(quote.content.as_str()).concat("\"");
        assert(lits@ == quote.sigil@ + seq!['"'] + quote.content@ + seq!['"']);
        match classify_literal(lits.as_str()) {
            Some((LiteralKind::Str(v), _)) => Ok(Expr::Value(Value::Str(v))),
            Some((LiteralKind::Bytes(b), _)) => Ok(Expr::Value(Value::Bytes(b))),
            _ => Err(ParseError::InvalidQuote),
        }
    }
}

/// Parses a word or a quoted literal; other tokens are not expressions.
pub fn parse_token(t: &Token) -> (r: Result<Expr, ParseError>)
    ensures
        parse_outcome(r) == token_term(t@),
{
    match t {
        Token::Word(s) => {
            let n = s.as_str().unicode_len();
            if n > 0 && (s.as_str().get_char(n - 1) as u32) >= 128 {
                parse_identifier(s.as_str())
            } else {
                match parse_literal(s.as_str()) {
                    Some(e) => Ok(e),
                    None => parse_identifier(s.as_str()),
                }
            }
        },
        Token::StringLit(q) => parse_quote(q),
        _ => Err(ParseError::UnhandledToken),
    }
}

} // verus!
