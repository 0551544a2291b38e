//! Splitting source text into tokens.
use vstd::prelude::*;
use vstd::string::StrSliceExecFns;
use crate::ast::push_char;

verus! {

/// A quoted literal: the word just before the opening mark (its sigil), the
/// mark, and the text between the marks with quote escapes resolved.
#[derive(Debug, Clone, PartialEq)]
pub struct Quote {
    pub sigil: String,
    pub mark: char,
    pub content: String,
}

#[derive(Debug, Clone, PartialEq)]
pub enum Token {
    ParenStart,
    ParenEnd,
    Dash,
    Word(String),
    StringLit(Quote),
}

/// Model of a token.
pub enum Tok {
    ParenStart,
    ParenEnd,
    Dash,
    Word(Seq<char>),
    StringLit(Seq<char>, char, Seq<char>),
}

impl View for Token {
    type V = Tok;

    open spec fn view(&self) -> Tok {
        match *self {
            Token::ParenStart => Tok::ParenStart,
            Token::ParenEnd => Tok::ParenEnd,
            Token::Dash => Tok::Dash,
            Token::Word(w) => Tok::Word(w@),
            Token::StringLit(q) => Tok::StringLit(q.sigil@, q.mark, q.content@),
        }
    }
}

/// The models of a token sequence.
pub open spec fn toks_of(v: Seq<Token>) -> Seq<Tok> {
    Seq::new(v.len(), |i: int| v[i]@)
}

/// Unicode white space, as `char::is_whitespace` defines it.
pub open spec fn is_space(c: char) -> bool {
    ||| c == '\t'
    ||| c == '\n'
    ||| c == '\u{0B}'
    ||| c == '\u{0C}'
    ||| c == '\r'
    ||| c == ' '
    ||| c == '\u{85}'
    ||| c == '\u{A0}'
    ||| c == '\u{1680}'
    ||| ('\u{2000}' <= c && c <= '\u{200A}')
    ||| c == '\u{2028}'
    ||| c == '\u{2029}'
    ||| c == '\u{202F}'
    ||| c == '\u{205F}'
    ||| c == '\u{3000}'
}

pub fn is_whitespace(c: char) -> (r: bool)
    ensures
        r == is_space(c),
{
    c == '\t' || c == '\n' || c == '\u{0B}' || c == '\u{0C}' || c == '\r' || c == ' ' || c
        == '\u{85}' || c == '\u{A0}' || c == '\u{1680}' || ('\u{2000}' <= c && c <= '\u{200A}')
        || c == '\u{2028}' || c == '\u{2029}' || c == '\u{202F}' || c == '\u{205F}' || c
        == '\u{3000}'
}

/// The tokenizer's state: tokens so far, the word being read, the quote being
/// read (sigil, mark, content), and whether a backslash is pending in it.
pub struct Lexer {
    pub tokens: Seq<Tok>,
    pub word: Seq<char>,
    pub quote: Option<(Seq<char>, char, Seq<char>)>,
    pub escaped: bool,
}

/// Ends the current word, if there is one.
pub open spec fn flush(st: Lexer) -> Lexer {
    if st.word.len() == 0 {
        st
    } else {
        Lexer { tokens: st.tokens.push(Tok::Word(st.word)), word: seq![], ..st }
    }
}

/// One character of input.
pub open spec fn lex_step(st: Lexer, c: char) -> Lexer {
    match st.quote {
        Some((sigil, mark, content)) => if c == mark {
            if st.escaped {
                Lexer { quote: Some((sigil, mark, content.push(c))), escaped: false, ..st }
            } else {
                Lexer { tokens: st.tokens.push(Tok::StringLit(sigil, mark, content)), quote: None, ..st }
            }
        } else if st.escaped {
            Lexer { quote: Some((sigil, mark, content.push('\\').push(c))), escaped: false, ..st }
        } else if c == '\\' {
            Lexer { escaped: true, ..st }
        } else {
            Lexer { quote: Some((sigil, mark, content.push(c))), ..st }
        },
        None => if c == '\'' || c == '"' {
            Lexer { quote: Some((st.word, c, seq![])), word: seq![], ..st }
        } else if c == '(' || c == ')' || is_space(c) {
            let f = flush(st);
            if c == '(' {
                Lexer { tokens: f.tokens.push(Tok::ParenStart), ..f }
            } else if c == ')' {
                Lexer { tokens: f.tokens.push(Tok::ParenEnd), ..f }
            } else {
                f
            }
        } else if st.word.len() == 0 && c == '-' {
            Lexer { tokens: st.tokens.push(Tok::Dash), ..st }
        } else {
            Lexer { word: st.word.push(c), ..st }
        },
    }
}

/// The state after reading `s`.
pub open spec fn lex_run(s: Seq<char>) -> Lexer
    decreases s.len(),
{
    if s.len() == 0 {
        Lexer { tokens: seq![], word: seq![], quote: None, escaped: false }
    } else {
        lex_step(lex_run(s.drop_last()), s.last())
    }
}

/// The tokens of `s`. A quote left open at the end yields no token.
pub open spec fn tokens_of_text(s: Seq<char>) -> Seq<Tok> {
    flush(lex_run(s)).tokens
}

/// Ends the current word, if there is one.
fn push_word(tokens: &mut Vec<Token>, current_word: &mut String)
    ensures
        ({
            let st = flush(
                Lexer { tokens: toks_of(old(tokens)@), word: old(current_word)@, quote: None, escaped: false },
            );
            toks_of(final(tokens)@) == st.tokens && final(current_word)@ == st.word
        }),
{
    if current_word.unicode_len() != 0 {
        let ghost before = tokens@;
        let w = current_word.clone();
        *current_word = String::new();
        tokens.push(Token::Word(w));
        assert(toks_of(tokens@) =~= toks_of(before).push(Tok::Word(w@)));
    }
}

pub open spec fn quote_of(q: Option<Quote>) -> Option<(Seq<char>, char, Seq<char>)> {
    match q {
        Some(q) => Some((q.sigil@, q.mark, q.content@)),
        None => None,
    }
}

/// Splits text into parentheses, leading dashes, words and quoted literals.
pub fn tokenize(s: &str) -> (r: Vec<Token>)
    ensures
        toks_of(r@) == tokens_of_text(s@),
{
    let mut tokens: Vec<Token> = Vec::new();
    let mut current_word = String::new();
    let mut current_quote: Option<Quote> = None;
    let mut is_escaped = false;
    let n = s.unicode_len();
    let mut i: usize = 0;
    assert(toks_of(tokens@) =~= Seq::<Tok>::empty());
    assert(s@.subrange(0, 0) =~= Seq::<char>::empty());
    while i < n
        invariant
            n == s@.len(),
            i <= n,
            lex_run(s@.subrange(0, i as int)) == (Lexer {
                tokens: toks_of(tokens@),
                word: current_word@,
                quote: quote_of(current_quote),
                escaped: is_escaped,
            }),
        decreases n - i,
    {
        let c = s.get_char(i);
        let ghost st = lex_run(s@.subrange(0, i as int));
        assert(s@.subrange(0, i + 1).drop_last() =~= s@.subrange(0, i as int));
        if let Some(mut quote) = current_quote.take() {
            if c == quote.mark {
                if is_escaped {
                    push_char(&mut quote.content, c);
                    is_escaped = false;
                    current_quote = Some(quote);
                } else {
                    let ghost qv = Tok::StringLit(quote.sigil@, quote.mark, quote.content@);
                    tokens.push(Token::StringLit(quote));
                    assert(toks_of(tokens@) =~= st.tokens.push(qv));
                }
            } else if is_escaped {
                push_char(&mut quote.content, '\\');
                push_char(&mut quote.content, c);
                is_escaped = false;
                current_quote = Some(quote);
            } else if c == '\\' {
                is_escaped = true;
                current_quote = Some(quote);
            } else {
                push_char(&mut quote.content, c);
                current_quote = Some(quote);
            }
        } else if c == '\'' || c == '"' {
            let sigil = current_word.clone();
            current_word = String::new();
            current_quote = Some(Quote { sigil, mark: c, content: String::new() });
        } else if c == '(' || c == ')' || is_whitespace(c) {
            push_word(&mut tokens, &mut current_word);
            let ghost mid = tokens@;
            if c == '(' {
                tokens.push(Token::ParenStart);
                assert(toks_of(tokens@) =~= toks_of(mid).push(Tok::ParenStart));
            } else if c == ')' {
                tokens.push(Token::ParenEnd);
                assert(toks_of(tokens@) =~= toks_of(mid).push(Tok::ParenEnd));
            }
        } else if current_word.unicode_len() == 0 && c == '-' {
            tokens.push(Token::Dash);
            assert(toks_of(tokens@) =~= st.tokens.push(Tok::Dash));
        } else {
            push_char(&mut current_word, c);
        }
        i = i + 1;
        assert(lex_run(s@.subrange(0, i as int)) == lex_step(st, c));
    }
    assert(s@.subrange(0, n as int) =~= s@);
    push_word(&mut tokens, &mut current_word);
    tokens
}

} // verus!
