use lisp_playground::tokenizer::{tokenize, Quote, Token};

#[test]
fn test_one_quote() {
    assert_eq!(
        tokenize("(bee'hi')"),
        vec![
            Token::ParenStart,
            Token::StringLit(Quote {
                sigil: "bee".to_string(),
                mark: '\'',
                content: "hi".to_string()
            }),
            Token::ParenEnd
        ]
    )
}

#[test]
fn test_escaped_quote() {
    assert_eq!(
        tokenize("'hi\\'hi\\n'"),
        vec![Token::StringLit(Quote {
            sigil: String::new(),
            mark: '\'',
            content: "hi'hi\\n".to_string()
        })]
    )
}

#[test]
fn test_negative_numbers() {
    assert_eq!(tokenize("-4.31"), vec![Token::Dash, Token::Word("4.31".to_string())])
}

#[test]
fn test_tokenize_all_the_things() {
    assert_eq!(
        tokenize(")(hel\\lo ( 3.2 he(\"yo\\\"yo\"y"),
        vec![
            Token::ParenEnd,
            Token::ParenStart,
            Token::Word("hel\\lo".to_string()),
            Token::ParenStart,
            Token::Word("3.2".to_string()),
            Token::Word("he".to_string()),
            Token::ParenStart,
            Token::StringLit(Quote {
                sigil: String::new(),
                mark: '"',
                content: "yo\"yo".to_string()
            }),
            Token::Word("y".to_string())
        ]
    )
}

#[test]
fn unicode_whitespace_separates_words() {
    assert_eq!(
        tokenize("a\u{3000}b\tc"),
        vec![
            Token::Word("a".to_string()),
            Token::Word("b".to_string()),
            Token::Word("c".to_string())
        ]
    )
}

#[test]
fn unterminated_quote_yields_no_token() {
    assert_eq!(tokenize("(x 'abc"), vec![Token::ParenStart, Token::Word("x".to_string())])
}

#[test]
fn dash_inside_word_is_kept() {
    assert_eq!(tokenize("a-b"), vec![Token::Word("a-b".to_string())])
}
