//! Tests for the lexer: literal forms, spans, and terminal errors.

use ream::error::LexError;
use ream::lex::Lexer;
use ream::span::Span;
use ream::token::{Token, TokenType};

fn lex_one(source: &str) -> Result<Token, LexError> {
    let mut lexer = Lexer::new(source);
    lexer.lex_token().expect("expected a token")
}

fn lex_all(source: &str) -> Vec<Result<Token, LexError>> {
    let mut lexer = Lexer::new(source);
    let mut out = Vec::new();
    while let Some(item) = lexer.lex_token() {
        let stop = item.is_err();
        out.push(item);
        if stop {
            break;
        }
    }
    out
}

#[test]
fn hex_integer_literal() {
    let tok = lex_one("0x1F").unwrap();
    assert!(matches!(tok.t, TokenType::Integer(31)));
    assert_eq!(tok.span, Span { offset: 0, len: 4 });
}

#[test]
fn octal_binary_and_decimal_integers() {
    assert!(matches!(lex_one("0o17").unwrap().t, TokenType::Integer(15)));
    assert!(matches!(lex_one("0b101").unwrap().t, TokenType::Integer(5)));
    assert!(matches!(lex_one("1_234").unwrap().t, TokenType::Integer(1234)));
}

#[test]
fn float_literal_keeps_stripped_text() {
    let tok = lex_one("1_000.5").unwrap();
    match tok.t {
        TokenType::Float(text) => {
            assert_eq!(text, "1000.5");
            assert_eq!(text.parse::<f64>().unwrap(), 1000.5);
        }
        other => panic!("expected a float token, got {other:?}"),
    }
    // The span covers the consumed source text, underscores included.
    assert_eq!(tok.span, Span { offset: 0, len: 7 });
}

#[test]
fn boolean_literals() {
    assert!(matches!(lex_one("#t").unwrap().t, TokenType::Boolean(true)));
    assert!(matches!(lex_one("#true").unwrap().t, TokenType::Boolean(true)));
    assert!(matches!(lex_one("#f").unwrap().t, TokenType::Boolean(false)));
    assert!(matches!(lex_one("#false").unwrap().t, TokenType::Boolean(false)));
}

#[test]
fn invalid_boolean_reports_text() {
    match lex_one("#tr") {
        Err(LexError::InvalidBoolean { loc, found }) => {
            assert_eq!(found, "#tr");
            assert_eq!(loc, Span { offset: 0, len: 3 });
        }
        other => panic!("expected InvalidBoolean, got {other:?}"),
    }
}

#[test]
fn character_literals_plain_and_escaped() {
    let tok = lex_one("'a'").unwrap();
    assert!(matches!(tok.t, TokenType::Character('a')));
    assert_eq!(tok.span, Span { offset: 0, len: 3 });

    let tok = lex_one("'\\n'").unwrap();
    assert!(matches!(tok.t, TokenType::Character('\n')));
    assert_eq!(tok.span, Span { offset: 0, len: 4 });

    assert!(matches!(lex_one("'\\t'").unwrap().t, TokenType::Character('\t')));
    assert!(matches!(lex_one("'\\\\'").unwrap().t, TokenType::Character('\\')));
    assert!(matches!(lex_one("'\\0'").unwrap().t, TokenType::Character('\0')));
}

#[test]
fn invalid_escape_is_reported() {
    match lex_one("'\\q'") {
        Err(LexError::InvalidEscape { loc, found }) => {
            assert_eq!(found, "\\q");
            assert_eq!(loc, Span { offset: 1, len: 2 });
        }
        other => panic!("expected InvalidEscape, got {other:?}"),
    }
}

#[test]
fn character_missing_close_quote() {
    match lex_one("'ab") {
        Err(LexError::UnexpectedSymbol { found, expected, .. }) => {
            assert_eq!(found, 'b');
            assert_eq!(expected, vec!['\'']);
        }
        other => panic!("expected UnexpectedSymbol, got {other:?}"),
    }
}

#[test]
fn hash_followed_by_other_symbol() {
    match lex_one("#x") {
        Err(LexError::UnexpectedSymbol { loc, found, expected }) => {
            assert_eq!(found, 'x');
            assert_eq!(expected, vec!['t', 'f']);
            assert_eq!(loc, Span { offset: 0, len: 1 });
        }
        other => panic!("expected UnexpectedSymbol, got {other:?}"),
    }
}

#[test]
fn unterminated_string_is_unexpected_eof() {
    match lex_one("\"abc") {
        Err(LexError::UnexpectedEof { loc }) => {
            assert_eq!(loc, Span { offset: 4, len: 1 });
        }
        other => panic!("expected UnexpectedEof, got {other:?}"),
    }
}

#[test]
fn string_contents_are_kept_as_written() {
    let tok = lex_one("\"a\\nb\"").unwrap();
    match tok.t {
        TokenType::String(s) => assert_eq!(s, "a\\nb"),
        other => panic!("expected a string token, got {other:?}"),
    }
}

#[test]
fn empty_string_literal() {
    let tok = lex_one("\"\"").unwrap();
    match tok.t {
        TokenType::String(s) => assert_eq!(s, ""),
        other => panic!("expected a string token, got {other:?}"),
    }
    assert_eq!(tok.span, Span { offset: 0, len: 2 });
}

#[test]
fn atom_includes_colon() {
    let tok = lex_one(":doc rest").unwrap();
    match tok.t {
        TokenType::Atom(a) => assert_eq!(a, ":doc"),
        other => panic!("expected an atom token, got {other:?}"),
    }
    assert_eq!(tok.span, Span { offset: 0, len: 4 });
}

#[test]
fn keywords_are_recognized() {
    let kinds: Vec<TokenType> = lex_all("quote let fn lambda seq if include Bottom Tuple List Vector Function Sum Product")
        .into_iter()
        .map(|r| r.unwrap().t)
        .collect();
    assert!(matches!(kinds[0], TokenType::KwQuote));
    assert!(matches!(kinds[1], TokenType::KwLet));
    assert!(matches!(kinds[2], TokenType::KwFn));
    assert!(matches!(kinds[3], TokenType::KwLambda));
    assert!(matches!(kinds[4], TokenType::KwSeq));
    assert!(matches!(kinds[5], TokenType::KwIf));
    assert!(matches!(kinds[6], TokenType::KwInclude));
    assert!(matches!(kinds[7], TokenType::TypeKwBottom));
    assert!(matches!(kinds[8], TokenType::TypeKwTuple));
    assert!(matches!(kinds[9], TokenType::TypeKwList));
    assert!(matches!(kinds[10], TokenType::TypeKwVector));
    assert!(matches!(kinds[11], TokenType::TypeKwFunction));
    assert!(matches!(kinds[12], TokenType::TypeKwSum));
    assert!(matches!(kinds[13], TokenType::TypeKwProduct));
}

#[test]
fn identifier_with_symbols_and_unicode() {
    let tok = lex_one("set-cdr!").unwrap();
    match tok.t {
        TokenType::Identifier(id) => assert_eq!(id, "set-cdr!"),
        other => panic!("expected an identifier, got {other:?}"),
    }
    // A non-ASCII identifier exercises the Unicode start and continue
    // tables; if either claimed nothing, this would fail to lex.
    let tok = lex_one("caf\u{e9}").unwrap();
    match tok.t {
        TokenType::Identifier(id) => assert_eq!(id, "caf\u{e9}"),
        other => panic!("expected an identifier, got {other:?}"),
    }
}

#[test]
fn punctuation_tokens() {
    let toks: Vec<TokenType> = lex_all("( ) . `").into_iter().map(|r| r.unwrap().t).collect();
    assert!(matches!(toks[0], TokenType::LeftParen));
    assert!(matches!(toks[1], TokenType::RightParen));
    assert!(matches!(toks[2], TokenType::Period));
    assert!(matches!(toks[3], TokenType::Backtick));
}

#[test]
fn whitespace_and_comments_are_skipped() {
    let toks = lex_all("  ; a comment\n\t42 ; trailing\n");
    assert_eq!(toks.len(), 1);
    let tok = toks[0].as_ref().unwrap();
    assert!(matches!(tok.t, TokenType::Integer(42)));
    assert_eq!(tok.span.offset, 15);
}

#[test]
fn unknown_symbol_is_reported() {
    match lex_one(",") {
        Err(LexError::UnknownSymbol { loc, found }) => {
            assert_eq!(found, ',');
            assert_eq!(loc, Span { offset: 0, len: 1 });
        }
        other => panic!("expected UnknownSymbol, got {other:?}"),
    }
}

#[test]
fn non_decimal_float_carries_help() {
    match lex_one("0x1.5") {
        Err(LexError::InvalidNumber { loc, help, found }) => {
            assert_eq!(found, "0x1.5");
            assert_eq!(loc, Span { offset: 0, len: 5 });

            let help = help.expect("expected help text");
            assert_eq!(
                help,
                "this number appears to be a float, however floats can only be created using decimal notation"
            );
        }
        other => panic!("expected InvalidNumber, got {other:?}"),
    }
}

#[test]
fn invalid_numbers_without_help() {
    match lex_one("12ab") {
        Err(LexError::InvalidNumber { help, found, .. }) => {
            assert_eq!(found, "12ab");
            assert!(help.is_none());
        }
        other => panic!("expected InvalidNumber, got {other:?}"),
    }
    match lex_one("1.2.3") {
        Err(LexError::InvalidNumber { found, .. }) => assert_eq!(found, "1.2.3"),
        other => panic!("expected InvalidNumber, got {other:?}"),
    }
    // A decimal literal too large for the integer type is rejected.
    match lex_one("99999999999999999999999") {
        Err(LexError::InvalidNumber { .. }) => {}
        other => panic!("expected InvalidNumber, got {other:?}"),
    }
}

#[test]
fn float_with_exponent_is_accepted() {
    match lex_one("1.5e3").unwrap().t {
        TokenType::Float(text) => assert_eq!(text.parse::<f64>().unwrap(), 1500.0),
        other => panic!("expected a float token, got {other:?}"),
    }
}

#[test]
fn end_of_input_is_silent() {
    let mut lexer = Lexer::new("   ; only a comment");
    assert!(lexer.lex_token().is_none());
}
