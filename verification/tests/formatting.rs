//! Tests for spans and the shared error-message formatting helpers.

use ream::ast::{Datum, Literal};
use ream::error::{format_expected_symbols, format_expected_tokens};
use ream::span::Span;
use ream::token::{Token, TokenType};

#[test]
fn one_expected_symbol_is_quoted_alone() {
    assert_eq!(format_expected_symbols(&['t']), "`t`");
}

#[test]
fn several_expected_symbols_are_listed() {
    assert_eq!(format_expected_symbols(&['t', 'f']), "one of `t`, `f`");
}

#[test]
fn expected_token_names_are_listed() {
    assert_eq!(format_expected_tokens(&["Identifier".to_string()]), "`Identifier`");
    assert_eq!(
        format_expected_tokens(&["Atom".to_string(), "Keyword".to_string(), "(".to_string()]),
        "one of `Atom`, `Keyword`, `(`"
    );
}

#[test]
fn combine_takes_the_smallest_enclosing_span() {
    let a = Span { offset: 2, len: 3 };
    let b = Span { offset: 8, len: 4 };
    assert_eq!(a.combine(&b), Span { offset: 2, len: 10 });
    // Order does not matter: the result encloses both.
    assert_eq!(b.combine(&a), Span { offset: 2, len: 10 });
}

#[test]
fn increment_is_the_empty_span_just_after() {
    let s = Span { offset: 5, len: 4 };
    assert_eq!(s.increment(), Span { offset: 9, len: 0 });
}

#[test]
fn token_span_can_be_replaced() {
    let t = Token { span: Span { offset: 0, len: 1 }, t: TokenType::LeftParen };
    let t = t.with_span(Span { offset: 7, len: 2 });
    assert_eq!(t.span, Span { offset: 7, len: 2 });
    assert!(matches!(t.t, TokenType::LeftParen));
}

#[test]
fn token_names_follow_the_display_table() {
    assert_eq!(TokenType::KwSeq.name(), "begin");
    assert_eq!(TokenType::Identifier("x".to_string()).name(), "Identifier");
    assert_eq!(TokenType::LeftParen.name(), "(");
    assert_eq!(TokenType::EndOfFile.name(), "EndOfFile");
}

#[test]
fn a_token_can_become_quoted_data() {
    let t = Token { span: Span { offset: 3, len: 2 }, t: TokenType::Integer(12) };
    match t.to_quotation() {
        Literal::Quotation { span, q } => {
            assert_eq!(span, Span { offset: 3, len: 2 });
            assert!(matches!(q, Datum::Integer { i: 12, .. }));
        }
        other => panic!("expected a quotation, got {other:?}"),
    }
}
