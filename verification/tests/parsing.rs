//! Tests for the parser: grammar forms, span coverage, and errors.

use ream::ast::{Annotation, ConsList, Datum, Expression, Literal, Program, TypeConstructor, TypeSpec};
use ream::error::{Error, LexError, ParseError};
use ream::lex::Lexer;
use ream::parse::Parser;
use ream::span::Span;

fn parse_source(source: &str) -> Result<Program, Error> {
    let mut parser = Parser::new(Lexer::new(source));
    parser.parse()
}

fn parse_one(source: &str) -> Expression {
    let mut program = parse_source(source).unwrap();
    assert_eq!(program.0.len(), 1);
    program.0.remove(0)
}

#[test]
fn literal_round_trip_through_parsing() {
    match parse_one("0x1F") {
        Expression::Literal(Literal::Integer { i, .. }) => assert_eq!(i, 31),
        other => panic!("expected an integer literal, got {other:?}"),
    }
    match parse_one("1_000.5") {
        Expression::Literal(Literal::Float { text, .. }) => {
            assert_eq!(text.parse::<f64>().unwrap(), 1000.5)
        }
        other => panic!("expected a float literal, got {other:?}"),
    }
    match parse_one("#t") {
        Expression::Literal(Literal::Boolean { b, .. }) => assert!(b),
        other => panic!("expected a boolean literal, got {other:?}"),
    }
    match parse_one("'a'") {
        Expression::Literal(Literal::Character { c, .. }) => assert_eq!(c, 'a'),
        other => panic!("expected a character literal, got {other:?}"),
    }
    match parse_one("'\\n'") {
        Expression::Literal(Literal::Character { c, .. }) => assert_eq!(c, '\n'),
        other => panic!("expected a character literal, got {other:?}"),
    }
}

#[test]
fn call_span_covers_all_consumed_tokens() {
    // Tokens: `(` at 0, `+` at 1, `1` at 3, `(` at 5, `f` at 6, `2` at 8,
    // `)` at 9, `)` at 10; the whole call spans [0, 11).
    match parse_one("(+ 1 (f 2))") {
        Expression::ProcedureCall { span, operator, operands } => {
            assert_eq!(span, Span { offset: 0, len: 11 });
            assert_eq!(operator.id, "+");
            assert_eq!(operands.len(), 2);
            match &operands[1] {
                Expression::ProcedureCall { span, .. } => {
                    assert_eq!(*span, Span { offset: 5, len: 5 });
                }
                other => panic!("expected a nested call, got {other:?}"),
            }
        }
        other => panic!("expected a call, got {other:?}"),
    }
}

#[test]
fn definition_and_its_span() {
    match parse_one("(let x 42)") {
        Expression::Definition { span, target, value } => {
            assert_eq!(target.id, "x");
            assert_eq!(span, Span { offset: 0, len: 10 });
            assert!(matches!(*value, Expression::Literal(Literal::Integer { i: 42, .. })));
        }
        other => panic!("expected a definition, got {other:?}"),
    }
}

#[test]
fn sequence_needs_one_expression() {
    match parse_one("(seq 1 2 3)") {
        Expression::Sequence { seq, .. } => assert_eq!(seq.len(), 3),
        other => panic!("expected a sequence, got {other:?}"),
    }
    match parse_source("(seq)") {
        Err(Error::Parse(ParseError::InvalidExpression { .. })) => {}
        other => panic!("expected InvalidExpression, got {other:?}"),
    }
}

#[test]
fn lambda_with_parenthesized_formals() {
    match parse_one("(lambda (a b) a b)") {
        Expression::LambdaExpression { formals, body, span } => {
            assert_eq!(formals.len(), 2);
            assert_eq!(formals[0].id, "a");
            assert_eq!(formals[1].id, "b");
            assert_eq!(body.len(), 2);
            assert_eq!(span, Span { offset: 0, len: 18 });
        }
        other => panic!("expected a lambda, got {other:?}"),
    }
}

#[test]
fn lambda_with_single_formal() {
    match parse_one("(lambda x x)") {
        Expression::LambdaExpression { formals, body, .. } => {
            assert_eq!(formals.len(), 1);
            assert_eq!(formals[0].id, "x");
            assert_eq!(body.len(), 1);
        }
        other => panic!("expected a lambda, got {other:?}"),
    }
}

#[test]
fn bad_lambda_formals() {
    match parse_source("(lambda 7 x)") {
        Err(Error::Parse(ParseError::InvalidLambdaFormals { found, .. })) => {
            assert_eq!(found, "Integer");
        }
        other => panic!("expected InvalidLambdaFormals, got {other:?}"),
    }
}

#[test]
fn conditional_with_and_without_alternate() {
    match parse_one("(if x 1 2)") {
        Expression::Conditional { alternate, .. } => assert!(alternate.is_some()),
        other => panic!("expected a conditional, got {other:?}"),
    }
    match parse_one("(if x 1)") {
        Expression::Conditional { alternate, .. } => assert!(alternate.is_none()),
        other => panic!("expected a conditional, got {other:?}"),
    }
}

#[test]
fn inclusion_collects_files() {
    match parse_one("(include \"a.rm\" \"b.rm\")") {
        Expression::Inclusion { files, .. } => {
            assert_eq!(files, vec!["a.rm".to_string(), "b.rm".to_string()]);
        }
        other => panic!("expected an inclusion, got {other:?}"),
    }
}

#[test]
fn quote_forms_and_datum_lists() {
    match parse_one("`(a 1)") {
        Expression::Literal(Literal::Quotation { q, .. }) => match q {
            Datum::List { l, .. } => {
                let items = l.to_vec();
                assert_eq!(items.len(), 2);
                assert!(matches!(&items[0], Datum::Identifier { id, .. } if id == "a"));
                assert!(matches!(items[1], Datum::Integer { i: 1, .. }));
            }
            other => panic!("expected a datum list, got {other:?}"),
        },
        other => panic!("expected a quotation, got {other:?}"),
    }
    match parse_one("(quote abc)") {
        Expression::Literal(Literal::Quotation { q, .. }) => {
            assert!(matches!(q, Datum::Identifier { id, .. } if id == "abc"));
        }
        other => panic!("expected a quotation, got {other:?}"),
    }
}

#[test]
fn dotted_datum_list_appends_tail() {
    match parse_one("`(1 2 . (3 4))") {
        Expression::Literal(Literal::Quotation { q, .. }) => match q {
            Datum::List { l, .. } => {
                let mut items = l.to_vec();
                assert_eq!(items.len(), 3);
                assert!(matches!(items[0], Datum::Integer { i: 1, .. }));
                assert!(matches!(items[1], Datum::Integer { i: 2, .. }));
                match items.remove(2) {
                    Datum::List { l, .. } => {
                        let tail = l.to_vec();
                        assert_eq!(tail.len(), 2);
                        assert!(matches!(tail[0], Datum::Integer { i: 3, .. }));
                        assert!(matches!(tail[1], Datum::Integer { i: 4, .. }));
                    }
                    other => panic!("expected a tail list, got {other:?}"),
                }
            }
            other => panic!("expected a datum list, got {other:?}"),
        },
        other => panic!("expected a quotation, got {other:?}"),
    }
}

#[test]
fn invalid_datum_is_reported() {
    match parse_source("`let") {
        Err(Error::Parse(ParseError::InvalidDatum { found, .. })) => {
            assert_eq!(found, "let");
        }
        other => panic!("expected InvalidDatum, got {other:?}"),
    }
}

#[test]
fn doc_annotation() {
    match parse_one("(:doc item \"the docs\")") {
        Expression::Annotation(Annotation::DocAnnotation { target, doc, span }) => {
            assert_eq!(target.id, "item");
            assert_eq!(doc, "the docs");
            assert_eq!(span.offset, 0);
        }
        other => panic!("expected a doc annotation, got {other:?}"),
    }
}

#[test]
fn type_annotation_forms() {
    match parse_one("(:type x Integer)") {
        Expression::Annotation(Annotation::TypeAnnotation { target, type_spec, .. }) => {
            assert_eq!(target.id, "x");
            assert!(matches!(type_spec, TypeSpec::Identifier(id) if id.id == "Integer"));
        }
        other => panic!("expected a type annotation, got {other:?}"),
    }
    match parse_one("(:type x Bottom)") {
        Expression::Annotation(Annotation::TypeAnnotation { type_spec, .. }) => {
            assert!(matches!(type_spec, TypeSpec::Constructor(TypeConstructor::Bottom { .. })));
        }
        other => panic!("expected a type annotation, got {other:?}"),
    }
    match parse_one("(:type x (List Integer))") {
        Expression::Annotation(Annotation::TypeAnnotation { type_spec, .. }) => {
            assert!(matches!(type_spec, TypeSpec::Constructor(TypeConstructor::List { .. })));
        }
        other => panic!("expected a type annotation, got {other:?}"),
    }
    match parse_one("(:type f (Function (Integer Integer) (Integer)))") {
        Expression::Annotation(Annotation::TypeAnnotation { type_spec, .. }) => match type_spec {
            TypeSpec::Constructor(TypeConstructor::Function { arguments, values, .. }) => {
                assert_eq!(arguments.len(), 2);
                assert_eq!(values.len(), 1);
            }
            other => panic!("expected a function constructor, got {other:?}"),
        },
        other => panic!("expected a type annotation, got {other:?}"),
    }
}

#[test]
fn unknown_annotation_kind() {
    match parse_source("(:wat x 1)") {
        Err(Error::Parse(ParseError::InvalidAnnotation { found, .. })) => {
            assert_eq!(found, ":wat");
        }
        other => panic!("expected InvalidAnnotation, got {other:?}"),
    }
}

#[test]
fn stray_close_paren_is_invalid_expression() {
    match parse_source(")") {
        Err(Error::Parse(ParseError::InvalidExpression { found, expected, .. })) => {
            assert_eq!(found, ")");
            assert_eq!(expected.len(), 8);
        }
        other => panic!("expected InvalidExpression, got {other:?}"),
    }
}

#[test]
fn missing_close_paren_is_reported_at_eof() {
    match parse_source("(let x 1") {
        Err(Error::Parse(ParseError::UnexpectedToken { found, .. })) => {
            assert_eq!(found, "EndOfFile");
        }
        other => panic!("expected UnexpectedToken, got {other:?}"),
    }
}

#[test]
fn premature_end_inside_expression() {
    match parse_source("(if x") {
        Err(Error::Parse(ParseError::UnexpectedEof { loc })) => {
            // One past the end of the last consumed token.
            assert_eq!(loc, Span { offset: 5, len: 0 });
        }
        other => panic!("expected UnexpectedEof, got {other:?}"),
    }
}

#[test]
fn lex_error_surfaces_through_parsing() {
    match parse_source("(f #x)") {
        Err(Error::Lex(LexError::UnexpectedSymbol { found, .. })) => {
            assert_eq!(found, 'x');
        }
        other => panic!("expected the lexer's error, got {other:?}"),
    }
    // A trailing lex error after well-formed forms still fails the parse.
    match parse_source("42 #x") {
        Err(Error::Lex(LexError::UnexpectedSymbol { .. })) => {}
        other => panic!("expected the lexer's error, got {other:?}"),
    }
}

#[test]
fn cons_list_round_trip() {
    let data = vec![
        Datum::Integer { span: Span { offset: 0, len: 1 }, i: 1 },
        Datum::Boolean { span: Span { offset: 2, len: 2 }, b: true },
    ];
    let copy = vec![
        Datum::Integer { span: Span { offset: 0, len: 1 }, i: 1 },
        Datum::Boolean { span: Span { offset: 2, len: 2 }, b: true },
    ];
    let round = ConsList::from_vec(data).to_vec();
    assert_eq!(round.len(), copy.len());
    assert!(matches!(round[0], Datum::Integer { i: 1, .. }));
    assert!(matches!(round[1], Datum::Boolean { b: true, .. }));
}

#[test]
fn spans_of_token_sequences_are_exact() {
    // `(seq 1 2)` spans [0, 9); its literals sit at 5 and 7.
    match parse_one("(seq 1 2)") {
        Expression::Sequence { span, seq } => {
            assert_eq!(span, Span { offset: 0, len: 9 });
            assert!(matches!(
                &seq[0],
                Expression::Literal(Literal::Integer { span, .. }) if *span == Span { offset: 5, len: 1 }
            ));
            assert!(matches!(
                &seq[1],
                Expression::Literal(Literal::Integer { span, .. }) if *span == Span { offset: 7, len: 1 }
            ));
        }
        other => panic!("expected a sequence, got {other:?}"),
    }
}
