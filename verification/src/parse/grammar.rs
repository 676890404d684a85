//! The grammar as mathematics: a total specification parser over the token
//! sequence. Each executable parse function is proved to return exactly
//! what the corresponding specification production says — the same node,
//! the same next position, or the same error — so success is owed wherever
//! the remaining tokens derive the production, and the returned tree's
//! contents are those of the consumed tokens.

use vstd::prelude::*;

use crate::ast::{
    spec_datum_of_token, spec_literal_of_token, AnnotationV, DatumV, ExpressionV, IdentifierV,
    LiteralV, NamedTypeSpecV, TypeConstructorV, TypeSpecV,
};
use crate::error::{Error, LexError, ParseError};
use crate::span::{spec_combine, Span};
use crate::token::{spec_kind, spec_kind_name, Token, TokenKind};

verus! {

/// A parse error, as a mathematical shape. A lexer error that ended the
/// token stream is carried through as the value it is.
pub enum PErr {
    /// The lexer's terminal error, surfaced by the parser.
    Lex(LexError),
    /// Ran out of tokens where more were needed.
    UnexpectedEof { loc: Span },
    /// Expected specific tokens, found another.
    UnexpectedToken { loc: Span, found: Seq<char>, expected: Seq<Seq<char>> },
    /// A token that cannot start an expression.
    InvalidExpression { loc: Span, found: Seq<char>, expected: Seq<Seq<char>> },
    /// An annotation whose atom is neither `:type` nor `:doc`.
    InvalidAnnotation { loc: Span, found: Seq<char> },
    /// A token that cannot start a datum.
    InvalidDatum { loc: Span, found: Seq<char> },
    /// A token that cannot introduce the formals of a lambda.
    InvalidLambdaFormals { loc: Span, found: Seq<char> },
}

/// What a specification production yields: a parsed value and the position
/// after it, or the error that stops the parse.
pub enum Parsed<T> {
    /// The production derives: its value and the next position.
    Found { v: T, next: int },
    /// The production fails with exactly this error.
    Failed(PErr),
}

/// The shape of an error the parser returns.
pub open spec fn spec_error_view(e: Error) -> PErr {
    match e {
        Error::Lex(le) => PErr::Lex(le),
        Error::Parse(pe) => match pe {
            ParseError::UnexpectedEof { loc } => PErr::UnexpectedEof { loc },
            ParseError::UnexpectedToken { loc, found, expected } => PErr::UnexpectedToken {
                loc,
                found: found@,
                expected: expected@.map_values(|s: String| s@),
            },
            ParseError::InvalidExpression { loc, found, expected } => PErr::InvalidExpression {
                loc,
                found: found@,
                expected: expected@.map_values(|s: String| s@),
            },
            ParseError::InvalidAnnotation { loc, found } => PErr::InvalidAnnotation {
                loc,
                found: found@,
            },
            ParseError::InvalidDatum { loc, found } => PErr::InvalidDatum { loc, found: found@ },
            ParseError::InvalidLambdaFormals { loc, found } => PErr::InvalidLambdaFormals {
                loc,
                found: found@,
            },
        },
    }
}

/// The kind of the next token; `EndOfFile` when none is left.
pub open spec fn p_peek(toks: Seq<Token>, pos: int) -> TokenKind {
    if 0 <= pos < toks.len() {
        spec_kind(toks[pos]@.t)
    } else {
        TokenKind::EndOfFile
    }
}

/// The zero-width location one past the last consumed token.
pub open spec fn p_eof_loc(toks: Seq<Token>, pos: int) -> Span {
    Span {
        offset: (if pos > 0 {
            toks[pos - 1]@.span.offset + toks[pos - 1]@.span.len
        } else {
            0
        }) as usize,
        len: 0,
    }
}

/// The error consuming yields at the end of the stream.
pub open spec fn p_next_err(toks: Seq<Token>, tr: Option<LexError>, pos: int) -> PErr {
    match tr {
        Option::Some(le) => PErr::Lex(le),
        Option::None => PErr::UnexpectedEof { loc: p_eof_loc(toks, pos) },
    }
}

/// The error expecting kind `k` yields when the next token mismatches or
/// the stream has ended.
pub open spec fn p_expect_err(toks: Seq<Token>, tr: Option<LexError>, pos: int, k: TokenKind) -> PErr {
    if pos >= toks.len() {
        match tr {
            Option::Some(le) => PErr::Lex(le),
            Option::None => PErr::UnexpectedToken {
                loc: p_eof_loc(toks, pos),
                found: spec_kind_name(TokenKind::EndOfFile),
                expected: seq![spec_kind_name(k)],
            },
        }
    } else {
        PErr::UnexpectedToken {
            loc: toks[pos]@.span,
            found: spec_kind_name(spec_kind(toks[pos]@.t)),
            expected: seq![spec_kind_name(k)],
        }
    }
}

/// Whether a token kind is a scalar literal.
pub open spec fn is_literal_kind(k: TokenKind) -> bool {
    ||| k == TokenKind::Boolean
    ||| k == TokenKind::Integer
    ||| k == TokenKind::Float
    ||| k == TokenKind::Character
    ||| k == TokenKind::String
    ||| k == TokenKind::Atom
}

/// The names of the tokens that can start an expression.
pub open spec fn spec_expression_start_names() -> Seq<Seq<char>> {
    seq![
        "Identifier"@,
        "Boolean"@,
        "Integer"@,
        "Float"@,
        "Character"@,
        "String"@,
        "Atom"@,
        "("@,
    ]
}

/// The names of the tokens that can follow an opening parenthesis.
pub open spec fn spec_paren_head_names() -> Seq<Seq<char>> {
    seq!["Atom"@, "Keyword"@, "Identifier"@]
}

/// The names of the tokens that can start a type specification.
pub open spec fn spec_type_spec_start_names() -> Seq<Seq<char>> {
    seq![
        spec_kind_name(TokenKind::Identifier),
        spec_kind_name(TokenKind::TypeKwBottom),
        spec_kind_name(TokenKind::LeftParen),
    ]
}

/// The names of the type constructors.
pub open spec fn spec_ctor_head_names() -> Seq<Seq<char>> {
    seq![
        spec_kind_name(TokenKind::TypeKwTuple),
        spec_kind_name(TokenKind::TypeKwList),
        spec_kind_name(TokenKind::TypeKwVector),
        spec_kind_name(TokenKind::TypeKwFunction),
        spec_kind_name(TokenKind::TypeKwSum),
        spec_kind_name(TokenKind::TypeKwProduct),
    ]
}

/// A placeholder failure for specification branches that a proved position
/// bound makes unreachable.
pub open spec fn p_stuck() -> PErr {
    PErr::UnexpectedEof { loc: Span { offset: 0, len: 0 } }
}

/// Parse any expression at `pos`.
pub open spec fn p_expression(toks: Seq<Token>, tr: Option<LexError>, pos: int) -> Parsed<
    ExpressionV,
>
    decreases toks.len() - pos, 0int when 0 <= pos <= toks.len()
{
    if pos >= toks.len() {
        Parsed::Failed(p_next_err(toks, tr, pos))
    } else {
        let t = toks[pos]@;
        let k = spec_kind(t.t);
        if k == TokenKind::Identifier {
            Parsed::Found {
                v: ExpressionV::Identifier(
                    IdentifierV { span: t.span, id: t.t->Identifier_0 },
                ),
                next: pos + 1,
            }
        } else if is_literal_kind(k) {
            Parsed::Found { v: ExpressionV::Literal(spec_literal_of_token(t)), next: pos + 1 }
        } else if k == TokenKind::Backtick {
            match p_shorthand_quote(toks, tr, pos + 1, t.span) {
                Parsed::Found { v, next } => Parsed::Found { v: ExpressionV::Literal(v), next },
                Parsed::Failed(e) => Parsed::Failed(e),
            }
        } else if k == TokenKind::LeftParen {
            p_parenthesized(toks, tr, pos + 1, t.span)
        } else {
            Parsed::Failed(
                PErr::InvalidExpression {
                    loc: t.span,
                    found: spec_kind_name(k),
                    expected: spec_expression_start_names(),
                },
            )
        }
    }
}

/// Parse what follows an already-consumed `(` at `pos - 1`.
pub open spec fn p_parenthesized(
    toks: Seq<Token>,
    tr: Option<LexError>,
    pos: int,
    initial_span: Span,
) -> Parsed<ExpressionV>
    decreases toks.len() - pos, 1int when 0 <= pos <= toks.len()
{
    if pos >= toks.len() {
        Parsed::Failed(p_next_err(toks, tr, pos))
    } else {
        let t = toks[pos]@;
        let k = spec_kind(t.t);
        let span = spec_combine(initial_span, t.span);
        if k == TokenKind::Atom {
            match p_annotation(toks, tr, pos + 1, span, t.t->Atom_0) {
                Parsed::Found { v, next } => Parsed::Found {
                    v: ExpressionV::Annotation(v),
                    next,
                },
                Parsed::Failed(e) => Parsed::Failed(e),
            }
        } else if k == TokenKind::Identifier {
            p_call(
                toks,
                tr,
                pos + 1,
                span,
                IdentifierV { span: t.span, id: t.t->Identifier_0 },
                Seq::empty(),
            )
        } else if k == TokenKind::KwQuote {
            match p_quote(toks, tr, pos + 1, span) {
                Parsed::Found { v, next } => Parsed::Found { v: ExpressionV::Literal(v), next },
                Parsed::Failed(e) => Parsed::Failed(e),
            }
        } else if k == TokenKind::KwLet {
            p_definition(toks, tr, pos + 1, span)
        } else if k == TokenKind::KwSeq {
            p_sequence(toks, tr, pos + 1, span)
        } else if k == TokenKind::KwLambda {
            p_lambda(toks, tr, pos + 1, span)
        } else if k == TokenKind::KwIf {
            p_conditional(toks, tr, pos + 1, span)
        } else if k == TokenKind::KwInclude {
            p_inclusion(toks, tr, pos + 1, span)
        } else {
            Parsed::Failed(
                PErr::UnexpectedToken {
                    loc: t.span,
                    found: spec_kind_name(k),
                    expected: spec_paren_head_names(),
                },
            )
        }
    }
}

/// Parse the operands of a call up to and including the closing `)`.
pub open spec fn p_call(
    toks: Seq<Token>,
    tr: Option<LexError>,
    pos: int,
    span: Span,
    operator: IdentifierV,
    acc: Seq<ExpressionV>,
) -> Parsed<ExpressionV>
    decreases toks.len() - pos, 2int when 0 <= pos <= toks.len()
{
    if p_peek(toks, pos) == TokenKind::RightParen {
        Parsed::Found {
            v: ExpressionV::ProcedureCall {
                span: spec_combine(span, toks[pos]@.span),
                operator,
                operands: acc,
            },
            next: pos + 1,
        }
    } else {
        match p_expression(toks, tr, pos) {
            Parsed::Failed(e) => Parsed::Failed(e),
            Parsed::Found { v, next } => if pos < next <= toks.len() {
                p_call(
                    toks,
                    tr,
                    next,
                    spec_combine(span, toks[next - 1]@.span),
                    operator,
                    acc.push(v),
                )
            } else {
                Parsed::Failed(p_stuck())
            },
        }
    }
}

/// Parse a definition after `(` and `let`.
pub open spec fn p_definition(
    toks: Seq<Token>,
    tr: Option<LexError>,
    pos: int,
    span: Span,
) -> Parsed<ExpressionV>
    decreases toks.len() - pos, 2int when 0 <= pos <= toks.len()
{
    if !(pos < toks.len() && spec_kind(toks[pos]@.t) == TokenKind::Identifier) {
        Parsed::Failed(p_expect_err(toks, tr, pos, TokenKind::Identifier))
    } else {
        let target_tok = toks[pos]@;
        let span1 = spec_combine(span, target_tok.span);
        match p_expression(toks, tr, pos + 1) {
            Parsed::Failed(e) => Parsed::Failed(e),
            Parsed::Found { v, next } => if pos + 1 < next <= toks.len() {
                let span2 = spec_combine(span1, toks[next - 1]@.span);
                if !(next < toks.len() && spec_kind(toks[next]@.t) == TokenKind::RightParen) {
                    Parsed::Failed(p_expect_err(toks, tr, next, TokenKind::RightParen))
                } else {
                    Parsed::Found {
                        v: ExpressionV::Definition {
                            span: spec_combine(span2, toks[next]@.span),
                            target: IdentifierV {
                                span: target_tok.span,
                                id: target_tok.t->Identifier_0,
                            },
                            value: Box::new(v),
                        },
                        next: next + 1,
                    }
                }
            } else {
                Parsed::Failed(p_stuck())
            },
        }
    }
}

/// Parse the remaining expressions of a sequence up to and including the
/// closing `)`.
pub open spec fn p_sequence_rest(
    toks: Seq<Token>,
    tr: Option<LexError>,
    pos: int,
    span: Span,
    acc: Seq<ExpressionV>,
) -> Parsed<ExpressionV>
    decreases toks.len() - pos, 1int when 0 <= pos <= toks.len()
{
    if p_peek(toks, pos) == TokenKind::RightParen {
        Parsed::Found {
            v: ExpressionV::Sequence { span: spec_combine(span, toks[pos]@.span), seq: acc },
            next: pos + 1,
        }
    } else {
        match p_expression(toks, tr, pos) {
            Parsed::Failed(e) => Parsed::Failed(e),
            Parsed::Found { v, next } => if pos < next <= toks.len() {
                p_sequence_rest(
                    toks,
                    tr,
                    next,
                    spec_combine(span, toks[next - 1]@.span),
                    acc.push(v),
                )
            } else {
                Parsed::Failed(p_stuck())
            },
        }
    }
}

/// Parse a sequence after `(` and the sequence keyword: one expression,
/// then the rest.
pub open spec fn p_sequence(toks: Seq<Token>, tr: Option<LexError>, pos: int, span: Span) -> Parsed<
    ExpressionV,
>
    decreases toks.len() - pos, 2int when 0 <= pos <= toks.len()
{
    match p_expression(toks, tr, pos) {
        Parsed::Failed(e) => Parsed::Failed(e),
        Parsed::Found { v, next } => if pos < next <= toks.len() {
            p_sequence_rest(
                toks,
                tr,
                next,
                spec_combine(span, toks[next - 1]@.span),
                seq![v],
            )
        } else {
            Parsed::Failed(p_stuck())
        },
    }
}

/// Parse parenthesized lambda formals up to and including their `)`, then
/// the body.
pub open spec fn p_formals(
    toks: Seq<Token>,
    tr: Option<LexError>,
    pos: int,
    span: Span,
    acc: Seq<IdentifierV>,
) -> Parsed<ExpressionV>
    decreases toks.len() - pos, 2int when 0 <= pos <= toks.len()
{
    if p_peek(toks, pos) == TokenKind::RightParen {
        p_lambda_body(toks, tr, pos + 1, spec_combine(span, toks[pos]@.span), acc, Seq::empty())
    } else if !(pos < toks.len() && spec_kind(toks[pos]@.t) == TokenKind::Identifier) {
        Parsed::Failed(p_expect_err(toks, tr, pos, TokenKind::Identifier))
    } else {
        let t = toks[pos]@;
        p_formals(
            toks,
            tr,
            pos + 1,
            spec_combine(span, t.span),
            acc.push(IdentifierV { span: t.span, id: t.t->Identifier_0 }),
        )
    }
}

/// Parse the body of a lambda up to and including the closing `)`.
pub open spec fn p_lambda_body(
    toks: Seq<Token>,
    tr: Option<LexError>,
    pos: int,
    span: Span,
    formals: Seq<IdentifierV>,
    acc: Seq<ExpressionV>,
) -> Parsed<ExpressionV>
    decreases toks.len() - pos, 1int when 0 <= pos <= toks.len()
{
    if p_peek(toks, pos) == TokenKind::RightParen {
        Parsed::Found {
            v: ExpressionV::LambdaExpression {
                span: spec_combine(span, toks[pos]@.span),
                formals,
                body: acc,
            },
            next: pos + 1,
        }
    } else {
        match p_expression(toks, tr, pos) {
            Parsed::Failed(e) => Parsed::Failed(e),
            Parsed::Found { v, next } => if pos < next <= toks.len() {
                p_lambda_body(
                    toks,
                    tr,
                    next,
                    spec_combine(span, toks[next - 1]@.span),
                    formals,
                    acc.push(v),
                )
            } else {
                Parsed::Failed(p_stuck())
            },
        }
    }
}

/// Parse a lambda after `(` and `lambda`: one identifier or a
/// parenthesized identifier list, then the body.
pub open spec fn p_lambda(toks: Seq<Token>, tr: Option<LexError>, pos: int, span: Span) -> Parsed<
    ExpressionV,
>
    decreases toks.len() - pos, 3int when 0 <= pos <= toks.len()
{
    if pos >= toks.len() {
        Parsed::Failed(p_next_err(toks, tr, pos))
    } else {
        let t = toks[pos]@;
        let k = spec_kind(t.t);
        let span1 = spec_combine(span, t.span);
        if k == TokenKind::Identifier {
            p_lambda_body(
                toks,
                tr,
                pos + 1,
                span1,
                seq![IdentifierV { span: t.span, id: t.t->Identifier_0 }],
                Seq::empty(),
            )
        } else if k == TokenKind::LeftParen {
            p_formals(toks, tr, pos + 1, span1, Seq::empty())
        } else {
            Parsed::Failed(
                PErr::InvalidLambdaFormals { loc: t.span, found: spec_kind_name(k) },
            )
        }
    }
}

/// Parse a conditional after `(` and `if`.
pub open spec fn p_conditional(
    toks: Seq<Token>,
    tr: Option<LexError>,
    pos: int,
    span: Span,
) -> Parsed<ExpressionV>
    decreases toks.len() - pos, 2int when 0 <= pos <= toks.len()
{
    match p_expression(toks, tr, pos) {
        Parsed::Failed(e) => Parsed::Failed(e),
        Parsed::Found { v: test, next: pos1 } => if pos < pos1 <= toks.len() {
            let span1 = spec_combine(span, toks[pos1 - 1]@.span);
            match p_expression(toks, tr, pos1) {
                Parsed::Failed(e) => Parsed::Failed(e),
                Parsed::Found { v: consequent, next: pos2 } => if pos1 < pos2 <= toks.len() {
                    let span2 = spec_combine(span1, toks[pos2 - 1]@.span);
                    if p_peek(toks, pos2) == TokenKind::RightParen {
                        Parsed::Found {
                            v: ExpressionV::Conditional {
                                span: spec_combine(span2, toks[pos2]@.span),
                                test: Box::new(test),
                                consequent: Box::new(consequent),
                                alternate: Option::None,
                            },
                            next: pos2 + 1,
                        }
                    } else {
                        match p_expression(toks, tr, pos2) {
                            Parsed::Failed(e) => Parsed::Failed(e),
                            Parsed::Found { v: alternate, next: pos3 } => if pos2 < pos3
                                <= toks.len() {
                                let span3 = spec_combine(span2, toks[pos3 - 1]@.span);
                                if !(pos3 < toks.len() && spec_kind(toks[pos3]@.t)
                                    == TokenKind::RightParen) {
                                    Parsed::Failed(
                                        p_expect_err(toks, tr, pos3, TokenKind::RightParen),
                                    )
                                } else {
                                    Parsed::Found {
                                        v: ExpressionV::Conditional {
                                            span: spec_combine(span3, toks[pos3]@.span),
                                            test: Box::new(test),
                                            consequent: Box::new(consequent),
                                            alternate: Option::Some(Box::new(alternate)),
                                        },
                                        next: pos3 + 1,
                                    }
                                }
                            } else {
                                Parsed::Failed(p_stuck())
                            },
                        }
                    }
                } else {
                    Parsed::Failed(p_stuck())
                },
            }
        } else {
            Parsed::Failed(p_stuck())
        },
    }
}

/// Parse the remaining file names of an inclusion up to and including the
/// closing `)`.
pub open spec fn p_inclusion_rest(
    toks: Seq<Token>,
    tr: Option<LexError>,
    pos: int,
    span: Span,
    acc: Seq<Seq<char>>,
) -> Parsed<ExpressionV>
    decreases toks.len() - pos, 1int when 0 <= pos <= toks.len()
{
    if p_peek(toks, pos) == TokenKind::RightParen {
        Parsed::Found {
            v: ExpressionV::Inclusion { span: spec_combine(span, toks[pos]@.span), files: acc },
            next: pos + 1,
        }
    } else if !(pos < toks.len() && spec_kind(toks[pos]@.t) == TokenKind::String) {
        Parsed::Failed(p_expect_err(toks, tr, pos, TokenKind::String))
    } else {
        let t = toks[pos]@;
        p_inclusion_rest(
            toks,
            tr,
            pos + 1,
            spec_combine(span, t.span),
            acc.push(t.t->String_0),
        )
    }
}

/// Parse an inclusion after `(` and `include`: one file name, then the
/// rest.
pub open spec fn p_inclusion(toks: Seq<Token>, tr: Option<LexError>, pos: int, span: Span) -> Parsed<
    ExpressionV,
>
    decreases toks.len() - pos, 2int when 0 <= pos <= toks.len()
{
    if !(pos < toks.len() && spec_kind(toks[pos]@.t) == TokenKind::String) {
        Parsed::Failed(p_expect_err(toks, tr, pos, TokenKind::String))
    } else {
        let t = toks[pos]@;
        p_inclusion_rest(
            toks,
            tr,
            pos + 1,
            spec_combine(span, t.span),
            seq![t.t->String_0],
        )
    }
}

/// Parse a shorthand quote after the backtick.
pub open spec fn p_shorthand_quote(
    toks: Seq<Token>,
    tr: Option<LexError>,
    pos: int,
    initial_span: Span,
) -> Parsed<LiteralV>
    decreases toks.len() - pos, 1int when 0 <= pos <= toks.len()
{
    match p_datum(toks, tr, pos) {
        Parsed::Failed(e) => Parsed::Failed(e),
        Parsed::Found { v, next } => Parsed::Found {
            v: LiteralV::Quotation { span: spec_combine(initial_span, v.1), q: v.0 },
            next,
        },
    }
}

/// Parse a quote after `(` and `quote`.
pub open spec fn p_quote(toks: Seq<Token>, tr: Option<LexError>, pos: int, span: Span) -> Parsed<
    LiteralV,
>
    decreases toks.len() - pos, 1int when 0 <= pos <= toks.len()
{
    match p_datum(toks, tr, pos) {
        Parsed::Failed(e) => Parsed::Failed(e),
        Parsed::Found { v, next } => {
            let span1 = spec_combine(span, v.1);
            if !(next < toks.len() && spec_kind(toks[next]@.t) == TokenKind::RightParen) {
                Parsed::Failed(p_expect_err(toks, tr, next, TokenKind::RightParen))
            } else {
                Parsed::Found {
                    v: LiteralV::Quotation { span: spec_combine(span1, toks[next]@.span), q: v.0 },
                    next: next + 1,
                }
            }
        },
    }
}

/// Parse a datum at `pos`, yielding it alongside its span.
pub open spec fn p_datum(toks: Seq<Token>, tr: Option<LexError>, pos: int) -> Parsed<
    (DatumV, Span),
>
    decreases toks.len() - pos, 0int when 0 <= pos <= toks.len()
{
    if pos >= toks.len() {
        Parsed::Failed(p_next_err(toks, tr, pos))
    } else {
        let t = toks[pos]@;
        let k = spec_kind(t.t);
        if k == TokenKind::Identifier || is_literal_kind(k) {
            Parsed::Found { v: (spec_datum_of_token(t), t.span), next: pos + 1 }
        } else if k == TokenKind::LeftParen {
            match p_datum_list(toks, tr, pos + 1, t.span, Seq::empty()) {
                Parsed::Failed(e) => Parsed::Failed(e),
                Parsed::Found { v, next } => Parsed::Found {
                    v: (DatumV::List { span: v.1, l: v.0 }, v.1),
                    next,
                },
            }
        } else {
            Parsed::Failed(PErr::InvalidDatum { loc: t.span, found: spec_kind_name(k) })
        }
    }
}

/// Parse a datum list after its `(`: `<datum>*` or a dotted tail, up to
/// and including the closing `)`.
pub open spec fn p_datum_list(
    toks: Seq<Token>,
    tr: Option<LexError>,
    pos: int,
    span: Span,
    acc: Seq<DatumV>,
) -> Parsed<(Seq<DatumV>, Span)>
    decreases toks.len() - pos, 1int when 0 <= pos <= toks.len()
{
    if acc.len() == 0 && p_peek(toks, pos) == TokenKind::RightParen {
        Parsed::Found { v: (acc, spec_combine(span, toks[pos]@.span)), next: pos + 1 }
    } else {
        match p_datum(toks, tr, pos) {
            Parsed::Failed(e) => Parsed::Failed(e),
            Parsed::Found { v, next } => if pos < next <= toks.len() {
                let span1 = spec_combine(span, v.1);
                let acc1 = acc.push(v.0);
                if p_peek(toks, next) == TokenKind::RightParen {
                    Parsed::Found {
                        v: (acc1, spec_combine(span1, toks[next]@.span)),
                        next: next + 1,
                    }
                } else if p_peek(toks, next) == TokenKind::Period {
                    let span2 = spec_combine(span1, toks[next]@.span);
                    if !(next + 1 < toks.len() && spec_kind(toks[next + 1]@.t)
                        == TokenKind::LeftParen) {
                        Parsed::Failed(p_expect_err(toks, tr, next + 1, TokenKind::LeftParen))
                    } else {
                        let lp = toks[next + 1]@;
                        let span3 = spec_combine(span2, lp.span);
                        match p_datum_list(toks, tr, next + 2, lp.span, Seq::empty()) {
                            Parsed::Failed(e) => Parsed::Failed(e),
                            Parsed::Found { v: rec, next: pos4 } => {
                                let acc2 = acc1.push(DatumV::List { span: rec.1, l: rec.0 });
                                let span4 = spec_combine(span3, rec.1);
                                if !(pos4 < toks.len() && spec_kind(toks[pos4]@.t)
                                    == TokenKind::RightParen) {
                                    Parsed::Failed(
                                        p_expect_err(toks, tr, pos4, TokenKind::RightParen),
                                    )
                                } else {
                                    Parsed::Found {
                                        v: (acc2, spec_combine(span4, toks[pos4]@.span)),
                                        next: pos4 + 1,
                                    }
                                }
                            },
                        }
                    }
                } else {
                    p_datum_list(toks, tr, next, span1, acc1)
                }
            } else {
                Parsed::Failed(p_stuck())
            },
        }
    }
}

/// Parse an annotation after `(` and its atom.
pub open spec fn p_annotation(
    toks: Seq<Token>,
    tr: Option<LexError>,
    pos: int,
    span: Span,
    atom_text: Seq<char>,
) -> Parsed<AnnotationV>
    decreases toks.len() - pos, 4int when 0 <= pos <= toks.len()
{
    if atom_text == ":type"@ {
        p_type_annotation(toks, tr, pos, span)
    } else if atom_text == ":doc"@ {
        p_doc_annotation(toks, tr, pos, span)
    } else {
        Parsed::Failed(PErr::InvalidAnnotation { loc: span, found: atom_text })
    }
}

/// Parse a doc annotation after `(` and `:doc`.
pub open spec fn p_doc_annotation(
    toks: Seq<Token>,
    tr: Option<LexError>,
    pos: int,
    span: Span,
) -> Parsed<AnnotationV>
    decreases toks.len() - pos, 2int when 0 <= pos <= toks.len()
{
    if !(pos < toks.len() && spec_kind(toks[pos]@.t) == TokenKind::Identifier) {
        Parsed::Failed(p_expect_err(toks, tr, pos, TokenKind::Identifier))
    } else {
        let target_tok = toks[pos]@;
        let span1 = spec_combine(span, target_tok.span);
        if !(pos + 1 < toks.len() && spec_kind(toks[pos + 1]@.t) == TokenKind::String) {
            Parsed::Failed(p_expect_err(toks, tr, pos + 1, TokenKind::String))
        } else {
            let doc_tok = toks[pos + 1]@;
            let span2 = spec_combine(span1, doc_tok.span);
            if !(pos + 2 < toks.len() && spec_kind(toks[pos + 2]@.t) == TokenKind::RightParen) {
                Parsed::Failed(p_expect_err(toks, tr, pos + 2, TokenKind::RightParen))
            } else {
                Parsed::Found {
                    v: AnnotationV::DocAnnotation {
                        span: spec_combine(span2, toks[pos + 2]@.span),
                        target: IdentifierV {
                            span: target_tok.span,
                            id: target_tok.t->Identifier_0,
                        },
                        doc: doc_tok.t->String_0,
                    },
                    next: pos + 3,
                }
            }
        }
    }
}

/// Parse a type annotation after `(` and `:type`.
pub open spec fn p_type_annotation(
    toks: Seq<Token>,
    tr: Option<LexError>,
    pos: int,
    span: Span,
) -> Parsed<AnnotationV>
    decreases toks.len() - pos, 3int when 0 <= pos <= toks.len()
{
    if !(pos < toks.len() && spec_kind(toks[pos]@.t) == TokenKind::Identifier) {
        Parsed::Failed(p_expect_err(toks, tr, pos, TokenKind::Identifier))
    } else {
        let target_tok = toks[pos]@;
        let span1 = spec_combine(span, target_tok.span);
        match p_type_spec(toks, tr, pos + 1) {
            Parsed::Failed(e) => Parsed::Failed(e),
            Parsed::Found { v, next } => if pos + 1 < next <= toks.len() {
                let span2 = spec_combine(span1, v.1);
                if !(next < toks.len() && spec_kind(toks[next]@.t) == TokenKind::RightParen) {
                    Parsed::Failed(p_expect_err(toks, tr, next, TokenKind::RightParen))
                } else {
                    Parsed::Found {
                        v: AnnotationV::TypeAnnotation {
                            span: spec_combine(span2, toks[next]@.span),
                            target: IdentifierV {
                                span: target_tok.span,
                                id: target_tok.t->Identifier_0,
                            },
                            type_spec: v.0,
                        },
                        next: next + 1,
                    }
                }
            } else {
                Parsed::Failed(p_stuck())
            },
        }
    }
}

/// Parse a type specification, yielding it alongside its span.
pub open spec fn p_type_spec(toks: Seq<Token>, tr: Option<LexError>, pos: int) -> Parsed<
    (TypeSpecV, Span),
>
    decreases toks.len() - pos, 0int when 0 <= pos <= toks.len()
{
    if pos >= toks.len() {
        Parsed::Failed(p_next_err(toks, tr, pos))
    } else {
        let t = toks[pos]@;
        let k = spec_kind(t.t);
        if k == TokenKind::Identifier {
            Parsed::Found {
                v: (
                    TypeSpecV::Identifier(IdentifierV { span: t.span, id: t.t->Identifier_0 }),
                    t.span,
                ),
                next: pos + 1,
            }
        } else if k == TokenKind::TypeKwBottom {
            Parsed::Found {
                v: (TypeSpecV::Constructor(TypeConstructorV::Bottom { span: t.span }), t.span),
                next: pos + 1,
            }
        } else if k == TokenKind::LeftParen {
            match p_type_ctor(toks, tr, pos + 1, t.span) {
                Parsed::Failed(e) => Parsed::Failed(e),
                Parsed::Found { v, next } => Parsed::Found {
                    v: (TypeSpecV::Constructor(v.0), v.1),
                    next,
                },
            }
        } else {
            Parsed::Failed(
                PErr::UnexpectedToken {
                    loc: t.span,
                    found: spec_kind_name(k),
                    expected: spec_type_spec_start_names(),
                },
            )
        }
    }
}

/// Parse type specifications up to and including a closing `)`.
pub open spec fn p_ts_list(
    toks: Seq<Token>,
    tr: Option<LexError>,
    pos: int,
    span: Span,
    acc: Seq<TypeSpecV>,
) -> Parsed<(Seq<TypeSpecV>, Span)>
    decreases toks.len() - pos, 1int when 0 <= pos <= toks.len()
{
    if p_peek(toks, pos) == TokenKind::RightParen {
        Parsed::Found { v: (acc, spec_combine(span, toks[pos]@.span)), next: pos + 1 }
    } else {
        match p_type_spec(toks, tr, pos) {
            Parsed::Failed(e) => Parsed::Failed(e),
            Parsed::Found { v, next } => if pos < next <= toks.len() {
                p_ts_list(toks, tr, next, spec_combine(span, v.1), acc.push(v.0))
            } else {
                Parsed::Failed(p_stuck())
            },
        }
    }
}

/// Parse named fields up to and including a closing `)`.
pub open spec fn p_named_list(
    toks: Seq<Token>,
    tr: Option<LexError>,
    pos: int,
    span: Span,
    acc: Seq<NamedTypeSpecV>,
) -> Parsed<(Seq<NamedTypeSpecV>, Span)>
    decreases toks.len() - pos, 2int when 0 <= pos <= toks.len()
{
    if p_peek(toks, pos) == TokenKind::RightParen {
        Parsed::Found { v: (acc, spec_combine(span, toks[pos]@.span)), next: pos + 1 }
    } else if !(pos < toks.len() && spec_kind(toks[pos]@.t) == TokenKind::LeftParen) {
        Parsed::Failed(p_expect_err(toks, tr, pos, TokenKind::LeftParen))
    } else {
        let lp = toks[pos]@;
        let span1 = spec_combine(span, lp.span);
        if pos + 1 >= toks.len() {
            Parsed::Failed(p_next_err(toks, tr, pos + 1))
        } else {
            let name_tok = toks[pos + 1]@;
            let nk = spec_kind(name_tok.t);
            if !is_literal_kind(nk) {
                Parsed::Failed(
                    PErr::InvalidDatum { loc: name_tok.span, found: spec_kind_name(nk) },
                )
            } else {
                let span2 = spec_combine(span1, name_tok.span);
                let field1 = spec_combine(lp.span, name_tok.span);
                if p_peek(toks, pos + 2) != TokenKind::RightParen {
                    match p_type_spec(toks, tr, pos + 2) {
                        Parsed::Failed(e) => Parsed::Failed(e),
                        Parsed::Found { v, next } => if pos + 2 < next <= toks.len() {
                            let span3 = spec_combine(span2, v.1);
                            let field2 = spec_combine(field1, v.1);
                            if !(next < toks.len() && spec_kind(toks[next]@.t)
                                == TokenKind::RightParen) {
                                Parsed::Failed(p_expect_err(toks, tr, next, TokenKind::RightParen))
                            } else {
                                p_named_list(
                                    toks,
                                    tr,
                                    next + 1,
                                    spec_combine(span3, toks[next]@.span),
                                    acc.push(
                                        NamedTypeSpecV {
                                            span: spec_combine(field2, toks[next]@.span),
                                            name: spec_literal_of_token(name_tok),
                                            type_spec: Option::Some(v.0),
                                        },
                                    ),
                                )
                            }
                        } else {
                            Parsed::Failed(p_stuck())
                        },
                    }
                } else {
                    let rp = toks[pos + 2]@;
                    p_named_list(
                        toks,
                        tr,
                        pos + 3,
                        spec_combine(span2, rp.span),
                        acc.push(
                            NamedTypeSpecV {
                                span: spec_combine(field1, rp.span),
                                name: spec_literal_of_token(name_tok),
                                type_spec: Option::None,
                            },
                        ),
                    )
                }
            }
        }
    }
}

/// Parse a parenthesized type constructor after its `(`.
pub open spec fn p_type_ctor(toks: Seq<Token>, tr: Option<LexError>, pos: int, initial: Span) -> Parsed<
    (TypeConstructorV, Span),
>
    decreases toks.len() - pos, 3int when 0 <= pos <= toks.len()
{
    if pos >= toks.len() {
        Parsed::Failed(p_next_err(toks, tr, pos))
    } else {
        let head = toks[pos]@;
        let k = spec_kind(head.t);
        let span = spec_combine(initial, head.span);
        if k == TokenKind::TypeKwTuple {
            match p_ts_list(toks, tr, pos + 1, span, Seq::empty()) {
                Parsed::Failed(e) => Parsed::Failed(e),
                Parsed::Found { v, next } => Parsed::Found {
                    v: (TypeConstructorV::Tuple { span: v.1, fields: v.0 }, v.1),
                    next,
                },
            }
        } else if k == TokenKind::TypeKwList || k == TokenKind::TypeKwVector {
            match p_type_spec(toks, tr, pos + 1) {
                Parsed::Failed(e) => Parsed::Failed(e),
                Parsed::Found { v, next } => if pos + 1 < next <= toks.len() {
                    let span1 = spec_combine(span, v.1);
                    if !(next < toks.len() && spec_kind(toks[next]@.t) == TokenKind::RightParen) {
                        Parsed::Failed(p_expect_err(toks, tr, next, TokenKind::RightParen))
                    } else {
                        let whole = spec_combine(span1, toks[next]@.span);
                        let ctor = if k == TokenKind::TypeKwList {
                            TypeConstructorV::List { span: whole, t: Box::new(v.0) }
                        } else {
                            TypeConstructorV::Vector { span: whole, t: Box::new(v.0) }
                        };
                        Parsed::Found { v: (ctor, whole), next: next + 1 }
                    }
                } else {
                    Parsed::Failed(p_stuck())
                },
            }
        } else if k == TokenKind::TypeKwFunction {
            if !(pos + 1 < toks.len() && spec_kind(toks[pos + 1]@.t) == TokenKind::LeftParen) {
                Parsed::Failed(p_expect_err(toks, tr, pos + 1, TokenKind::LeftParen))
            } else {
                let span1 = spec_combine(span, toks[pos + 1]@.span);
                match p_ts_list(toks, tr, pos + 2, span1, Seq::empty()) {
                    Parsed::Failed(e) => Parsed::Failed(e),
                    Parsed::Found { v: args, next: pos2 } => if pos + 2 <= pos2 <= toks.len() {
                        if !(pos2 < toks.len() && spec_kind(toks[pos2]@.t)
                            == TokenKind::LeftParen) {
                            Parsed::Failed(p_expect_err(toks, tr, pos2, TokenKind::LeftParen))
                        } else {
                            let span2 = spec_combine(args.1, toks[pos2]@.span);
                            match p_ts_list(toks, tr, pos2 + 1, span2, Seq::empty()) {
                                Parsed::Failed(e) => Parsed::Failed(e),
                                Parsed::Found { v: vals, next: pos3 } => if pos2 + 1 <= pos3
                                    <= toks.len() {
                                    if !(pos3 < toks.len() && spec_kind(toks[pos3]@.t)
                                        == TokenKind::RightParen) {
                                        Parsed::Failed(
                                            p_expect_err(toks, tr, pos3, TokenKind::RightParen),
                                        )
                                    } else {
                                        let whole = spec_combine(vals.1, toks[pos3]@.span);
                                        Parsed::Found {
                                            v: (
                                                TypeConstructorV::Function {
                                                    span: whole,
                                                    arguments: args.0,
                                                    values: vals.0,
                                                },
                                                whole,
                                            ),
                                            next: pos3 + 1,
                                        }
                                    }
                                } else {
                                    Parsed::Failed(p_stuck())
                                },
                            }
                        }
                    } else {
                        Parsed::Failed(p_stuck())
                    },
                }
            }
        } else if k == TokenKind::TypeKwSum || k == TokenKind::TypeKwProduct {
            match p_named_list(toks, tr, pos + 1, span, Seq::empty()) {
                Parsed::Failed(e) => Parsed::Failed(e),
                Parsed::Found { v, next } => {
                    let ctor = if k == TokenKind::TypeKwSum {
                        TypeConstructorV::Sum { span: v.1, fields: v.0 }
                    } else {
                        TypeConstructorV::Product { span: v.1, fields: v.0 }
                    };
                    Parsed::Found { v: (ctor, v.1), next }
                },
            }
        } else {
            Parsed::Failed(
                PErr::UnexpectedToken {
                    loc: head.span,
                    found: spec_kind_name(k),
                    expected: spec_ctor_head_names(),
                },
            )
        }
    }
}

/// Parse a whole program: expressions to the end of the tokens, then the
/// lexer's trailing error if one ended the stream.
pub open spec fn p_program(
    toks: Seq<Token>,
    tr: Option<LexError>,
    pos: int,
    acc: Seq<ExpressionV>,
) -> Parsed<Seq<ExpressionV>>
    decreases toks.len() - pos, 1int when 0 <= pos <= toks.len()
{
    if pos >= toks.len() {
        match tr {
            Option::Some(le) => Parsed::Failed(PErr::Lex(le)),
            Option::None => Parsed::Found { v: acc, next: pos },
        }
    } else {
        match p_expression(toks, tr, pos) {
            Parsed::Failed(e) => Parsed::Failed(e),
            Parsed::Found { v, next } => if pos < next <= toks.len() {
                p_program(toks, tr, next, acc.push(v))
            } else {
                Parsed::Failed(p_stuck())
            },
        }
    }
}

} // verus!
