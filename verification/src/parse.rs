//! The parser: recursive descent over the token sequence with one-token
//! lookahead, producing a [`Program`] or the first error.
//!
//! Every parse function's contract states span coverage: the span of a
//! parsed node is exactly the region from the start of the first token it
//! consumed to the end of the last.

mod annotation;
pub mod grammar;
mod quote;

use vstd::prelude::*;

use crate::ast;
use crate::ast::{Expression, Identifier, Literal, Program};
use crate::error::{Error, LexError, ParseError};
use crate::lex::Lexer;
use crate::span::Span;
use crate::parse::grammar::{
    p_call, p_conditional, p_definition, p_eof_loc, p_expect_err, p_expression, p_formals,
    p_inclusion, p_inclusion_rest, p_lambda, p_lambda_body, p_next_err, p_parenthesized, p_peek,
    p_program, p_sequence, p_sequence_rest, spec_error_view, Parsed,
};
use crate::span::spec_combine;
use crate::token::{kind_name, spec_kind, spec_kind_name, Token, TokenKind, TokenType};

verus! {

/// Token spans sit in source order: each token ends at or before the next
/// one starts.
pub open spec fn spans_ordered(toks: Seq<Token>) -> bool {
    forall|i: int, j: int|
        0 <= i < j < toks.len() ==> toks[i]@.span.offset + toks[i]@.span.len
            <= toks[j]@.span.offset
}

/// Every token span's end fits in a `usize`.
pub open spec fn spans_bounded(toks: Seq<Token>) -> bool {
    forall|i: int| 0 <= i < toks.len() ==> toks[i]@.span.offset + toks[i]@.span.len <= usize::MAX
}

/// `span` reaches exactly from the start of token `p0` to the end of token
/// `p1 - 1`: the region of the consumed tokens.
pub open spec fn covers(toks: Seq<Token>, p0: int, p1: int, span: Span) -> bool {
    &&& 0 <= p0 < p1 <= toks.len()
    &&& span.offset == toks[p0]@.span.offset
    &&& span.offset + span.len == toks[p1 - 1]@.span.offset + toks[p1 - 1]@.span.len
}

/// Combining a span over `[p0, q)` with one over `[q2, p2)` further right
/// yields the span over `[p0, p2)`.
pub proof fn lemma_covers_combine(
    toks: Seq<Token>,
    p0: int,
    q: int,
    q2: int,
    p2: int,
    a: Span,
    b: Span,
)
    requires
        spans_ordered(toks),
        spans_bounded(toks),
        covers(toks, p0, q, a),
        covers(toks, q2, p2, b),
        p0 <= q2,
        q <= p2,
    ensures
        a.offset <= b.offset,
        a.offset + a.len <= b.offset + b.len,
        a.offset + a.len <= usize::MAX,
        b.offset + b.len <= usize::MAX,
        covers(
            toks,
            p0,
            p2,
            Span { offset: a.offset, len: ((b.offset + b.len) - a.offset) as usize },
        ),
{
    if p0 < q2 {
        assert(toks[p0]@.span.offset + toks[p0]@.span.len <= toks[q2]@.span.offset);
    }
    if q - 1 < p2 - 1 {
        assert(toks[q - 1]@.span.offset + toks[q - 1]@.span.len <= toks[p2 - 1]@.span.offset);
    }
}

/// A parser for a single source file.
#[derive(Debug)]
pub struct Parser {
    /// The tokens lexed ahead of parsing, in source order.
    pub tokens: Vec<Token>,
    /// The lex error that ended the token stream, if one did.
    pub trailing: Option<LexError>,
    /// The position of the next token to consume.
    pub pos: usize,
    /// The span of the last consumed token.
    pub prev_span: Span,
}

impl Parser {
    /// The parser's well-formedness: the position is inside the token
    /// sequence, spans sit in source order, and `prev_span` is the span of
    /// the last consumed token.
    pub open spec fn wf(self) -> bool {
        &&& self.pos <= self.tokens@.len()
        &&& spans_ordered(self.tokens@)
        &&& spans_bounded(self.tokens@)
        &&& self.prev_span.offset + self.prev_span.len <= usize::MAX
        &&& (self.pos > 0 ==> self.prev_span == self.tokens@[self.pos - 1]@.span)
        &&& (self.pos == 0 ==> self.prev_span == Span { offset: 0, len: 0 })
    }

    /// Create a new parser, pulling every token the lexer yields up to the
    /// end of the input or its first error: the token sequence and the
    /// trailing error are exactly what lexing the source from the lexer's
    /// position yields.
    pub fn new(lexer: Lexer) -> (p: Parser)
        requires
            lexer.wf(),
        ensures
            p.wf(),
            p.pos == 0,
            crate::lex::spec_tokens_from(
                lexer.source@,
                lexer.idx as int,
                p.tokens@,
                p.trailing,
            ),
    {
        let ghost src0 = lexer.source@;
        let ghost start0 = lexer.idx as int;
        let mut lexer = lexer;
        let mut tokens: Vec<Token> = Vec::new();
        let mut trailing: Option<LexError> = Option::None;
        loop
            invariant_except_break
                trailing is None,
                forall|rest: Seq<Token>, tr: Option<LexError>|
                    crate::lex::spec_tokens_from(src0, lexer.idx as int, rest, tr)
                        ==> #[trigger] crate::lex::spec_tokens_from(
                        src0,
                        start0,
                        tokens@ + rest,
                        tr,
                    ),
            invariant
                lexer.wf(),
                lexer.source@ == src0,
                start0 <= lexer.idx,
                spans_ordered(tokens@),
                spans_bounded(tokens@),
                forall|i: int|
                    0 <= i < tokens@.len() ==> tokens@[i]@.span.offset + tokens@[i]@.span.len
                        <= lexer.idx,
            ensures
                spans_ordered(tokens@),
                spans_bounded(tokens@),
                crate::lex::spec_tokens_from(src0, start0, tokens@, trailing),
            decreases lexer.source@.len() - lexer.idx,
        {
            let ghost src = lexer.source@;
            let ghost i0 = lexer.idx as int;
            let r = lexer.lex_token();
            proof {
                crate::lex::lemma_trim_bounds(src, i0);
            }
            match r {
                Option::None => {
                    proof {
                        assert(crate::lex::spec_tokens_from(
                            src0,
                            i0,
                            Seq::<Token>::empty(),
                            Option::None,
                        ));
                        assert(crate::lex::spec_tokens_from(
                            src0,
                            start0,
                            tokens@ + Seq::<Token>::empty(),
                            Option::<LexError>::None,
                        ));
                        assert(tokens@ + Seq::<Token>::empty() =~= tokens@);
                    }
                    break ;
                },
                Option::Some(Result::Ok(tok)) => {
                    let ghost n0 = tokens@.len() as int;
                    let ghost tokv = tok;
                    let ghost pre = tokens@;
                    tokens.push(tok);
                    proof {
                        assert(forall|i: int|
                            0 <= i < n0 ==> tokens@[i]@.span.offset + tokens@[i]@.span.len
                                <= tokens@[n0]@.span.offset);
                        assert forall|rest: Seq<Token>, tr: Option<LexError>|
                            crate::lex::spec_tokens_from(src0, lexer.idx as int, rest, tr)
                                implies #[trigger] crate::lex::spec_tokens_from(
                            src0,
                            start0,
                            tokens@ + rest,
                            tr,
                        ) by {
                            let step = seq![tokv] + rest;
                            assert(step[0] == tokv);
                            assert(step.drop_first() =~= rest);
                            assert(crate::lex::spec_tokens_from(src0, i0, step, tr));
                            assert(crate::lex::spec_tokens_from(src0, start0, pre + step, tr));
                            assert(tokens@ + rest =~= pre + step);
                        }
                    }
                },
                Option::Some(Result::Err(e)) => {
                    proof {
                        assert(crate::lex::spec_tokens_from(
                            src0,
                            i0,
                            Seq::<Token>::empty(),
                            Option::Some(e),
                        ));
                        assert(crate::lex::spec_tokens_from(
                            src0,
                            start0,
                            tokens@ + Seq::<Token>::empty(),
                            Option::Some(e),
                        ));
                        assert(tokens@ + Seq::<Token>::empty() =~= tokens@);
                    }
                    trailing = Option::Some(e);
                    break ;
                },
            }
        }
        Parser { tokens, trailing, pos: 0, prev_span: Span { offset: 0, len: 0 } }
    }

    /// The kind of the next token, or `EndOfFile` when none is left.
    fn peek_kind(&self) -> (k: TokenKind)
        ensures
            k == if self.pos < self.tokens@.len() {
                spec_kind(self.tokens@[self.pos as int]@.t)
            } else {
                TokenKind::EndOfFile
            },
    {
        if self.pos < self.tokens.len() {
            self.tokens[self.pos].t.kind()
        } else {
            TokenKind::EndOfFile
        }
    }

    /// Consume and return the next token.
    ///
    /// At the end of the stream this surfaces the lexer's trailing error if
    /// one exists, and otherwise reports an unexpected end of input one
    /// position past the last consumed token.
    fn next_token(&mut self) -> (r: Result<Token, Error>)
        requires
            old(self).wf(),
        ensures
            final(self).wf(),
            final(self).tokens == old(self).tokens,
            match r {
                Result::Ok(t) => {
                    &&& old(self).pos < old(self).tokens@.len()
                    &&& t@ == old(self).tokens@[old(self).pos as int]@
                    &&& final(self).pos == old(self).pos + 1
                    &&& final(self).prev_span == t@.span
                    &&& final(self).trailing == old(self).trailing
                },
                Result::Err(e) => {
                    &&& old(self).pos == old(self).tokens@.len()
                    &&& final(self).pos == old(self).pos
                    &&& final(self).prev_span == old(self).prev_span
                    &&& spec_error_view(e) == p_next_err(
                        old(self).tokens@,
                        old(self).trailing,
                        old(self).pos as int,
                    )
                    &&& match old(self).trailing {
                        Option::Some(le) => e == Error::Lex(le) && final(self).trailing
                            is None,
                        Option::None => match e {
                            Error::Parse(ParseError::UnexpectedEof { loc }) => loc == (Span {
                                offset: (old(self).prev_span.offset + old(self).prev_span.len)
                                    as usize,
                                len: 0,
                            }) && final(self).trailing == old(self).trailing,
                            _ => false,
                        },
                    }
                },
            },
    {
        if self.pos < self.tokens.len() {
            let t = self.tokens[self.pos].duplicate();
            self.pos = self.pos + 1;
            self.prev_span = t.span;
            proof {
                assert(t@.span == self.tokens@[self.pos - 1]@.span);
            }
            Result::Ok(t)
        } else {
            match self.trailing.take() {
                Option::Some(le) => Result::Err(Error::Lex(le)),
                Option::None => Result::Err(
                    Error::Parse(ParseError::UnexpectedEof { loc: self.prev_span.increment() }),
                ),
            }
        }
    }

    /// Consume and return the next token if it has the given kind.
    ///
    /// On a mismatch nothing is consumed and the mismatching token is
    /// reported; at the end of the stream the synthetic end-of-file token
    /// mismatches instead, unless the lexer's trailing error surfaces.
    fn expect(&mut self, k: TokenKind) -> (r: Result<Token, Error>)
        requires
            old(self).wf(),
        ensures
            final(self).wf(),
            final(self).tokens == old(self).tokens,
            match r {
                Result::Ok(t) => {
                    &&& old(self).pos < old(self).tokens@.len()
                    &&& spec_kind(old(self).tokens@[old(self).pos as int]@.t) == k
                    &&& t@ == old(self).tokens@[old(self).pos as int]@
                    &&& final(self).pos == old(self).pos + 1
                    &&& final(self).prev_span == t@.span
                    &&& final(self).trailing == old(self).trailing
                },
                Result::Err(e) => {
                    &&& final(self).pos == old(self).pos
                    &&& final(self).prev_span == old(self).prev_span
                    &&& !(old(self).pos < old(self).tokens@.len() && spec_kind(
                        old(self).tokens@[old(self).pos as int]@.t,
                    ) == k)
                    &&& spec_error_view(e) == p_expect_err(
                        old(self).tokens@,
                        old(self).trailing,
                        old(self).pos as int,
                        k,
                    )
                },
            },
    {
        if self.pos >= self.tokens.len() {
            match self.trailing.take() {
                Option::Some(le) => Result::Err(Error::Lex(le)),
                Option::None => {
                    let loc = self.prev_span.increment();
                    let found = kind_name(TokenKind::EndOfFile);
                    let expected = one_name(k);
                    proof {
                        assert(loc == p_eof_loc(self.tokens@, self.pos as int));
                        assert(expected@.map_values(|s: String| s@) =~= seq![spec_kind_name(k)]);
                    }
                    Result::Err(
                        Error::Parse(ParseError::UnexpectedToken { loc, found, expected }),
                    )
                },
            }
        } else if self.tokens[self.pos].t.kind() == k {
            let t = self.tokens[self.pos].duplicate();
            self.pos = self.pos + 1;
            self.prev_span = t.span;
            Result::Ok(t)
        } else {
            let loc = self.tokens[self.pos].span;
            let found = self.tokens[self.pos].t.name();
            let expected = one_name(k);
            proof {
                assert(expected@.map_values(|s: String| s@) =~= seq![spec_kind_name(k)]);
            }
            Result::Err(
                Error::Parse(ParseError::UnexpectedToken { loc, found, expected }),
            )
        }
    }

    /// Parse the entire input: the result is exactly what the
    /// specification grammar derives from the whole token sequence.
    #[verifier::loop_isolation(false)]
    #[verifier::rlimit(100)]
    pub fn parse(&mut self) -> (r: Result<Program, Error>)
        requires
            old(self).wf(),
        ensures
            final(self).wf(),
            final(self).tokens == old(self).tokens,
            match r {
                Result::Ok(_) => final(self).pos == final(self).tokens@.len()
                    && final(self).trailing is None,
                Result::Err(_) => true,
            },
            p_program(old(self).tokens@, old(self).trailing, old(self).pos as int, Seq::empty())
                == (match r {
                Result::Ok(prog) => Parsed::Found { v: prog@, next: final(self).pos as int },
                Result::Err(err) => Parsed::Failed(spec_error_view(err)),
            }),
    {
        let ghost toks = self.tokens@;
        let ghost tr0 = self.trailing;
        let ghost pos0 = self.pos as int;
        let mut exprs: Vec<Expression> = Vec::new();
        proof {
            assert(ast::exprs_view(exprs@) =~= Seq::<ast::ExpressionV>::empty());
        }
        while self.pos < self.tokens.len()
            invariant
                self.wf(),
                self.tokens == old(self).tokens,
                self.trailing == tr0,
                p_program(toks, tr0, pos0, Seq::empty()) == p_program(
                    toks,
                    tr0,
                    self.pos as int,
                    ast::exprs_view(exprs@),
                ),
            decreases self.tokens@.len() - self.pos,
        {
            let ghost q = self.pos as int;
            let ghost pre = exprs@;
            let e = match self.parse_expression() {
                Result::Ok(e) => e,
                Result::Err(err) => return Result::Err(err),
            };
            let ghost ev = e;
            proof {
                ast::lemma_exprs_view_push(pre, e);
            }
            exprs.push(e);
            proof {
                assert(ast::exprs_view(exprs@) =~= ast::exprs_view(pre).push(ast::expr_view(ev)));
                assert(p_program(toks, tr0, q, ast::exprs_view(pre)) == p_program(
                    toks,
                    tr0,
                    self.pos as int,
                    ast::exprs_view(exprs@),
                ));
            }
        }
        if self.trailing.is_some() {
            let le = self.trailing.take().unwrap();
            return Result::Err(Error::Lex(le));
        }
        Result::Ok(Program(exprs))
    }

    /// Parse any expression.
    ///
    /// A bare identifier or scalar literal token becomes exactly the
    /// matching node; the node's span covers exactly the consumed tokens.
    #[verifier::rlimit(100)]
    fn parse_expression(&mut self) -> (r: Result<Expression, Error>)
        requires
            old(self).wf(),
        ensures
            final(self).wf(),
            final(self).tokens == old(self).tokens,
            old(self).pos <= final(self).pos <= final(self).tokens@.len(),
            match r {
                Result::Ok(e) => {
                    &&& covers(
                        old(self).tokens@,
                        old(self).pos as int,
                        final(self).pos as int,
                        ast::spec_expr_span(e@),
                    )
                    &&& final(self).trailing == old(self).trailing
                },
                Result::Err(_) => true,
            },
            p_expression(old(self).tokens@, old(self).trailing, old(self).pos as int) == (match r {
                Result::Ok(e) => Parsed::Found { v: e@, next: final(self).pos as int },
                Result::Err(err) => Parsed::Failed(spec_error_view(err)),
            }),
        decreases old(self).tokens@.len() - old(self).pos, 0int,
    {
        let ghost toks = self.tokens@;
        let ghost p0 = self.pos as int;
        let token = match self.next_token() {
            Result::Ok(t) => t,
            Result::Err(e) => return Result::Err(e),
        };
        let expression_span = token.span;
        let k = token.t.kind();
        if k == TokenKind::Identifier {
            Result::Ok(Expression::Identifier(Identifier::from_token(token)))
        } else if k == TokenKind::Boolean || k == TokenKind::Integer || k == TokenKind::Float || k
            == TokenKind::Character || k == TokenKind::String || k == TokenKind::Atom {
            Result::Ok(Expression::Literal(Literal::from_token(token)))
        } else if k == TokenKind::Backtick {
            match self.parse_shorthand_quote(expression_span, Ghost(p0)) {
                Result::Ok(lit) => Result::Ok(Expression::Literal(lit)),
                Result::Err(e) => Result::Err(e),
            }
        } else if k == TokenKind::LeftParen {
            self.parse_parenthesized_expression(expression_span, Ghost(p0))
        } else {
            Result::Err(
                Error::Parse(
                    ParseError::InvalidExpression {
                        loc: token.span,
                        found: token.t.name(),
                        expected: expression_start_names(),
                    },
                ),
            )
        }
    }

    /// Parse any expression that starts with a `(`, already consumed.
    #[verifier::rlimit(100)]
    fn parse_parenthesized_expression(
        &mut self,
        initial_span: Span,
        Ghost(p0): Ghost<int>,
    ) -> (r: Result<Expression, Error>)
        requires
            old(self).wf(),
            covers(old(self).tokens@, p0, old(self).pos as int, initial_span),
        ensures
            final(self).wf(),
            final(self).tokens == old(self).tokens,
            old(self).pos <= final(self).pos <= final(self).tokens@.len(),
            match r {
                Result::Ok(e) => covers(
                    old(self).tokens@,
                    p0,
                    final(self).pos as int,
                    ast::spec_expr_span(e@),
                ) && final(self).trailing == old(self).trailing,
                Result::Err(_) => true,
            },
            p_parenthesized(
                old(self).tokens@,
                old(self).trailing,
                old(self).pos as int,
                initial_span,
            ) == (match r {
                Result::Ok(e) => Parsed::Found { v: e@, next: final(self).pos as int },
                Result::Err(err) => Parsed::Failed(spec_error_view(err)),
            }),
        decreases old(self).tokens@.len() - old(self).pos, 1int,
    {
        let ghost toks = self.tokens@;
        let ghost q = self.pos as int;
        let token = match self.next_token() {
            Result::Ok(t) => t,
            Result::Err(e) => return Result::Err(e),
        };
        proof {
            lemma_covers_combine(toks, p0, q, q, q + 1, initial_span, token@.span);
        }
        let expression_span = initial_span.combine(&token.span);
        let k = token.t.kind();
        if k == TokenKind::Atom {
            let text = match token.t {
                TokenType::Atom(a) => a,
                _ => unreached(),
            };
            match self.parse_annotation(expression_span, text, Ghost(p0)) {
                Result::Ok(a) => Result::Ok(Expression::Annotation(a)),
                Result::Err(e) => Result::Err(e),
            }
        } else if k == TokenKind::Identifier {
            self.parse_procedure_call(expression_span, Identifier::from_token(token), Ghost(p0))
        } else if k == TokenKind::KwQuote {
            match self.parse_quote(expression_span, Ghost(p0)) {
                Result::Ok(lit) => Result::Ok(Expression::Literal(lit)),
                Result::Err(e) => Result::Err(e),
            }
        } else if k == TokenKind::KwLet {
            self.parse_definition(expression_span, Ghost(p0))
        } else if k == TokenKind::KwSeq {
            self.parse_sequence(expression_span, Ghost(p0))
        } else if k == TokenKind::KwLambda {
            self.parse_lambda(expression_span, Ghost(p0))
        } else if k == TokenKind::KwIf {
            self.parse_conditional(expression_span, Ghost(p0))
        } else if k == TokenKind::KwInclude {
            self.parse_inclusion(expression_span, Ghost(p0))
        } else {
            Result::Err(
                Error::Parse(
                    ParseError::UnexpectedToken {
                        loc: token.span,
                        found: token.t.name(),
                        expected: paren_head_names(),
                    },
                ),
            )
        }
    }

    /// Parse a procedure call `(<operator> <operands>*)`; `(` and the
    /// operator are already consumed.
    #[verifier::loop_isolation(false)]
    #[verifier::rlimit(100)]
    fn parse_procedure_call(
        &mut self,
        initial_span: Span,
        operator: Identifier,
        Ghost(p0): Ghost<int>,
    ) -> (r: Result<Expression, Error>)
        requires
            old(self).wf(),
            covers(old(self).tokens@, p0, old(self).pos as int, initial_span),
        ensures
            final(self).wf(),
            final(self).tokens == old(self).tokens,
            old(self).pos <= final(self).pos <= final(self).tokens@.len(),
            match r {
                Result::Ok(e) => covers(
                    old(self).tokens@,
                    p0,
                    final(self).pos as int,
                    ast::spec_expr_span(e@),
                ) && e@ is ProcedureCall && final(self).trailing == old(self).trailing,
                Result::Err(_) => true,
            },
            p_call(
                old(self).tokens@,
                old(self).trailing,
                old(self).pos as int,
                initial_span,
                operator@,
                Seq::empty(),
            ) == (match r {
                Result::Ok(e) => Parsed::Found { v: e@, next: final(self).pos as int },
                Result::Err(err) => Parsed::Failed(spec_error_view(err)),
            }),
        decreases old(self).tokens@.len() - old(self).pos, 1int,
    {
        proof {
            assert(0 <= old(self).pos as int <= old(self).tokens@.len());
        }
        let ghost toks = self.tokens@;
        let ghost tr0 = self.trailing;
        let ghost pos0 = self.pos as int;
        let ghost op_v = operator@;
        let mut operands: Vec<Expression> = Vec::new();
        let mut procedure_span = initial_span;
        proof {
            assert(ast::exprs_view(operands@) =~= Seq::<ast::ExpressionV>::empty());
        }
        while self.peek_kind() != TokenKind::RightParen
            invariant
                self.wf(),
                self.tokens == old(self).tokens,
                old(self).pos <= self.pos <= toks.len(),
                toks == self.tokens@,
                covers(toks, p0, self.pos as int, procedure_span),
                self.trailing == old(self).trailing,
                p_call(toks, tr0, pos0, initial_span, op_v, Seq::empty()) == p_call(
                    toks,
                    tr0,
                    self.pos as int,
                    procedure_span,
                    op_v,
                    ast::exprs_view(operands@),
                ),
            decreases toks.len() - self.pos,
        {
            let ghost q = self.pos as int;
            let ghost pre = operands@;
            let ghost span_q = procedure_span;
            let operand = match self.parse_expression() {
                Result::Ok(e) => e,
                Result::Err(e) => return Result::Err(e),
            };
            let ghost opv = operand;
            proof {
                ast::lemma_exprs_view_push(pre, operand);
            }
            operands.push(operand);
            proof {
                lemma_covers_combine(
                    toks,
                    p0,
                    q,
                    self.pos - 1,
                    self.pos as int,
                    procedure_span,
                    self.prev_span,
                );
            }
            procedure_span = procedure_span.combine(&self.prev_span);
            proof {
                assert(p_expression(toks, tr0, q) == Parsed::Found {
                    v: ast::expr_view(opv),
                    next: self.pos as int,
                });
                assert(ast::exprs_view(operands@) =~= ast::exprs_view(pre).push(
                    ast::expr_view(opv),
                ));
                assert(p_call(toks, tr0, q, span_q, op_v, ast::exprs_view(pre)) == p_call(
                    toks,
                    tr0,
                    self.pos as int,
                    procedure_span,
                    op_v,
                    ast::exprs_view(operands@),
                ));
            }
        }
        let ghost q = self.pos as int;
        let right_paren = match self.expect(TokenKind::RightParen) {
            Result::Ok(t) => t,
            Result::Err(e) => return Result::Err(e),
        };
        proof {
            lemma_covers_combine(toks, p0, q, q, q + 1, procedure_span, right_paren@.span);
        }
        let procedure_span = procedure_span.combine(&right_paren.span);
        Result::Ok(Expression::ProcedureCall { span: procedure_span, operator, operands })
    }

    /// Parse a definition `(let <target> <value>)`; `(` and `let` are
    /// already consumed.
    #[verifier::rlimit(100)]
    fn parse_definition(&mut self, initial_span: Span, Ghost(p0): Ghost<int>) -> (r: Result<
        Expression,
        Error,
    >)
        requires
            old(self).wf(),
            covers(old(self).tokens@, p0, old(self).pos as int, initial_span),
        ensures
            final(self).wf(),
            final(self).tokens == old(self).tokens,
            old(self).pos <= final(self).pos <= final(self).tokens@.len(),
            match r {
                Result::Ok(e) => covers(
                    old(self).tokens@,
                    p0,
                    final(self).pos as int,
                    ast::spec_expr_span(e@),
                ) && e@ is Definition && final(self).trailing == old(self).trailing,
                Result::Err(_) => true,
            },
            p_definition(
                old(self).tokens@,
                old(self).trailing,
                old(self).pos as int,
                initial_span,
            ) == (match r {
                Result::Ok(e) => Parsed::Found { v: e@, next: final(self).pos as int },
                Result::Err(err) => Parsed::Failed(spec_error_view(err)),
            }),
        decreases old(self).tokens@.len() - old(self).pos, 1int,
    {
        let ghost toks = self.tokens@;
        let ghost tr0 = self.trailing;
        let ghost q = self.pos as int;
        let target_token = match self.expect(TokenKind::Identifier) {
            Result::Ok(t) => t,
            Result::Err(e) => return Result::Err(e),
        };
        proof {
            lemma_covers_combine(toks, p0, q, q, q + 1, initial_span, target_token@.span);
        }
        let mut definition_span = initial_span.combine(&target_token.span);
        let ghost q2 = self.pos as int;
        let value = match self.parse_expression() {
            Result::Ok(e) => e,
            Result::Err(e) => return Result::Err(e),
        };
        let ghost vv = value@;
        proof {
            lemma_covers_combine(
                toks,
                p0,
                q2,
                self.pos - 1,
                self.pos as int,
                definition_span,
                self.prev_span,
            );
            assert(p_expression(toks, tr0, q2) == Parsed::Found {
                v: vv,
                next: self.pos as int,
            });
        }
        definition_span = definition_span.combine(&self.prev_span);
        let ghost q3 = self.pos as int;
        let right_paren = match self.expect(TokenKind::RightParen) {
            Result::Ok(t) => t,
            Result::Err(e) => return Result::Err(e),
        };
        proof {
            lemma_covers_combine(toks, p0, q3, q3, q3 + 1, definition_span, right_paren@.span);
        }
        definition_span = definition_span.combine(&right_paren.span);
        Result::Ok(
            Expression::Definition {
                span: definition_span,
                target: Identifier::from_token(target_token),
                value: Box::new(value),
            },
        )
    }

    /// Parse a sequence `(seq <expression>+)`; `(` and the sequence keyword
    /// are already consumed.
    #[verifier::loop_isolation(false)]
    #[verifier::rlimit(100)]
    fn parse_sequence(&mut self, initial_span: Span, Ghost(p0): Ghost<int>) -> (r: Result<
        Expression,
        Error,
    >)
        requires
            old(self).wf(),
            covers(old(self).tokens@, p0, old(self).pos as int, initial_span),
        ensures
            final(self).wf(),
            final(self).tokens == old(self).tokens,
            old(self).pos <= final(self).pos <= final(self).tokens@.len(),
            match r {
                Result::Ok(e) => covers(
                    old(self).tokens@,
                    p0,
                    final(self).pos as int,
                    ast::spec_expr_span(e@),
                ) && e@ is Sequence && final(self).trailing == old(self).trailing,
                Result::Err(_) => true,
            },
            p_sequence(
                old(self).tokens@,
                old(self).trailing,
                old(self).pos as int,
                initial_span,
            ) == (match r {
                Result::Ok(e) => Parsed::Found { v: e@, next: final(self).pos as int },
                Result::Err(err) => Parsed::Failed(spec_error_view(err)),
            }),
        decreases old(self).tokens@.len() - old(self).pos, 1int,
    {
        let ghost toks = self.tokens@;
        let ghost tr0 = self.trailing;
        let ghost pos0 = self.pos as int;
        let first = match self.parse_expression() {
            Result::Ok(e) => e,
            Result::Err(e) => return Result::Err(e),
        };
        proof {
            lemma_covers_combine(
                toks,
                p0,
                pos0,
                self.pos - 1,
                self.pos as int,
                initial_span,
                self.prev_span,
            );
        }
        let mut sequence_span = initial_span.combine(&self.prev_span);
        let mut exprs: Vec<Expression> = Vec::new();
        let ghost e0 = first;
        exprs.push(first);
        proof {
            ast::lemma_exprs_view_push(Seq::empty(), e0);
            assert(exprs@ =~= Seq::<Expression>::empty().push(e0));
            assert(ast::exprs_view(exprs@) =~= seq![ast::expr_view(e0)]);
        }
        while self.peek_kind() != TokenKind::RightParen
            invariant
                self.wf(),
                self.tokens == old(self).tokens,
                old(self).pos <= self.pos <= toks.len(),
                toks == self.tokens@,
                covers(toks, p0, self.pos as int, sequence_span),
                self.trailing == old(self).trailing,
                p_sequence(toks, tr0, pos0, initial_span) == p_sequence_rest(
                    toks,
                    tr0,
                    self.pos as int,
                    sequence_span,
                    ast::exprs_view(exprs@),
                ),
            decreases toks.len() - self.pos,
        {
            let ghost q = self.pos as int;
            let ghost pre = exprs@;
            let ghost span_q = sequence_span;
            let e = match self.parse_expression() {
                Result::Ok(e) => e,
                Result::Err(err) => return Result::Err(err),
            };
            let ghost ev = e;
            proof {
                ast::lemma_exprs_view_push(pre, e);
            }
            exprs.push(e);
            proof {
                lemma_covers_combine(
                    toks,
                    p0,
                    q,
                    self.pos - 1,
                    self.pos as int,
                    sequence_span,
                    self.prev_span,
                );
            }
            sequence_span = sequence_span.combine(&self.prev_span);
            proof {
                assert(p_expression(toks, tr0, q) == Parsed::Found {
                    v: ast::expr_view(ev),
                    next: self.pos as int,
                });
                assert(ast::exprs_view(exprs@) =~= ast::exprs_view(pre).push(ast::expr_view(ev)));
                assert(p_sequence_rest(toks, tr0, q, span_q, ast::exprs_view(pre))
                    == p_sequence_rest(
                    toks,
                    tr0,
                    self.pos as int,
                    sequence_span,
                    ast::exprs_view(exprs@),
                ));
            }
        }
        let ghost q = self.pos as int;
        let right_paren = match self.expect(TokenKind::RightParen) {
            Result::Ok(t) => t,
            Result::Err(e) => return Result::Err(e),
        };
        proof {
            lemma_covers_combine(toks, p0, q, q, q + 1, sequence_span, right_paren@.span);
        }
        let sequence_span = sequence_span.combine(&right_paren.span);
        Result::Ok(Expression::Sequence { span: sequence_span, seq: exprs })
    }

    /// Parse a lambda `(lambda <formals> <body>*)`, where the formals are a
    /// single identifier or a parenthesized identifier list; `(` and
    /// `lambda` are already consumed.
    #[verifier::loop_isolation(false)]
    #[verifier::rlimit(100)]
    fn parse_lambda(&mut self, initial_span: Span, Ghost(p0): Ghost<int>) -> (r: Result<
        Expression,
        Error,
    >)
        requires
            old(self).wf(),
            covers(old(self).tokens@, p0, old(self).pos as int, initial_span),
        ensures
            final(self).wf(),
            final(self).tokens == old(self).tokens,
            old(self).pos <= final(self).pos <= final(self).tokens@.len(),
            match r {
                Result::Ok(e) => covers(
                    old(self).tokens@,
                    p0,
                    final(self).pos as int,
                    ast::spec_expr_span(e@),
                ) && e@ is LambdaExpression && final(self).trailing == old(self).trailing,
                Result::Err(_) => true,
            },
            p_lambda(
                old(self).tokens@,
                old(self).trailing,
                old(self).pos as int,
                initial_span,
            ) == (match r {
                Result::Ok(e) => Parsed::Found { v: e@, next: final(self).pos as int },
                Result::Err(err) => Parsed::Failed(spec_error_view(err)),
            }),
        decreases old(self).tokens@.len() - old(self).pos, 1int,
    {
        let ghost toks = self.tokens@;
        let ghost tr0 = self.trailing;
        let ghost pos0 = self.pos as int;
        let mut formals: Vec<Identifier> = Vec::new();
        let next_token = match self.next_token() {
            Result::Ok(t) => t,
            Result::Err(e) => return Result::Err(e),
        };
        proof {
            lemma_covers_combine(toks, p0, pos0, pos0, pos0 + 1, initial_span, next_token@.span);
            assert(ast::idents_view(formals@) =~= Seq::<ast::IdentifierV>::empty());
        }
        let mut lambda_span = initial_span.combine(&next_token.span);
        let k = next_token.t.kind();
        if k == TokenKind::Identifier {
            let ghost ftv = next_token@;
            formals.push(Identifier::from_token(next_token));
            proof {
                assert(ast::idents_view(formals@) =~= seq![
                    ast::IdentifierV { span: ftv.span, id: ftv.t->Identifier_0 },
                ]);
            }
        } else if k == TokenKind::LeftParen {
            while self.peek_kind() != TokenKind::RightParen
                invariant
                    self.wf(),
                    self.tokens == old(self).tokens,
                    old(self).pos <= self.pos <= toks.len(),
                    toks == self.tokens@,
                    covers(toks, p0, self.pos as int, lambda_span),
                    self.trailing == old(self).trailing,
                    p_lambda(toks, tr0, pos0, initial_span) == p_formals(
                        toks,
                        tr0,
                        self.pos as int,
                        lambda_span,
                        ast::idents_view(formals@),
                    ),
                decreases toks.len() - self.pos,
            {
                let ghost q = self.pos as int;
                let ghost prefs = formals@;
                let formal = match self.expect(TokenKind::Identifier) {
                    Result::Ok(t) => t,
                    Result::Err(e) => return Result::Err(e),
                };
                proof {
                    lemma_covers_combine(toks, p0, q, q, q + 1, lambda_span, formal@.span);
                }
                lambda_span = lambda_span.combine(&formal.span);
                let ghost fv = formal@;
                formals.push(Identifier::from_token(formal));
                proof {
                    assert(ast::idents_view(formals@) =~= ast::idents_view(prefs).push(
                        ast::IdentifierV { span: fv.span, id: fv.t->Identifier_0 },
                    ));
                }
            }
            let ghost q = self.pos as int;
            let right_paren = match self.expect(TokenKind::RightParen) {
                Result::Ok(t) => t,
                Result::Err(e) => return Result::Err(e),
            };
            proof {
                lemma_covers_combine(toks, p0, q, q, q + 1, lambda_span, right_paren@.span);
            }
            lambda_span = lambda_span.combine(&right_paren.span);
        } else {
            let found = next_token.t.name();
            return Result::Err(
                Error::Parse(
                    ParseError::InvalidLambdaFormals { loc: next_token.span, found },
                ),
            );
        }
        let mut body: Vec<Expression> = Vec::new();
        proof {
            assert(ast::exprs_view(body@) =~= Seq::<ast::ExpressionV>::empty());
        }
        while self.peek_kind() != TokenKind::RightParen
            invariant
                self.wf(),
                self.tokens == old(self).tokens,
                old(self).pos <= self.pos <= toks.len(),
                toks == self.tokens@,
                covers(toks, p0, self.pos as int, lambda_span),
                self.trailing == old(self).trailing,
                p_lambda(toks, tr0, pos0, initial_span) == p_lambda_body(
                    toks,
                    tr0,
                    self.pos as int,
                    lambda_span,
                    ast::idents_view(formals@),
                    ast::exprs_view(body@),
                ),
            decreases toks.len() - self.pos,
        {
            let ghost q = self.pos as int;
            let ghost pre = body@;
            let ghost span_q = lambda_span;
            let e = match self.parse_expression() {
                Result::Ok(e) => e,
                Result::Err(err) => return Result::Err(err),
            };
            let ghost ev = e;
            proof {
                ast::lemma_exprs_view_push(pre, e);
            }
            body.push(e);
            proof {
                lemma_covers_combine(
                    toks,
                    p0,
                    q,
                    self.pos - 1,
                    self.pos as int,
                    lambda_span,
                    self.prev_span,
                );
            }
            lambda_span = lambda_span.combine(&self.prev_span);
            proof {
                assert(ast::exprs_view(body@) =~= ast::exprs_view(pre).push(ast::expr_view(ev)));
                assert(p_lambda_body(
                    toks,
                    tr0,
                    q,
                    span_q,
                    ast::idents_view(formals@),
                    ast::exprs_view(pre),
                ) == p_lambda_body(
                    toks,
                    tr0,
                    self.pos as int,
                    lambda_span,
                    ast::idents_view(formals@),
                    ast::exprs_view(body@),
                ));
            }
        }
        let ghost q = self.pos as int;
        let right_paren = match self.expect(TokenKind::RightParen) {
            Result::Ok(t) => t,
            Result::Err(e) => return Result::Err(e),
        };
        proof {
            lemma_covers_combine(toks, p0, q, q, q + 1, lambda_span, right_paren@.span);
        }
        let lambda_span = lambda_span.combine(&right_paren.span);
        Result::Ok(Expression::LambdaExpression { span: lambda_span, formals, body })
    }

    /// Parse a conditional `(if <test> <consequent> [<alternate>])`; `(`
    /// and `if` are already consumed.
    #[verifier::rlimit(100)]
    fn parse_conditional(&mut self, initial_span: Span, Ghost(p0): Ghost<int>) -> (r: Result<
        Expression,
        Error,
    >)
        requires
            old(self).wf(),
            covers(old(self).tokens@, p0, old(self).pos as int, initial_span),
        ensures
            final(self).wf(),
            final(self).tokens == old(self).tokens,
            old(self).pos <= final(self).pos <= final(self).tokens@.len(),
            match r {
                Result::Ok(e) => covers(
                    old(self).tokens@,
                    p0,
                    final(self).pos as int,
                    ast::spec_expr_span(e@),
                ) && e@ is Conditional && final(self).trailing == old(self).trailing,
                Result::Err(_) => true,
            },
            p_conditional(
                old(self).tokens@,
                old(self).trailing,
                old(self).pos as int,
                initial_span,
            ) == (match r {
                Result::Ok(e) => Parsed::Found { v: e@, next: final(self).pos as int },
                Result::Err(err) => Parsed::Failed(spec_error_view(err)),
            }),
        decreases old(self).tokens@.len() - old(self).pos, 1int,
    {
        let ghost toks = self.tokens@;
        let ghost q0 = self.pos as int;
        let test = match self.parse_expression() {
            Result::Ok(e) => e,
            Result::Err(e) => return Result::Err(e),
        };
        proof {
            lemma_covers_combine(
                toks,
                p0,
                q0,
                self.pos - 1,
                self.pos as int,
                initial_span,
                self.prev_span,
            );
        }
        let mut conditional_span = initial_span.combine(&self.prev_span);
        let ghost q1 = self.pos as int;
        let consequent = match self.parse_expression() {
            Result::Ok(e) => e,
            Result::Err(e) => return Result::Err(e),
        };
        proof {
            lemma_covers_combine(
                toks,
                p0,
                q1,
                self.pos - 1,
                self.pos as int,
                conditional_span,
                self.prev_span,
            );
        }
        conditional_span = conditional_span.combine(&self.prev_span);
        let alternate: Option<Box<Expression>> = if self.peek_kind() == TokenKind::RightParen {
            let ghost q = self.pos as int;
            let right_paren = match self.next_token() {
                Result::Ok(t) => t,
                Result::Err(e) => return Result::Err(e),
            };
            proof {
                lemma_covers_combine(toks, p0, q, q, q + 1, conditional_span, right_paren@.span);
            }
            conditional_span = conditional_span.combine(&right_paren.span);
            Option::None
        } else {
            let ghost q = self.pos as int;
            let expr = match self.parse_expression() {
                Result::Ok(e) => e,
                Result::Err(e) => return Result::Err(e),
            };
            proof {
                lemma_covers_combine(
                    toks,
                    p0,
                    q,
                    self.pos - 1,
                    self.pos as int,
                    conditional_span,
                    self.prev_span,
                );
            }
            conditional_span = conditional_span.combine(&self.prev_span);
            let ghost q2 = self.pos as int;
            let right_paren = match self.expect(TokenKind::RightParen) {
                Result::Ok(t) => t,
                Result::Err(e) => return Result::Err(e),
            };
            proof {
                lemma_covers_combine(toks, p0, q2, q2, q2 + 1, conditional_span, right_paren@.span);
            }
            conditional_span = conditional_span.combine(&right_paren.span);
            Option::Some(Box::new(expr))
        };
        Result::Ok(
            Expression::Conditional {
                span: conditional_span,
                test: Box::new(test),
                consequent: Box::new(consequent),
                alternate,
            },
        )
    }

    /// Parse an inclusion `(include <string>+)`; `(` and `include` are
    /// already consumed.
    #[verifier::loop_isolation(false)]
    #[verifier::rlimit(100)]
    fn parse_inclusion(&mut self, initial_span: Span, Ghost(p0): Ghost<int>) -> (r: Result<
        Expression,
        Error,
    >)
        requires
            old(self).wf(),
            covers(old(self).tokens@, p0, old(self).pos as int, initial_span),
        ensures
            final(self).wf(),
            final(self).tokens == old(self).tokens,
            old(self).pos <= final(self).pos <= final(self).tokens@.len(),
            match r {
                Result::Ok(e) => covers(
                    old(self).tokens@,
                    p0,
                    final(self).pos as int,
                    ast::spec_expr_span(e@),
                ) && e@ is Inclusion && final(self).trailing == old(self).trailing,
                Result::Err(_) => true,
            },
            p_inclusion(
                old(self).tokens@,
                old(self).trailing,
                old(self).pos as int,
                initial_span,
            ) == (match r {
                Result::Ok(e) => Parsed::Found { v: e@, next: final(self).pos as int },
                Result::Err(err) => Parsed::Failed(spec_error_view(err)),
            }),
        decreases old(self).tokens@.len() - old(self).pos, 1int,
    {
        let ghost toks = self.tokens@;
        let ghost tr0 = self.trailing;
        let ghost pos0 = self.pos as int;
        let first_file_token = match self.expect(TokenKind::String) {
            Result::Ok(t) => t,
            Result::Err(e) => return Result::Err(e),
        };
        proof {
            lemma_covers_combine(
                toks,
                p0,
                pos0,
                pos0,
                pos0 + 1,
                initial_span,
                first_file_token@.span,
            );
        }
        let mut inclusion_span = initial_span.combine(&first_file_token.span);
        let ghost ft = first_file_token@;
        let first_file = match first_file_token.t {
            TokenType::String(s) => s,
            _ => unreached(),
        };
        let mut files: Vec<String> = Vec::new();
        files.push(first_file);
        proof {
            assert(files@.map_values(|s: String| s@) =~= seq![ft.t->String_0]);
        }
        while self.peek_kind() != TokenKind::RightParen
            invariant
                self.wf(),
                self.tokens == old(self).tokens,
                old(self).pos <= self.pos <= toks.len(),
                toks == self.tokens@,
                covers(toks, p0, self.pos as int, inclusion_span),
                self.trailing == old(self).trailing,
                p_inclusion(toks, tr0, pos0, initial_span) == p_inclusion_rest(
                    toks,
                    tr0,
                    self.pos as int,
                    inclusion_span,
                    files@.map_values(|s: String| s@),
                ),
            decreases toks.len() - self.pos,
        {
            let ghost q = self.pos as int;
            let ghost prefs = files@;
            let file_token = match self.expect(TokenKind::String) {
                Result::Ok(t) => t,
                Result::Err(e) => return Result::Err(e),
            };
            proof {
                lemma_covers_combine(toks, p0, q, q, q + 1, inclusion_span, file_token@.span);
            }
            inclusion_span = inclusion_span.combine(&file_token.span);
            let ghost fv = file_token@;
            let file = match file_token.t {
                TokenType::String(s) => s,
                _ => unreached(),
            };
            files.push(file);
            proof {
                assert(files@.map_values(|s: String| s@) =~= prefs.map_values(
                    |s: String| s@,
                ).push(fv.t->String_0));
            }
        }
        let ghost q = self.pos as int;
        let right_paren = match self.expect(TokenKind::RightParen) {
            Result::Ok(t) => t,
            Result::Err(e) => return Result::Err(e),
        };
        proof {
            lemma_covers_combine(toks, p0, q, q, q + 1, inclusion_span, right_paren@.span);
        }
        let inclusion_span = inclusion_span.combine(&right_paren.span);
        Result::Ok(Expression::Inclusion { span: inclusion_span, files })
    }
}

/// A single token name, for an error's expected list.
fn one_name(k: TokenKind) -> (v: Vec<String>)
    ensures
        v@.len() == 1,
        v@[0]@ == spec_kind_name(k),
{
    let mut v: Vec<String> = Vec::new();
    v.push(kind_name(k));
    v
}

/// The names of the tokens that can start an expression.
fn expression_start_names() -> (v: Vec<String>)
    ensures
        v@.map_values(|s: String| s@) == crate::parse::grammar::spec_expression_start_names(),
{
    let mut v: Vec<String> = Vec::new();
    v.push(String::from_str("Identifier"));
    v.push(String::from_str("Boolean"));
    v.push(String::from_str("Integer"));
    v.push(String::from_str("Float"));
    v.push(String::from_str("Character"));
    v.push(String::from_str("String"));
    v.push(String::from_str("Atom"));
    v.push(String::from_str("("));
    proof {
        assert(v@.map_values(|s: String| s@)
            =~= crate::parse::grammar::spec_expression_start_names());
    }
    v
}

/// The names of the tokens that can follow an opening parenthesis.
fn paren_head_names() -> (v: Vec<String>)
    ensures
        v@.map_values(|s: String| s@) == crate::parse::grammar::spec_paren_head_names(),
{
    let mut v: Vec<String> = Vec::new();
    v.push(String::from_str("Atom"));
    v.push(String::from_str("Keyword"));
    v.push(String::from_str("Identifier"));
    proof {
        assert(v@.map_values(|s: String| s@) =~= crate::parse::grammar::spec_paren_head_names());
    }
    v
}

} // verus!
