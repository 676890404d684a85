//! Parsing quoted data: the datum sub-grammar, including dotted lists.

use vstd::prelude::*;

use crate::ast;
use crate::ast::{ConsList, Datum, Literal};
use crate::error::{Error, ParseError};
use crate::parse::grammar::{
    p_datum, p_datum_list, p_quote, p_shorthand_quote, spec_error_view, Parsed,
};
use crate::parse::{covers, lemma_covers_combine, Parser};
use crate::span::Span;
use crate::token::{TokenKind, TokenType};

verus! {

impl Parser {
    /// Parse a shorthand quote `` `<datum> ``; the backtick is already
    /// consumed.
    pub(super) fn parse_shorthand_quote(&mut self, initial_span: Span, Ghost(p0): Ghost<int>) -> (r:
        Result<Literal, Error>)
        requires
            old(self).wf(),
            covers(old(self).tokens@, p0, old(self).pos as int, initial_span),
        ensures
            final(self).wf(),
            final(self).tokens == old(self).tokens,
            old(self).pos <= final(self).pos <= final(self).tokens@.len(),
            match r {
                Result::Ok(l) => covers(
                    old(self).tokens@,
                    p0,
                    final(self).pos as int,
                    ast::spec_literal_span(l@),
                ) && l@ is Quotation && final(self).trailing == old(self).trailing,
                Result::Err(_) => true,
            },
            p_shorthand_quote(
                old(self).tokens@,
                old(self).trailing,
                old(self).pos as int,
                initial_span,
            ) == (match r {
                Result::Ok(l) => Parsed::Found { v: l@, next: final(self).pos as int },
                Result::Err(err) => Parsed::Failed(spec_error_view(err)),
            }),
        decreases old(self).tokens@.len() - old(self).pos, 1int,
    {
        let ghost toks = self.tokens@;
        let ghost q = self.pos as int;
        let (datum, datum_span) = match self.parse_datum() {
            Result::Ok(d) => d,
            Result::Err(e) => return Result::Err(e),
        };
        proof {
            lemma_covers_combine(toks, p0, q, q, self.pos as int, initial_span, datum_span);
        }
        let quote_span = initial_span.combine(&datum_span);
        Result::Ok(Literal::Quotation { span: quote_span, q: datum })
    }

    /// Parse a quote `(quote <datum>)`; `(` and `quote` are already
    /// consumed.
    pub(super) fn parse_quote(&mut self, initial_span: Span, Ghost(p0): Ghost<int>) -> (r: Result<
        Literal,
        Error,
    >)
        requires
            old(self).wf(),
            covers(old(self).tokens@, p0, old(self).pos as int, initial_span),
        ensures
            final(self).wf(),
            final(self).tokens == old(self).tokens,
            old(self).pos <= final(self).pos <= final(self).tokens@.len(),
            match r {
                Result::Ok(l) => covers(
                    old(self).tokens@,
                    p0,
                    final(self).pos as int,
                    ast::spec_literal_span(l@),
                ) && l@ is Quotation && final(self).trailing == old(self).trailing,
                Result::Err(_) => true,
            },
            p_quote(
                old(self).tokens@,
                old(self).trailing,
                old(self).pos as int,
                initial_span,
            ) == (match r {
                Result::Ok(l) => Parsed::Found { v: l@, next: final(self).pos as int },
                Result::Err(err) => Parsed::Failed(spec_error_view(err)),
            }),
        decreases old(self).tokens@.len() - old(self).pos, 1int,
    {
        let ghost toks = self.tokens@;
        let ghost q = self.pos as int;
        let (datum, datum_span) = match self.parse_datum() {
            Result::Ok(d) => d,
            Result::Err(e) => return Result::Err(e),
        };
        proof {
            lemma_covers_combine(toks, p0, q, q, self.pos as int, initial_span, datum_span);
        }
        let with_datum = initial_span.combine(&datum_span);
        let ghost q2 = self.pos as int;
        let right_paren = match self.expect(TokenKind::RightParen) {
            Result::Ok(t) => t,
            Result::Err(e) => return Result::Err(e),
        };
        proof {
            lemma_covers_combine(toks, p0, q2, q2, q2 + 1, with_datum, right_paren@.span);
        }
        let quote_span = with_datum.combine(&right_paren.span);
        Result::Ok(Literal::Quotation { span: quote_span, q: datum })
    }

    /// Parse a datum and return it alongside its span.
    pub(super) fn parse_datum(&mut self) -> (r: Result<(Datum, Span), Error>)
        requires
            old(self).wf(),
        ensures
            final(self).wf(),
            final(self).tokens == old(self).tokens,
            old(self).pos <= final(self).pos <= final(self).tokens@.len(),
            match r {
                Result::Ok((d, s)) => covers(
                    old(self).tokens@,
                    old(self).pos as int,
                    final(self).pos as int,
                    s,
                ) && s == ast::spec_datum_span(d@) && final(self).trailing == old(self).trailing,
                Result::Err(_) => true,
            },
            p_datum(old(self).tokens@, old(self).trailing, old(self).pos as int) == (match r {
                Result::Ok((d, s)) => Parsed::Found { v: (d@, s), next: final(self).pos as int },
                Result::Err(err) => Parsed::Failed(spec_error_view(err)),
            }),
        decreases old(self).tokens@.len() - old(self).pos, 0int,
    {
        let ghost toks = self.tokens@;
        let ghost p0 = self.pos as int;
        let token = match self.next_token() {
            Result::Ok(t) => t,
            Result::Err(e) => return Result::Err(e),
        };
        let span = token.span;
        let k = token.t.kind();
        if k == TokenKind::Identifier || k == TokenKind::Boolean || k == TokenKind::Integer || k
            == TokenKind::Float || k == TokenKind::Character || k == TokenKind::String || k
            == TokenKind::Atom {
            Result::Ok((Datum::from_token(token), span))
        } else if k == TokenKind::LeftParen {
            let (data, data_span) = match self.parse_datum_list(span, Ghost(p0)) {
                Result::Ok(d) => d,
                Result::Err(e) => return Result::Err(e),
            };
            Result::Ok((Datum::List { span: data_span, l: ConsList::from_vec(data) }, data_span))
        } else {
            Result::Err(
                Error::Parse(ParseError::InvalidDatum { loc: token.span, found: token.t.name() }),
            )
        }
    }

    /// Parse a datum list `(<datum>*)` or a dotted list
    /// `(<datum>+ . (<datum>*))`; `(` is already consumed. On `.`, exactly
    /// one parenthesized datum list must follow before the closing `)`,
    /// and it is appended as the tail.
    #[verifier::loop_isolation(false)]
    #[verifier::rlimit(100)]
    pub(super) fn parse_datum_list(&mut self, initial_span: Span, Ghost(p0): Ghost<int>) -> (r:
        Result<(Vec<Datum>, Span), Error>)
        requires
            old(self).wf(),
            covers(old(self).tokens@, p0, old(self).pos as int, initial_span),
        ensures
            final(self).wf(),
            final(self).tokens == old(self).tokens,
            old(self).pos <= final(self).pos <= final(self).tokens@.len(),
            match r {
                Result::Ok((v, s)) => covers(old(self).tokens@, p0, final(self).pos as int, s)
                    && final(self).trailing == old(self).trailing,
                Result::Err(_) => true,
            },
            p_datum_list(
                old(self).tokens@,
                old(self).trailing,
                old(self).pos as int,
                initial_span,
                Seq::empty(),
            ) == (match r {
                Result::Ok((v, s)) => Parsed::Found {
                    v: (ast::data_view(v@), s),
                    next: final(self).pos as int,
                },
                Result::Err(err) => Parsed::Failed(spec_error_view(err)),
            }),
        decreases old(self).tokens@.len() - old(self).pos, 1int,
    {
        let ghost toks = self.tokens@;
        let ghost tr0 = self.trailing;
        let ghost pos0 = self.pos as int;
        let mut data: Vec<Datum> = Vec::new();
        let mut span = initial_span;
        proof {
            assert(ast::data_view(data@) =~= Seq::<ast::DatumV>::empty());
        }
        if self.peek_kind() == TokenKind::RightParen {
            let ghost q = self.pos as int;
            let right_paren = match self.next_token() {
                Result::Ok(t) => t,
                Result::Err(e) => return Result::Err(e),
            };
            proof {
                lemma_covers_combine(toks, p0, q, q, q + 1, span, right_paren@.span);
            }
            span = span.combine(&right_paren.span);
            return Result::Ok((data, span));
        }
        loop
            invariant
                self.wf(),
                self.tokens == old(self).tokens,
                old(self).pos <= self.pos <= toks.len(),
                toks == self.tokens@,
                covers(toks, p0, self.pos as int, span),
                self.trailing == old(self).trailing,
                data@.len() > 0 || self.pos == old(self).pos,
                p_datum_list(toks, tr0, pos0, initial_span, Seq::empty()) == p_datum_list(
                    toks,
                    tr0,
                    self.pos as int,
                    span,
                    ast::data_view(data@),
                ),
                !(ast::data_view(data@).len() == 0 && crate::parse::grammar::p_peek(
                    toks,
                    self.pos as int,
                ) == crate::token::TokenKind::RightParen),
            decreases toks.len() - self.pos,
        {
            let ghost q = self.pos as int;
            let ghost pre = data@;
            let ghost span_q = span;
            let (datum, next_span) = match self.parse_datum() {
                Result::Ok(d) => d,
                Result::Err(e) => return Result::Err(e),
            };
            let ghost dv = datum;
            proof {
                lemma_covers_combine(toks, p0, q, q, self.pos as int, span, next_span);
                ast::lemma_data_view_push(pre, datum);
            }
            span = span.combine(&next_span);
            data.push(datum);
            proof {
                assert(p_datum(toks, tr0, q) == Parsed::Found {
                    v: (ast::datum_view(dv), next_span),
                    next: self.pos as int,
                });
                assert(ast::data_view(data@) =~= ast::data_view(pre).push(ast::datum_view(dv)));
                assert(span == crate::span::spec_combine(span_q, next_span));
            }
            let pk = self.peek_kind();
            if pk == TokenKind::RightParen {
                let ghost q2 = self.pos as int;
                let right_paren = match self.next_token() {
                    Result::Ok(t) => t,
                    Result::Err(e) => return Result::Err(e),
                };
                proof {
                    lemma_covers_combine(toks, p0, q2, q2, q2 + 1, span, right_paren@.span);
                }
                span = span.combine(&right_paren.span);
                return Result::Ok((data, span));
            }
            if pk == TokenKind::Period {
                let ghost q3 = self.pos as int;
                let period = match self.next_token() {
                    Result::Ok(t) => t,
                    Result::Err(e) => return Result::Err(e),
                };
                proof {
                    lemma_covers_combine(toks, p0, q3, q3, q3 + 1, span, period@.span);
                }
                span = span.combine(&period.span);
                let ghost q4 = self.pos as int;
                let left_paren = match self.expect(TokenKind::LeftParen) {
                    Result::Ok(t) => t,
                    Result::Err(e) => return Result::Err(e),
                };
                proof {
                    lemma_covers_combine(toks, p0, q4, q4, q4 + 1, span, left_paren@.span);
                }
                span = span.combine(&left_paren.span);
                let ghost q5 = self.pos as int;
                let ghost pre2 = data@;
                let (rec_data, rec_span) = match self.parse_datum_list(
                    left_paren.span,
                    Ghost(q4),
                ) {
                    Result::Ok(d) => d,
                    Result::Err(e) => return Result::Err(e),
                };
                let ghost rdv = ast::data_view(rec_data@);
                let rec_list = Datum::List { span: rec_span, l: ConsList::from_vec(rec_data) };
                proof {
                    assert(ast::datum_view(rec_list) == ast::DatumV::List {
                        span: rec_span,
                        l: rdv,
                    });
                    ast::lemma_data_view_push(pre2, rec_list);
                }
                data.push(rec_list);
                proof {
                    assert(ast::data_view(data@) =~= ast::data_view(pre2).push(
                        ast::datum_view(rec_list),
                    ));
                    lemma_covers_combine(toks, p0, q5, q4, self.pos as int, span, rec_span);
                }
                span = span.combine(&rec_span);
                let ghost q6 = self.pos as int;
                let right_paren = match self.expect(TokenKind::RightParen) {
                    Result::Ok(t) => t,
                    Result::Err(e) => return Result::Err(e),
                };
                proof {
                    lemma_covers_combine(toks, p0, q6, q6, q6 + 1, span, right_paren@.span);
                }
                span = span.combine(&right_paren.span);
                return Result::Ok((data, span));
            }
            proof {
                assert(p_datum_list(toks, tr0, q, span_q, ast::data_view(pre)) == p_datum_list(
                    toks,
                    tr0,
                    self.pos as int,
                    span,
                    ast::data_view(data@),
                ));
            }
        }
    }
}

} // verus!
