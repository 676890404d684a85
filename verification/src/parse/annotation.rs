//! Parsing annotations and the type-specification sub-grammar.
//!
//! Type specifications are parsed into a tree and never checked. The
//! concrete forms are an identifier, the bare keyword `Bottom`, or a
//! parenthesized constructor: `(Tuple <ts>*)`, `(List <ts>)`,
//! `(Vector <ts>)`, `(Function (<ts>*) (<ts>*))`, `(Sum <field>*)` and
//! `(Product <field>*)`, where a field is `(<literal> [<ts>])`.

use vstd::prelude::*;

use crate::ast;
use crate::ast::{
    Annotation, Identifier, Literal, NamedTypeSpec, TypeConstructor, TypeSpec,
};
use crate::error::{Error, ParseError};
use crate::parse::grammar::{
    p_annotation, p_doc_annotation, p_named_list, p_ts_list, p_type_annotation, p_type_ctor,
    p_type_spec, spec_error_view, Parsed,
};
use crate::parse::{covers, lemma_covers_combine, Parser};
use crate::span::Span;
use crate::text::str_eq;
use crate::token::{kind_name, TokenKind, TokenType};

verus! {

impl Parser {
    /// Parse an annotation `(<atom> <target> ...)`; `(` and the atom are
    /// already consumed.
    pub(super) fn parse_annotation(
        &mut self,
        initial_span: Span,
        annotation_type: String,
        Ghost(p0): Ghost<int>,
    ) -> (r: Result<Annotation, Error>)
        requires
            old(self).wf(),
            covers(old(self).tokens@, p0, old(self).pos as int, initial_span),
        ensures
            final(self).wf(),
            final(self).tokens == old(self).tokens,
            old(self).pos <= final(self).pos <= final(self).tokens@.len(),
            match r {
                Result::Ok(a) => covers(
                    old(self).tokens@,
                    p0,
                    final(self).pos as int,
                    ast::spec_annotation_span(a@),
                ) && final(self).trailing == old(self).trailing,
                Result::Err(_) => true,
            },
            p_annotation(
                old(self).tokens@,
                old(self).trailing,
                old(self).pos as int,
                initial_span,
                annotation_type@,
            ) == (match r {
                Result::Ok(a) => Parsed::Found { v: a@, next: final(self).pos as int },
                Result::Err(err) => Parsed::Failed(spec_error_view(err)),
            }),
        decreases old(self).tokens@.len() - old(self).pos, 1int,
    {
        if str_eq(annotation_type.as_str(), ":type") {
            self.parse_type_annotation(initial_span, Ghost(p0))
        } else if str_eq(annotation_type.as_str(), ":doc") {
            self.parse_doc_annotation(initial_span, Ghost(p0))
        } else {
            Result::Err(
                Error::Parse(
                    ParseError::InvalidAnnotation { loc: initial_span, found: annotation_type },
                ),
            )
        }
    }

    /// Parse a type annotation `(:type <target> <typespec>)`; `(` and
    /// `:type` are already consumed.
    #[verifier::rlimit(100)]
    fn parse_type_annotation(&mut self, initial_span: Span, Ghost(p0): Ghost<int>) -> (r: Result<
        Annotation,
        Error,
    >)
        requires
            old(self).wf(),
            covers(old(self).tokens@, p0, old(self).pos as int, initial_span),
        ensures
            final(self).wf(),
            final(self).tokens == old(self).tokens,
            old(self).pos <= final(self).pos <= final(self).tokens@.len(),
            match r {
                Result::Ok(a) => covers(
                    old(self).tokens@,
                    p0,
                    final(self).pos as int,
                    ast::spec_annotation_span(a@),
                ) && a@ is TypeAnnotation && final(self).trailing == old(self).trailing,
                Result::Err(_) => true,
            },
            p_type_annotation(
                old(self).tokens@,
                old(self).trailing,
                old(self).pos as int,
                initial_span,
            ) == (match r {
                Result::Ok(a) => Parsed::Found { v: a@, next: final(self).pos as int },
                Result::Err(err) => Parsed::Failed(spec_error_view(err)),
            }),
        decreases old(self).tokens@.len() - old(self).pos, 0int,
    {
        let ghost toks = self.tokens@;
        let ghost q = self.pos as int;
        let target = match self.expect(TokenKind::Identifier) {
            Result::Ok(t) => t,
            Result::Err(e) => return Result::Err(e),
        };
        proof {
            lemma_covers_combine(toks, p0, q, q, q + 1, initial_span, target@.span);
        }
        let mut span = initial_span.combine(&target.span);
        let ghost q2 = self.pos as int;
        let (type_spec, ts_span) = match self.parse_type_spec() {
            Result::Ok(t) => t,
            Result::Err(e) => return Result::Err(e),
        };
        proof {
            lemma_covers_combine(toks, p0, q2, q2, self.pos as int, span, ts_span);
        }
        span = span.combine(&ts_span);
        let ghost q3 = self.pos as int;
        let right_paren = match self.expect(TokenKind::RightParen) {
            Result::Ok(t) => t,
            Result::Err(e) => return Result::Err(e),
        };
        proof {
            lemma_covers_combine(toks, p0, q3, q3, q3 + 1, span, right_paren@.span);
        }
        span = span.combine(&right_paren.span);
        Result::Ok(
            Annotation::TypeAnnotation {
                span,
                target: Identifier::from_token(target),
                type_spec,
            },
        )
    }

    /// Parse a doc annotation `(:doc <target> <docstring>)`; `(` and
    /// `:doc` are already consumed.
    #[verifier::rlimit(100)]
    fn parse_doc_annotation(&mut self, initial_span: Span, Ghost(p0): Ghost<int>) -> (r: Result<
        Annotation,
        Error,
    >)
        requires
            old(self).wf(),
            covers(old(self).tokens@, p0, old(self).pos as int, initial_span),
        ensures
            final(self).wf(),
            final(self).tokens == old(self).tokens,
            old(self).pos <= final(self).pos <= final(self).tokens@.len(),
            match r {
                Result::Ok(a) => covers(
                    old(self).tokens@,
                    p0,
                    final(self).pos as int,
                    ast::spec_annotation_span(a@),
                ) && a@ is DocAnnotation && final(self).trailing == old(self).trailing,
                Result::Err(_) => true,
            },
            p_doc_annotation(
                old(self).tokens@,
                old(self).trailing,
                old(self).pos as int,
                initial_span,
            ) == (match r {
                Result::Ok(a) => Parsed::Found { v: a@, next: final(self).pos as int },
                Result::Err(err) => Parsed::Failed(spec_error_view(err)),
            }),
        decreases old(self).tokens@.len() - old(self).pos, 0int,
    {
        let ghost toks = self.tokens@;
        let ghost q = self.pos as int;
        let target = match self.expect(TokenKind::Identifier) {
            Result::Ok(t) => t,
            Result::Err(e) => return Result::Err(e),
        };
        proof {
            lemma_covers_combine(toks, p0, q, q, q + 1, initial_span, target@.span);
        }
        let mut span = initial_span.combine(&target.span);
        let ghost q2 = self.pos as int;
        let doc_str_token = match self.expect(TokenKind::String) {
            Result::Ok(t) => t,
            Result::Err(e) => return Result::Err(e),
        };
        proof {
            lemma_covers_combine(toks, p0, q2, q2, q2 + 1, span, doc_str_token@.span);
        }
        span = span.combine(&doc_str_token.span);
        let doc = match doc_str_token.t {
            TokenType::String(s) => s,
            _ => unreached(),
        };
        let ghost q3 = self.pos as int;
        let right_paren = match self.expect(TokenKind::RightParen) {
            Result::Ok(t) => t,
            Result::Err(e) => return Result::Err(e),
        };
        proof {
            lemma_covers_combine(toks, p0, q3, q3, q3 + 1, span, right_paren@.span);
        }
        span = span.combine(&right_paren.span);
        Result::Ok(
            Annotation::DocAnnotation { span, target: Identifier::from_token(target), doc },
        )
    }

    /// Parse a type specification and return it alongside its span.
    #[verifier::rlimit(100)]
    fn parse_type_spec(&mut self) -> (r: Result<(TypeSpec, Span), Error>)
        requires
            old(self).wf(),
        ensures
            final(self).wf(),
            final(self).tokens == old(self).tokens,
            old(self).pos <= final(self).pos <= final(self).tokens@.len(),
            match r {
                Result::Ok((t, s)) => covers(
                    old(self).tokens@,
                    old(self).pos as int,
                    final(self).pos as int,
                    s,
                ) && final(self).trailing == old(self).trailing,
                Result::Err(_) => true,
            },
            p_type_spec(old(self).tokens@, old(self).trailing, old(self).pos as int) == (match r {
                Result::Ok((t, s)) => Parsed::Found { v: (t@, s), next: final(self).pos as int },
                Result::Err(err) => Parsed::Failed(spec_error_view(err)),
            }),
        decreases old(self).tokens@.len() - old(self).pos, 0int,
    {
        let ghost toks = self.tokens@;
        let ghost p0 = self.pos as int;
        let token = match self.next_token() {
            Result::Ok(t) => t,
            Result::Err(e) => return Result::Err(e),
        };
        let span = token.span;
        let k = token.t.kind();
        if k == TokenKind::Identifier {
            Result::Ok((TypeSpec::Identifier(Identifier::from_token(token)), span))
        } else if k == TokenKind::TypeKwBottom {
            Result::Ok((TypeSpec::Constructor(TypeConstructor::Bottom { span }), span))
        } else if k == TokenKind::LeftParen {
            match self.parse_type_constructor(span, Ghost(p0)) {
                Result::Ok((c, s)) => Result::Ok((TypeSpec::Constructor(c), s)),
                Result::Err(e) => Result::Err(e),
            }
        } else {
            let mut expected: Vec<String> = Vec::new();
            expected.push(kind_name(TokenKind::Identifier));
            expected.push(kind_name(TokenKind::TypeKwBottom));
            expected.push(kind_name(TokenKind::LeftParen));
            proof {
                assert(expected@.map_values(|x: String| x@)
                    =~= crate::parse::grammar::spec_type_spec_start_names());
            }
            Result::Err(
                Error::Parse(
                    ParseError::UnexpectedToken {
                        loc: token.span,
                        found: token.t.name(),
                        expected,
                    },
                ),
            )
        }
    }

    /// Parse a parenthesized type constructor; `(` is already consumed.
    #[verifier::rlimit(100)]
    fn parse_type_constructor(&mut self, initial_span: Span, Ghost(p0): Ghost<int>) -> (r: Result<
        (TypeConstructor, Span),
        Error,
    >)
        requires
            old(self).wf(),
            covers(old(self).tokens@, p0, old(self).pos as int, initial_span),
        ensures
            final(self).wf(),
            final(self).tokens == old(self).tokens,
            old(self).pos <= final(self).pos <= final(self).tokens@.len(),
            match r {
                Result::Ok((c, s)) => covers(old(self).tokens@, p0, final(self).pos as int, s)
                    && final(self).trailing == old(self).trailing,
                Result::Err(_) => true,
            },
            p_type_ctor(
                old(self).tokens@,
                old(self).trailing,
                old(self).pos as int,
                initial_span,
            ) == (match r {
                Result::Ok((c, s)) => Parsed::Found { v: (c@, s), next: final(self).pos as int },
                Result::Err(err) => Parsed::Failed(spec_error_view(err)),
            }),
        decreases old(self).tokens@.len() - old(self).pos, 1int,
    {
        let ghost toks = self.tokens@;
        let ghost q0 = self.pos as int;
        let head = match self.next_token() {
            Result::Ok(t) => t,
            Result::Err(e) => return Result::Err(e),
        };
        proof {
            lemma_covers_combine(toks, p0, q0, q0, q0 + 1, initial_span, head@.span);
        }
        let mut span = initial_span.combine(&head.span);
        let k = head.t.kind();
        if k == TokenKind::TypeKwTuple {
            let (fields, s) = match self.parse_type_spec_list_to_paren(span, Ghost(p0)) {
                Result::Ok(v) => v,
                Result::Err(e) => return Result::Err(e),
            };
            Result::Ok((TypeConstructor::Tuple { span: s, fields }, s))
        } else if k == TokenKind::TypeKwList {
            let ghost q = self.pos as int;
            let (t, ts_span) = match self.parse_type_spec() {
                Result::Ok(t) => t,
                Result::Err(e) => return Result::Err(e),
            };
            proof {
                lemma_covers_combine(toks, p0, q, q, self.pos as int, span, ts_span);
            }
            span = span.combine(&ts_span);
            let ghost q2 = self.pos as int;
            let right_paren = match self.expect(TokenKind::RightParen) {
                Result::Ok(t) => t,
                Result::Err(e) => return Result::Err(e),
            };
            proof {
                lemma_covers_combine(toks, p0, q2, q2, q2 + 1, span, right_paren@.span);
            }
            span = span.combine(&right_paren.span);
            Result::Ok((TypeConstructor::List { span, t: Box::new(t) }, span))
        } else if k == TokenKind::TypeKwVector {
            let ghost q = self.pos as int;
            let (t, ts_span) = match self.parse_type_spec() {
                Result::Ok(t) => t,
                Result::Err(e) => return Result::Err(e),
            };
            proof {
                lemma_covers_combine(toks, p0, q, q, self.pos as int, span, ts_span);
            }
            span = span.combine(&ts_span);
            let ghost q2 = self.pos as int;
            let right_paren = match self.expect(TokenKind::RightParen) {
                Result::Ok(t) => t,
                Result::Err(e) => return Result::Err(e),
            };
            proof {
                lemma_covers_combine(toks, p0, q2, q2, q2 + 1, span, right_paren@.span);
            }
            span = span.combine(&right_paren.span);
            Result::Ok((TypeConstructor::Vector { span, t: Box::new(t) }, span))
        } else if k == TokenKind::TypeKwFunction {
            let ghost q = self.pos as int;
            let lp1 = match self.expect(TokenKind::LeftParen) {
                Result::Ok(t) => t,
                Result::Err(e) => return Result::Err(e),
            };
            proof {
                lemma_covers_combine(toks, p0, q, q, q + 1, span, lp1@.span);
            }
            span = span.combine(&lp1.span);
            let (arguments, s1) = match self.parse_type_spec_list_to_paren(span, Ghost(p0)) {
                Result::Ok(v) => v,
                Result::Err(e) => return Result::Err(e),
            };
            span = s1;
            let ghost q2 = self.pos as int;
            let lp2 = match self.expect(TokenKind::LeftParen) {
                Result::Ok(t) => t,
                Result::Err(e) => return Result::Err(e),
            };
            proof {
                lemma_covers_combine(toks, p0, q2, q2, q2 + 1, span, lp2@.span);
            }
            span = span.combine(&lp2.span);
            let (values, s2) = match self.parse_type_spec_list_to_paren(span, Ghost(p0)) {
                Result::Ok(v) => v,
                Result::Err(e) => return Result::Err(e),
            };
            span = s2;
            let ghost q3 = self.pos as int;
            let right_paren = match self.expect(TokenKind::RightParen) {
                Result::Ok(t) => t,
                Result::Err(e) => return Result::Err(e),
            };
            proof {
                lemma_covers_combine(toks, p0, q3, q3, q3 + 1, span, right_paren@.span);
            }
            span = span.combine(&right_paren.span);
            Result::Ok((TypeConstructor::Function { span, arguments, values }, span))
        } else if k == TokenKind::TypeKwSum {
            let (fields, s) = match self.parse_named_type_specs_to_paren(span, Ghost(p0)) {
                Result::Ok(v) => v,
                Result::Err(e) => return Result::Err(e),
            };
            Result::Ok((TypeConstructor::Sum { span: s, fields }, s))
        } else if k == TokenKind::TypeKwProduct {
            let (fields, s) = match self.parse_named_type_specs_to_paren(span, Ghost(p0)) {
                Result::Ok(v) => v,
                Result::Err(e) => return Result::Err(e),
            };
            Result::Ok((TypeConstructor::Product { span: s, fields }, s))
        } else {
            let mut expected: Vec<String> = Vec::new();
            expected.push(kind_name(TokenKind::TypeKwTuple));
            expected.push(kind_name(TokenKind::TypeKwList));
            expected.push(kind_name(TokenKind::TypeKwVector));
            expected.push(kind_name(TokenKind::TypeKwFunction));
            expected.push(kind_name(TokenKind::TypeKwSum));
            expected.push(kind_name(TokenKind::TypeKwProduct));
            proof {
                assert(expected@.map_values(|x: String| x@)
                    =~= crate::parse::grammar::spec_ctor_head_names());
            }
            Result::Err(
                Error::Parse(
                    ParseError::UnexpectedToken { loc: head.span, found: head.t.name(), expected },
                ),
            )
        }
    }

    /// Parse type specifications up to and including a closing `)`,
    /// extending `span` over everything consumed.
    #[verifier::loop_isolation(false)]
    fn parse_type_spec_list_to_paren(&mut self, span: Span, Ghost(p0): Ghost<int>) -> (r: Result<
        (Vec<TypeSpec>, Span),
        Error,
    >)
        requires
            old(self).wf(),
            covers(old(self).tokens@, p0, old(self).pos as int, span),
        ensures
            final(self).wf(),
            final(self).tokens == old(self).tokens,
            old(self).pos <= final(self).pos <= final(self).tokens@.len(),
            match r {
                Result::Ok((v, s)) => covers(old(self).tokens@, p0, final(self).pos as int, s)
                    && final(self).trailing == old(self).trailing,
                Result::Err(_) => true,
            },
            p_ts_list(
                old(self).tokens@,
                old(self).trailing,
                old(self).pos as int,
                span,
                Seq::empty(),
            ) == (match r {
                Result::Ok((v, s)) => Parsed::Found {
                    v: (ast::type_specs_view(v@), s),
                    next: final(self).pos as int,
                },
                Result::Err(err) => Parsed::Failed(spec_error_view(err)),
            }),
        decreases old(self).tokens@.len() - old(self).pos, 1int,
    {
        let ghost toks = self.tokens@;
        let ghost tr0 = self.trailing;
        let ghost pos0 = self.pos as int;
        let ghost span0 = span;
        let mut span = span;
        let mut fields: Vec<TypeSpec> = Vec::new();
        proof {
            assert(ast::type_specs_view(fields@) =~= Seq::<ast::TypeSpecV>::empty());
        }
        while self.peek_kind() != TokenKind::RightParen
            invariant
                self.wf(),
                self.tokens == old(self).tokens,
                old(self).pos <= self.pos <= toks.len(),
                toks == self.tokens@,
                covers(toks, p0, self.pos as int, span),
                self.trailing == old(self).trailing,
                p_ts_list(toks, tr0, pos0, span0, Seq::empty()) == p_ts_list(
                    toks,
                    tr0,
                    self.pos as int,
                    span,
                    ast::type_specs_view(fields@),
                ),
            decreases toks.len() - self.pos,
        {
            let ghost q = self.pos as int;
            let ghost pre = fields@;
            let (t, ts_span) = match self.parse_type_spec() {
                Result::Ok(t) => t,
                Result::Err(e) => return Result::Err(e),
            };
            proof {
                lemma_covers_combine(toks, p0, q, q, self.pos as int, span, ts_span);
            }
            span = span.combine(&ts_span);
            let ghost tv = t@;
            fields.push(t);
            proof {
                ast::lemma_type_specs_view_elems(pre);
                ast::lemma_type_specs_view_elems(fields@);
                assert(ast::type_specs_view(fields@) =~= ast::type_specs_view(pre).push(tv));
            }
        }
        let ghost q = self.pos as int;
        let right_paren = match self.expect(TokenKind::RightParen) {
            Result::Ok(t) => t,
            Result::Err(e) => return Result::Err(e),
        };
        proof {
            lemma_covers_combine(toks, p0, q, q, q + 1, span, right_paren@.span);
        }
        let span = span.combine(&right_paren.span);
        Result::Ok((fields, span))
    }

    /// Parse named fields `(<literal> [<typespec>])*` up to and including a
    /// closing `)`, extending `span` over everything consumed.
    #[verifier::loop_isolation(false)]
    fn parse_named_type_specs_to_paren(&mut self, span: Span, Ghost(p0): Ghost<int>) -> (r: Result<
        (Vec<NamedTypeSpec>, Span),
        Error,
    >)
        requires
            old(self).wf(),
            covers(old(self).tokens@, p0, old(self).pos as int, span),
        ensures
            final(self).wf(),
            final(self).tokens == old(self).tokens,
            old(self).pos <= final(self).pos <= final(self).tokens@.len(),
            match r {
                Result::Ok((v, s)) => covers(old(self).tokens@, p0, final(self).pos as int, s)
                    && final(self).trailing == old(self).trailing,
                Result::Err(_) => true,
            },
            p_named_list(
                old(self).tokens@,
                old(self).trailing,
                old(self).pos as int,
                span,
                Seq::empty(),
            ) == (match r {
                Result::Ok((v, s)) => Parsed::Found {
                    v: (ast::named_type_specs_view(v@), s),
                    next: final(self).pos as int,
                },
                Result::Err(err) => Parsed::Failed(spec_error_view(err)),
            }),
        decreases old(self).tokens@.len() - old(self).pos, 1int,
    {
        let ghost toks = self.tokens@;
        let ghost tr0 = self.trailing;
        let ghost pos0 = self.pos as int;
        let ghost span_at_entry = span;
        let mut span = span;
        let mut fields: Vec<NamedTypeSpec> = Vec::new();
        proof {
            assert(ast::named_type_specs_view(fields@) =~= Seq::<ast::NamedTypeSpecV>::empty());
        }
        while self.peek_kind() != TokenKind::RightParen
            invariant
                self.wf(),
                self.tokens == old(self).tokens,
                old(self).pos <= self.pos <= toks.len(),
                toks == self.tokens@,
                covers(toks, p0, self.pos as int, span),
                self.trailing == old(self).trailing,
                p_named_list(toks, tr0, pos0, span_at_entry, Seq::empty()) == p_named_list(
                    toks,
                    tr0,
                    self.pos as int,
                    span,
                    ast::named_type_specs_view(fields@),
                ),
            decreases toks.len() - self.pos,
        {
            let ghost q = self.pos as int;
            let lp = match self.expect(TokenKind::LeftParen) {
                Result::Ok(t) => t,
                Result::Err(e) => return Result::Err(e),
            };
            proof {
                lemma_covers_combine(toks, p0, q, q, q + 1, span, lp@.span);
            }
            span = span.combine(&lp.span);
            let mut field_span = lp.span;
            let ghost q2 = self.pos as int;
            let name_token = match self.next_token() {
                Result::Ok(t) => t,
                Result::Err(e) => return Result::Err(e),
            };
            let nk = name_token.t.kind();
            if !(nk == TokenKind::Boolean || nk == TokenKind::Integer || nk == TokenKind::Float
                || nk == TokenKind::Character || nk == TokenKind::String || nk
                == TokenKind::Atom) {
                return Result::Err(
                    Error::Parse(
                        ParseError::InvalidDatum {
                            loc: name_token.span,
                            found: name_token.t.name(),
                        },
                    ),
                );
            }
            proof {
                lemma_covers_combine(toks, p0, q2, q2, q2 + 1, span, name_token@.span);
                lemma_covers_combine(
                    toks,
                    q2 - 1,
                    q2,
                    q2,
                    q2 + 1,
                    lp@.span,
                    name_token@.span,
                );
            }
            span = span.combine(&name_token.span);
            field_span = field_span.combine(&name_token.span);
            let name = Literal::from_token(name_token);
            let type_spec: Option<TypeSpec> = if self.peek_kind() != TokenKind::RightParen {
                let ghost q3 = self.pos as int;
                let (t, ts_span) = match self.parse_type_spec() {
                    Result::Ok(t) => t,
                    Result::Err(e) => return Result::Err(e),
                };
                proof {
                    lemma_covers_combine(toks, p0, q3, q3, self.pos as int, span, ts_span);
                    lemma_covers_combine(
                        toks,
                        q2 - 1,
                        q3,
                        q3,
                        self.pos as int,
                        field_span,
                        ts_span,
                    );
                }
                span = span.combine(&ts_span);
                field_span = field_span.combine(&ts_span);
                Option::Some(t)
            } else {
                Option::None
            };
            let ghost q4 = self.pos as int;
            let rp = match self.expect(TokenKind::RightParen) {
                Result::Ok(t) => t,
                Result::Err(e) => return Result::Err(e),
            };
            proof {
                lemma_covers_combine(toks, p0, q4, q4, q4 + 1, span, rp@.span);
                lemma_covers_combine(toks, q2 - 1, q4, q4, q4 + 1, field_span, rp@.span);
            }
            span = span.combine(&rp.span);
            field_span = field_span.combine(&rp.span);
            let ghost pre = fields@;
            let nf = NamedTypeSpec { span: field_span, name, type_spec };
            let ghost nfv = ast::named_type_spec_view(nf);
            fields.push(nf);
            proof {
                ast::lemma_named_type_specs_view_elems(pre);
                ast::lemma_named_type_specs_view_elems(fields@);
                assert(ast::named_type_specs_view(fields@) =~= ast::named_type_specs_view(
                    pre,
                ).push(nfv));
            }
        }
        let ghost q = self.pos as int;
        let right_paren = match self.expect(TokenKind::RightParen) {
            Result::Ok(t) => t,
            Result::Err(e) => return Result::Err(e),
        };
        proof {
            lemma_covers_combine(toks, p0, q, q, q + 1, span, right_paren@.span);
        }
        let span = span.combine(&right_paren.span);
        Result::Ok((fields, span))
    }
}

} // verus!
