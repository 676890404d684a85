//! The span-annotated syntax tree: expressions, literals, quoted data, and
//! type specifications, together with their mathematical shapes.

use vstd::prelude::*;

use crate::span::Span;
use crate::token::{Token, TokenType, TokenTypeV, TokenV};

verus! {

/// A single program: its top-level expressions, in source order.
#[derive(Debug)]
pub struct Program(pub Vec<Expression>);

impl View for Program {
    type V = Seq<ExpressionV>;

    open spec fn view(&self) -> Seq<ExpressionV> {
        exprs_view(self.0@)
    }
}

/// A single identifier.
#[derive(Debug)]
pub struct Identifier {
    /// The region of source code wrapped by this identifier.
    pub span: Span,
    /// The identifier itself.
    pub id: String,
}

/// The mathematical shape of an [`Identifier`].
pub struct IdentifierV {
    /// The region of source code wrapped by this identifier.
    pub span: Span,
    /// The identifier itself.
    pub id: Seq<char>,
}

impl View for Identifier {
    type V = IdentifierV;

    open spec fn view(&self) -> IdentifierV {
        IdentifierV { span: self.span, id: self.id@ }
    }
}

impl Identifier {
    /// Build an identifier from an identifier token.
    pub fn from_token(t: Token) -> (r: Identifier)
        requires
            t@.t is Identifier,
        ensures
            r@.span == t@.span,
            r@.id == t@.t->Identifier_0,
    {
        match t.t {
            TokenType::Identifier(id) => Identifier { span: t.span, id },
            _ => unreached(),
        }
    }

    /// An independent copy of this identifier.
    pub fn duplicate(&self) -> (r: Identifier)
        ensures
            r@ == self@,
    {
        Identifier { span: self.span, id: clone_string(&self.id) }
    }
}

/// An independent copy of a string, pinned to the same text.
pub fn clone_string(s: &String) -> (r: String)
    ensures
        r@ == s@,
{
    s.clone()
}

/// A single expression.
#[derive(Debug)]
pub enum Expression {
    /// A name for an existing type.
    TypeAlias {
        /// The region of source code wrapped by this expression.
        span: Span,
        /// The name being introduced.
        target: Identifier,
        /// The type the name stands for.
        type_spec: TypeSpec,
    },
    /// A definition of a new algebraic type.
    AlgebraicTypeDefinition {
        /// The region of source code wrapped by this expression.
        span: Span,
        /// The name being introduced.
        target: Identifier,
        /// The shape of the new type.
        type_spec: TypeSpec,
    },
    /// A `:type` or `:doc` annotation.
    Annotation(Annotation),
    /// A literal value.
    Literal(Literal),
    /// A bare identifier.
    Identifier(Identifier),
    /// A binding of a value to a name, `(let <target> <value>)`.
    Definition {
        /// The region of source code wrapped by this expression.
        span: Span,
        /// The name being bound.
        target: Identifier,
        /// The expression whose value is bound.
        value: Box<Expression>,
    },
    /// An ordered sequence of expressions, `(seq <expression>+)`.
    Sequence {
        /// The region of source code wrapped by this expression.
        span: Span,
        /// The expressions, in source order.
        seq: Vec<Expression>,
    },
    /// A call, `(<operator> <operands>*)`.
    ProcedureCall {
        /// The region of source code wrapped by this expression.
        span: Span,
        /// The operator being called.
        operator: Identifier,
        /// The operand expressions, in source order.
        operands: Vec<Expression>,
    },
    /// An anonymous function, `(lambda <formals> <body>*)`.
    LambdaExpression {
        /// The region of source code wrapped by this expression.
        span: Span,
        /// The formal parameters.
        formals: Vec<Identifier>,
        /// The body expressions, in source order.
        body: Vec<Expression>,
    },
    /// A conditional, `(if <test> <consequent> [<alternate>])`.
    Conditional {
        /// The region of source code wrapped by this expression.
        span: Span,
        /// The tested expression.
        test: Box<Expression>,
        /// The expression evaluated when the test is truthy.
        consequent: Box<Expression>,
        /// The expression evaluated when the test is not truthy, if any.
        alternate: Option<Box<Expression>>,
    },
    /// A source inclusion, `(include <string>+)`.
    Inclusion {
        /// The region of source code wrapped by this expression.
        span: Span,
        /// The files to include, in source order.
        files: Vec<String>,
    },
}

/// The mathematical shape of an [`Expression`].
pub enum ExpressionV {
    /// A name for an existing type.
    TypeAlias { span: Span, target: IdentifierV, type_spec: TypeSpecV },
    /// A definition of a new algebraic type.
    AlgebraicTypeDefinition { span: Span, target: IdentifierV, type_spec: TypeSpecV },
    /// A `:type` or `:doc` annotation.
    Annotation(AnnotationV),
    /// A literal value.
    Literal(LiteralV),
    /// A bare identifier.
    Identifier(IdentifierV),
    /// A binding of a value to a name.
    Definition { span: Span, target: IdentifierV, value: Box<ExpressionV> },
    /// An ordered sequence of expressions.
    Sequence { span: Span, seq: Seq<ExpressionV> },
    /// A call.
    ProcedureCall { span: Span, operator: IdentifierV, operands: Seq<ExpressionV> },
    /// An anonymous function.
    LambdaExpression { span: Span, formals: Seq<IdentifierV>, body: Seq<ExpressionV> },
    /// A conditional.
    Conditional {
        span: Span,
        test: Box<ExpressionV>,
        consequent: Box<ExpressionV>,
        alternate: Option<Box<ExpressionV>>,
    },
    /// A source inclusion.
    Inclusion { span: Span, files: Seq<Seq<char>> },
}

/// The shape of an expression.
pub open spec fn expr_view(e: Expression) -> ExpressionV
    decreases e,
{
    match e {
        Expression::TypeAlias { span, target, type_spec } => ExpressionV::TypeAlias {
            span,
            target: target@,
            type_spec: type_spec_view(type_spec),
        },
        Expression::AlgebraicTypeDefinition { span, target, type_spec } => {
            ExpressionV::AlgebraicTypeDefinition {
                span,
                target: target@,
                type_spec: type_spec_view(type_spec),
            }
        },
        Expression::Annotation(a) => ExpressionV::Annotation(a@),
        Expression::Literal(l) => ExpressionV::Literal(l@),
        Expression::Identifier(i) => ExpressionV::Identifier(i@),
        Expression::Definition { span, target, value } => ExpressionV::Definition {
            span,
            target: target@,
            value: Box::new(expr_view(*value)),
        },
        Expression::Sequence { span, seq } => ExpressionV::Sequence {
            span,
            seq: exprs_view(seq@),
        },
        Expression::ProcedureCall { span, operator, operands } => ExpressionV::ProcedureCall {
            span,
            operator: operator@,
            operands: exprs_view(operands@),
        },
        Expression::LambdaExpression { span, formals, body } => ExpressionV::LambdaExpression {
            span,
            formals: idents_view(formals@),
            body: exprs_view(body@),
        },
        Expression::Conditional { span, test, consequent, alternate } => ExpressionV::Conditional {
            span,
            test: Box::new(expr_view(*test)),
            consequent: Box::new(expr_view(*consequent)),
            alternate: match alternate {
                Option::Some(a) => Option::Some(Box::new(expr_view(*a))),
                Option::None => Option::None,
            },
        },
        Expression::Inclusion { span, files } => ExpressionV::Inclusion {
            span,
            files: files@.map_values(|f: String| f@),
        },
    }
}

/// The shapes of a sequence of expressions.
pub open spec fn exprs_view(s: Seq<Expression>) -> Seq<ExpressionV>
    decreases s,
{
    if s.len() == 0 {
        Seq::empty()
    } else {
        seq![expr_view(s[0])] + exprs_view(s.drop_first())
    }
}

/// The shapes of a sequence of identifiers.
pub open spec fn idents_view(s: Seq<Identifier>) -> Seq<IdentifierV> {
    s.map_values(|i: Identifier| i@)
}

/// `exprs_view` maps the shape over the sequence, element by element.
pub proof fn lemma_exprs_view_elems(s: Seq<Expression>)
    ensures
        exprs_view(s).len() == s.len(),
        forall|i: int| 0 <= i < s.len() ==> exprs_view(s)[i] == expr_view(s[i]),
    decreases s,
{
    if s.len() > 0 {
        lemma_exprs_view_elems(s.drop_first());
    }
}

impl View for Expression {
    type V = ExpressionV;

    open spec fn view(&self) -> ExpressionV {
        expr_view(*self)
    }
}

impl Expression {
    /// The region of source code wrapped by this expression.
    pub fn span(&self) -> (r: Span)
        ensures
            r == spec_expr_span(self@),
    {
        match self {
            Expression::TypeAlias { span, .. } => *span,
            Expression::AlgebraicTypeDefinition { span, .. } => *span,
            Expression::Annotation(a) => a.span(),
            Expression::Literal(l) => l.span(),
            Expression::Identifier(i) => i.span,
            Expression::Definition { span, .. } => *span,
            Expression::Sequence { span, .. } => *span,
            Expression::ProcedureCall { span, .. } => *span,
            Expression::LambdaExpression { span, .. } => *span,
            Expression::Conditional { span, .. } => *span,
            Expression::Inclusion { span, .. } => *span,
        }
    }
}

/// The region of source code wrapped by an expression shape.
pub open spec fn spec_expr_span(e: ExpressionV) -> Span {
    match e {
        ExpressionV::TypeAlias { span, .. } => span,
        ExpressionV::AlgebraicTypeDefinition { span, .. } => span,
        ExpressionV::Annotation(a) => spec_annotation_span(a),
        ExpressionV::Literal(l) => spec_literal_span(l),
        ExpressionV::Identifier(i) => i.span,
        ExpressionV::Definition { span, .. } => span,
        ExpressionV::Sequence { span, .. } => span,
        ExpressionV::ProcedureCall { span, .. } => span,
        ExpressionV::LambdaExpression { span, .. } => span,
        ExpressionV::Conditional { span, .. } => span,
        ExpressionV::Inclusion { span, .. } => span,
    }
}

/// A literal value.
#[derive(Debug)]
pub enum Literal {
    /// Quoted data: code held as data, never evaluated.
    Quotation {
        /// The region of source code wrapped by this literal.
        span: Span,
        /// The quoted datum.
        q: Datum,
    },
    /// A boolean literal.
    Boolean {
        /// The region of source code wrapped by this literal.
        span: Span,
        /// The value.
        b: bool,
    },
    /// An integer literal.
    Integer {
        /// The region of source code wrapped by this literal.
        span: Span,
        /// The value.
        i: u64,
    },
    /// A float literal, kept as its decimal text.
    Float {
        /// The region of source code wrapped by this literal.
        span: Span,
        /// The text of the literal, underscores stripped.
        text: String,
    },
    /// A character literal.
    Character {
        /// The region of source code wrapped by this literal.
        span: Span,
        /// The value.
        c: char,
    },
    /// A string literal.
    String {
        /// The region of source code wrapped by this literal.
        span: Span,
        /// The contents, kept exactly as written (escapes not processed).
        s: String,
    },
    /// An atom literal.
    Atom {
        /// The region of source code wrapped by this literal.
        span: Span,
        /// The atom's text, colon included.
        a: String,
    },
}

/// The mathematical shape of a [`Literal`].
pub enum LiteralV {
    /// Quoted data.
    Quotation { span: Span, q: DatumV },
    /// A boolean literal.
    Boolean { span: Span, b: bool },
    /// An integer literal.
    Integer { span: Span, i: u64 },
    /// A float literal, kept as its decimal text.
    Float { span: Span, text: Seq<char> },
    /// A character literal.
    Character { span: Span, c: char },
    /// A string literal.
    String { span: Span, s: Seq<char> },
    /// An atom literal.
    Atom { span: Span, a: Seq<char> },
}

/// The shape of a literal.
pub open spec fn literal_view(l: Literal) -> LiteralV
    decreases l,
{
    match l {
        Literal::Quotation { span, q } => LiteralV::Quotation { span, q: datum_view(q) },
        Literal::Boolean { span, b } => LiteralV::Boolean { span, b },
        Literal::Integer { span, i } => LiteralV::Integer { span, i },
        Literal::Float { span, text } => LiteralV::Float { span, text: text@ },
        Literal::Character { span, c } => LiteralV::Character { span, c },
        Literal::String { span, s } => LiteralV::String { span, s: s@ },
        Literal::Atom { span, a } => LiteralV::Atom { span, a: a@ },
    }
}

impl View for Literal {
    type V = LiteralV;

    open spec fn view(&self) -> LiteralV {
        literal_view(*self)
    }
}

/// The region of source code wrapped by a literal shape.
pub open spec fn spec_literal_span(l: LiteralV) -> Span {
    match l {
        LiteralV::Quotation { span, .. } => span,
        LiteralV::Boolean { span, .. } => span,
        LiteralV::Integer { span, .. } => span,
        LiteralV::Float { span, .. } => span,
        LiteralV::Character { span, .. } => span,
        LiteralV::String { span, .. } => span,
        LiteralV::Atom { span, .. } => span,
    }
}

impl Literal {
    /// The region of source code wrapped by this literal.
    pub fn span(&self) -> (r: Span)
        ensures
            r == spec_literal_span(self@),
    {
        match self {
            Literal::Quotation { span, .. } => *span,
            Literal::Boolean { span, .. } => *span,
            Literal::Integer { span, .. } => *span,
            Literal::Float { span, .. } => *span,
            Literal::Character { span, .. } => *span,
            Literal::String { span, .. } => *span,
            Literal::Atom { span, .. } => *span,
        }
    }

    /// Build a literal from a literal token.
    pub fn from_token(t: Token) -> (r: Literal)
        requires
            spec_token_is_literal(t@.t),
        ensures
            r@ == spec_literal_of_token(t@),
    {
        match t.t {
            TokenType::Boolean(b) => Literal::Boolean { span: t.span, b },
            TokenType::Integer(i) => Literal::Integer { span: t.span, i },
            TokenType::Float(text) => Literal::Float { span: t.span, text },
            TokenType::Character(c) => Literal::Character { span: t.span, c },
            TokenType::String(s) => Literal::String { span: t.span, s },
            TokenType::Atom(a) => Literal::Atom { span: t.span, a },
            _ => unreached(),
        }
    }
}

/// Whether a token holds a scalar literal payload.
pub open spec fn spec_token_is_literal(t: TokenTypeV) -> bool {
    ||| t is Boolean
    ||| t is Integer
    ||| t is Float
    ||| t is Character
    ||| t is String
    ||| t is Atom
}

/// The literal shape a scalar literal token converts to.
pub open spec fn spec_literal_of_token(t: TokenV) -> LiteralV {
    match t.t {
        TokenTypeV::Boolean(b) => LiteralV::Boolean { span: t.span, b },
        TokenTypeV::Integer(i) => LiteralV::Integer { span: t.span, i },
        TokenTypeV::Float(text) => LiteralV::Float { span: t.span, text },
        TokenTypeV::Character(c) => LiteralV::Character { span: t.span, c },
        TokenTypeV::String(s) => LiteralV::String { span: t.span, s },
        TokenTypeV::Atom(a) => LiteralV::Atom { span: t.span, a },
        _ => LiteralV::Boolean { span: t.span, b: false },
    }
}

/// A datum: the unevaluated s-expression shape produced inside `quote`.
/// It mirrors the literal shapes but never triggers evaluation; a quoted
/// identifier stays a name.
#[derive(Debug)]
pub enum Datum {
    /// A quoted identifier.
    Identifier {
        /// The region of source code wrapped by this datum.
        span: Span,
        /// The identifier itself.
        id: String,
    },
    /// A boolean datum.
    Boolean {
        /// The region of source code wrapped by this datum.
        span: Span,
        /// The value.
        b: bool,
    },
    /// An integer datum.
    Integer {
        /// The region of source code wrapped by this datum.
        span: Span,
        /// The value.
        i: u64,
    },
    /// A float datum, kept as its decimal text.
    Float {
        /// The region of source code wrapped by this datum.
        span: Span,
        /// The text of the literal, underscores stripped.
        text: String,
    },
    /// A character datum.
    Character {
        /// The region of source code wrapped by this datum.
        span: Span,
        /// The value.
        c: char,
    },
    /// A string datum.
    String {
        /// The region of source code wrapped by this datum.
        span: Span,
        /// The contents, kept exactly as written.
        s: String,
    },
    /// An atom datum.
    Atom {
        /// The region of source code wrapped by this datum.
        span: Span,
        /// The atom's text, colon included.
        a: String,
    },
    /// A list of data.
    List {
        /// The region of source code wrapped by this datum.
        span: Span,
        /// The elements, as a cons list.
        l: ConsList,
    },
}

/// The mathematical shape of a [`Datum`].
pub enum DatumV {
    /// A quoted identifier.
    Identifier { span: Span, id: Seq<char> },
    /// A boolean datum.
    Boolean { span: Span, b: bool },
    /// An integer datum.
    Integer { span: Span, i: u64 },
    /// A float datum, kept as its decimal text.
    Float { span: Span, text: Seq<char> },
    /// A character datum.
    Character { span: Span, c: char },
    /// A string datum.
    String { span: Span, s: Seq<char> },
    /// An atom datum.
    Atom { span: Span, a: Seq<char> },
    /// A list of data.
    List { span: Span, l: Seq<DatumV> },
}

/// The shape of a datum.
pub open spec fn datum_view(d: Datum) -> DatumV
    decreases d,
{
    match d {
        Datum::Identifier { span, id } => DatumV::Identifier { span, id: id@ },
        Datum::Boolean { span, b } => DatumV::Boolean { span, b },
        Datum::Integer { span, i } => DatumV::Integer { span, i },
        Datum::Float { span, text } => DatumV::Float { span, text: text@ },
        Datum::Character { span, c } => DatumV::Character { span, c },
        Datum::String { span, s } => DatumV::String { span, s: s@ },
        Datum::Atom { span, a } => DatumV::Atom { span, a: a@ },
        Datum::List { span, l } => DatumV::List { span, l: cons_view(l.head) },
    }
}

/// The shapes of a sequence of data.
pub open spec fn data_view(s: Seq<Datum>) -> Seq<DatumV>
    decreases s,
{
    if s.len() == 0 {
        Seq::empty()
    } else {
        seq![datum_view(s[0])] + data_view(s.drop_first())
    }
}

/// `data_view` maps the shape over the sequence, element by element.
pub proof fn lemma_data_view_elems(s: Seq<Datum>)
    ensures
        data_view(s).len() == s.len(),
        forall|i: int| 0 <= i < s.len() ==> data_view(s)[i] == datum_view(s[i]),
    decreases s,
{
    if s.len() > 0 {
        lemma_data_view_elems(s.drop_first());
    }
}

impl View for Datum {
    type V = DatumV;

    open spec fn view(&self) -> DatumV {
        datum_view(*self)
    }
}

/// The region of source code wrapped by a datum shape.
pub open spec fn spec_datum_span(d: DatumV) -> Span {
    match d {
        DatumV::Identifier { span, .. } => span,
        DatumV::Boolean { span, .. } => span,
        DatumV::Integer { span, .. } => span,
        DatumV::Float { span, .. } => span,
        DatumV::Character { span, .. } => span,
        DatumV::String { span, .. } => span,
        DatumV::Atom { span, .. } => span,
        DatumV::List { span, .. } => span,
    }
}

impl Datum {
    /// Build a datum from a scalar token.
    pub fn from_token(t: Token) -> (r: Datum)
        requires
            spec_token_is_literal(t@.t) || t@.t is Identifier,
        ensures
            r@ == spec_datum_of_token(t@),
    {
        match t.t {
            TokenType::Identifier(id) => Datum::Identifier { span: t.span, id },
            TokenType::Boolean(b) => Datum::Boolean { span: t.span, b },
            TokenType::Integer(i) => Datum::Integer { span: t.span, i },
            TokenType::Float(text) => Datum::Float { span: t.span, text },
            TokenType::Character(c) => Datum::Character { span: t.span, c },
            TokenType::String(s) => Datum::String { span: t.span, s },
            TokenType::Atom(a) => Datum::Atom { span: t.span, a },
            _ => unreached(),
        }
    }
}

impl Token {
    /// Convert the token to a quotation [`Literal`]: the token's own datum
    /// shape, held as quoted data under the token's span.
    pub fn to_quotation(self) -> (r: Literal)
        requires
            spec_token_is_literal(self@.t) || self@.t is Identifier,
        ensures
            r@ == (LiteralV::Quotation { span: self@.span, q: spec_datum_of_token(self@) }),
    {
        let span = self.span;
        Literal::Quotation { span, q: Datum::from_token(self) }
    }
}

/// The datum shape a scalar token converts to.
pub open spec fn spec_datum_of_token(t: TokenV) -> DatumV {
    match t.t {
        TokenTypeV::Identifier(id) => DatumV::Identifier { span: t.span, id },
        TokenTypeV::Boolean(b) => DatumV::Boolean { span: t.span, b },
        TokenTypeV::Integer(i) => DatumV::Integer { span: t.span, i },
        TokenTypeV::Float(text) => DatumV::Float { span: t.span, text },
        TokenTypeV::Character(c) => DatumV::Character { span: t.span, c },
        TokenTypeV::String(s) => DatumV::String { span: t.span, s },
        TokenTypeV::Atom(a) => DatumV::Atom { span: t.span, a },
        _ => DatumV::Boolean { span: t.span, b: false },
    }
}

/// A linked list of [`ConsCell`]s.
#[derive(Debug)]
pub struct ConsList {
    /// The head of the linked list, absent when the list is empty.
    pub head: Option<Box<ConsCell>>,
}

/// A cons cell used to define lists.
#[derive(Debug)]
pub struct ConsCell {
    /// The head (car) of the cell.
    pub head: Datum,
    /// The tail (cdr) of the cell, absent at the end of the list.
    pub tail: Option<Box<ConsCell>>,
}

/// The data held by a chain of cons cells.
pub open spec fn cons_view(c: Option<Box<ConsCell>>) -> Seq<DatumV>
    decreases c,
{
    match c {
        Option::None => Seq::empty(),
        Option::Some(cell) => seq![datum_view(cell.head)] + cons_view(cell.tail),
    }
}

impl View for ConsList {
    type V = Seq<DatumV>;

    open spec fn view(&self) -> Seq<DatumV> {
        cons_view(self.head)
    }
}

impl ConsList {
    /// Build a cons list holding the data of `value`, in order.
    pub fn from_vec(value: Vec<Datum>) -> (r: ConsList)
        ensures
            r@ == data_view(value@),
    {
        let ghost v0 = value@;
        let head = vec_to_cons_helper(value, 0);
        proof {
            assert(v0.subrange(0, v0.len() as int) =~= v0);
        }
        ConsList { head }
    }

    /// The data of this cons list, in order, as a vector.
    pub fn to_vec(self) -> (r: Vec<Datum>)
        ensures
            data_view(r@) == self@,
    {
        let mut collector: Vec<Datum> = Vec::new();
        match self.head {
            Option::Some(boxed_head) => cons_to_vec_helper(collector, *boxed_head),
            Option::None => collector,
        }
    }
}

/// Change the tail of a vector, from index `from` on, into a cons chain.
fn vec_to_cons_helper(value: Vec<Datum>, from: usize) -> (r: Option<Box<ConsCell>>)
    requires
        from <= value@.len(),
    ensures
        cons_view(r) == data_view(value@.subrange(from as int, value@.len() as int)),
    decreases value@.len() - from,
{
    if from < value.len() {
        let head = value[from].duplicate();
        let tail = vec_to_cons_helper(value, from + 1);
        proof {
            let rest = value@.subrange(from as int, value@.len() as int);
            assert(rest.drop_first() =~= value@.subrange(from + 1, value@.len() as int));
            assert(rest[0] == value@[from as int]);
        }
        Option::Some(Box::new(ConsCell { head, tail }))
    } else {
        proof {
            assert(value@.subrange(from as int, value@.len() as int) =~= Seq::<Datum>::empty());
        }
        Option::None
    }
}

/// Push a cons chain's data onto the back of `collector`, in order.
fn cons_to_vec_helper(collector: Vec<Datum>, list: ConsCell) -> (r: Vec<Datum>)
    ensures
        data_view(r@) == data_view(collector@) + seq![datum_view(list.head)] + cons_view(
            list.tail,
        ),
    decreases list,
{
    let mut collector = collector;
    let ghost old_collector = collector@;
    collector.push(list.head);
    proof {
        lemma_data_view_push(old_collector, collector@[old_collector.len() as int]);
        assert(collector@ =~= old_collector.push(collector@[old_collector.len() as int]));
    }
    match list.tail {
        Option::Some(cell) => {
            let r = cons_to_vec_helper(collector, *cell);
            proof {
                assert(data_view(r@) =~= data_view(old_collector) + seq![datum_view(list.head)]
                    + cons_view(list.tail));
            }
            r
        },
        Option::None => {
            proof {
                assert(data_view(collector@) =~= data_view(old_collector) + seq![datum_view(
                    list.head,
                )] + cons_view(list.tail));
            }
            collector
        },
    }
}

/// Appending one datum appends its shape.
pub proof fn lemma_data_view_push(s: Seq<Datum>, d: Datum)
    ensures
        data_view(s.push(d)) == data_view(s) + seq![datum_view(d)],
{
    lemma_data_view_elems(s);
    lemma_data_view_elems(s.push(d));
    assert(data_view(s.push(d)) =~= data_view(s) + seq![datum_view(d)]);
}

impl Expression {
    /// An independent copy of this expression.
    pub fn duplicate(&self) -> (r: Expression)
        ensures
            r@ == self@,
        decreases self,
    {
        match self {
            Expression::TypeAlias { span, target, type_spec } => Expression::TypeAlias {
                span: *span,
                target: target.duplicate(),
                type_spec: type_spec.duplicate(),
            },
            Expression::AlgebraicTypeDefinition { span, target, type_spec } => {
                Expression::AlgebraicTypeDefinition {
                    span: *span,
                    target: target.duplicate(),
                    type_spec: type_spec.duplicate(),
                }
            },
            Expression::Annotation(a) => Expression::Annotation(a.duplicate()),
            Expression::Literal(l) => Expression::Literal(l.duplicate()),
            Expression::Identifier(i) => Expression::Identifier(i.duplicate()),
            Expression::Definition { span, target, value } => Expression::Definition {
                span: *span,
                target: target.duplicate(),
                value: Box::new(value.duplicate()),
            },
            Expression::Sequence { span, seq } => Expression::Sequence {
                span: *span,
                seq: duplicate_exprs(seq),
            },
            Expression::ProcedureCall { span, operator, operands } => Expression::ProcedureCall {
                span: *span,
                operator: operator.duplicate(),
                operands: duplicate_exprs(operands),
            },
            Expression::LambdaExpression { span, formals, body } => {
                Expression::LambdaExpression {
                    span: *span,
                    formals: duplicate_idents(formals),
                    body: duplicate_exprs(body),
                }
            },
            Expression::Conditional { span, test, consequent, alternate } => {
                Expression::Conditional {
                    span: *span,
                    test: Box::new(test.duplicate()),
                    consequent: Box::new(consequent.duplicate()),
                    alternate: match alternate {
                        Option::Some(a) => Option::Some(Box::new(a.duplicate())),
                        Option::None => Option::None,
                    },
                }
            },
            Expression::Inclusion { span, files } => Expression::Inclusion {
                span: *span,
                files: duplicate_strings(files),
            },
        }
    }
}

/// Independent copies of a vector of expressions.
pub fn duplicate_exprs(v: &Vec<Expression>) -> (r: Vec<Expression>)
    ensures
        exprs_view(r@) == exprs_view(v@),
    decreases v@,
{
    let mut r: Vec<Expression> = Vec::new();
    let mut i: usize = 0;
    while i < v.len()
        invariant
            i <= v@.len(),
            r@.len() == i,
            forall|j: int| 0 <= j < i ==> expr_view(r@[j]) == expr_view(v@[j]),
        decreases v@.len() - i,
    {
        r.push(v[i].duplicate());
        i = i + 1;
    }
    proof {
        lemma_exprs_view_elems(r@);
        lemma_exprs_view_elems(v@);
        assert(exprs_view(r@) =~= exprs_view(v@));
    }
    r
}

/// Independent copies of a vector of identifiers.
pub fn duplicate_idents(v: &Vec<Identifier>) -> (r: Vec<Identifier>)
    ensures
        idents_view(r@) == idents_view(v@),
{
    let mut r: Vec<Identifier> = Vec::new();
    let mut i: usize = 0;
    while i < v.len()
        invariant
            i <= v@.len(),
            r@.len() == i,
            forall|j: int| 0 <= j < i ==> r@[j]@ == v@[j]@,
        decreases v@.len() - i,
    {
        r.push(v[i].duplicate());
        i = i + 1;
    }
    proof {
        assert(idents_view(r@) =~= idents_view(v@));
    }
    r
}

/// Independent copies of a vector of strings.
pub fn duplicate_strings(v: &Vec<String>) -> (r: Vec<String>)
    ensures
        r@.map_values(|s: String| s@) == v@.map_values(|s: String| s@),
{
    let mut r: Vec<String> = Vec::new();
    let mut i: usize = 0;
    while i < v.len()
        invariant
            i <= v@.len(),
            r@.len() == i,
            forall|j: int| 0 <= j < i ==> r@[j]@ == v@[j]@,
        decreases v@.len() - i,
    {
        r.push(clone_string(&v[i]));
        i = i + 1;
    }
    proof {
        assert(r@.map_values(|s: String| s@) =~= v@.map_values(|s: String| s@));
    }
    r
}

impl Literal {
    /// An independent copy of this literal.
    pub fn duplicate(&self) -> (r: Literal)
        ensures
            r@ == self@,
        decreases self,
    {
        match self {
            Literal::Quotation { span, q } => Literal::Quotation { span: *span, q: q.duplicate() },
            Literal::Boolean { span, b } => Literal::Boolean { span: *span, b: *b },
            Literal::Integer { span, i } => Literal::Integer { span: *span, i: *i },
            Literal::Float { span, text } => Literal::Float {
                span: *span,
                text: clone_string(text),
            },
            Literal::Character { span, c } => Literal::Character { span: *span, c: *c },
            Literal::String { span, s } => Literal::String { span: *span, s: clone_string(s) },
            Literal::Atom { span, a } => Literal::Atom { span: *span, a: clone_string(a) },
        }
    }
}

impl Datum {
    /// An independent copy of this datum.
    pub fn duplicate(&self) -> (r: Datum)
        ensures
            r@ == self@,
        decreases self,
    {
        match self {
            Datum::Identifier { span, id } => Datum::Identifier {
                span: *span,
                id: clone_string(id),
            },
            Datum::Boolean { span, b } => Datum::Boolean { span: *span, b: *b },
            Datum::Integer { span, i } => Datum::Integer { span: *span, i: *i },
            Datum::Float { span, text } => Datum::Float { span: *span, text: clone_string(text) },
            Datum::Character { span, c } => Datum::Character { span: *span, c: *c },
            Datum::String { span, s } => Datum::String { span: *span, s: clone_string(s) },
            Datum::Atom { span, a } => Datum::Atom { span: *span, a: clone_string(a) },
            Datum::List { span, l } => Datum::List {
                span: *span,
                l: ConsList { head: duplicate_cons(&l.head) },
            },
        }
    }
}

/// An independent copy of a cons chain.
fn duplicate_cons(c: &Option<Box<ConsCell>>) -> (r: Option<Box<ConsCell>>)
    ensures
        cons_view(r) == cons_view(*c),
    decreases c,
{
    match c {
        Option::None => Option::None,
        Option::Some(cell) => Option::Some(
            Box::new(ConsCell { head: cell.head.duplicate(), tail: duplicate_cons(&cell.tail) }),
        ),
    }
}

impl TypeSpec {
    /// An independent copy of this type specification.
    pub fn duplicate(&self) -> (r: TypeSpec)
        ensures
            r@ == self@,
        decreases self,
    {
        match self {
            TypeSpec::Identifier(i) => TypeSpec::Identifier(i.duplicate()),
            TypeSpec::Constructor(c) => TypeSpec::Constructor(c.duplicate()),
        }
    }
}

/// Independent copies of a vector of type specifications.
fn duplicate_type_specs(v: &Vec<TypeSpec>) -> (r: Vec<TypeSpec>)
    ensures
        type_specs_view(r@) == type_specs_view(v@),
    decreases v@,
{
    let mut r: Vec<TypeSpec> = Vec::new();
    let mut i: usize = 0;
    while i < v.len()
        invariant
            i <= v@.len(),
            r@.len() == i,
            forall|j: int| 0 <= j < i ==> type_spec_view(r@[j]) == type_spec_view(v@[j]),
        decreases v@.len() - i,
    {
        r.push(v[i].duplicate());
        i = i + 1;
    }
    proof {
        lemma_type_specs_view_elems(r@);
        lemma_type_specs_view_elems(v@);
        assert(type_specs_view(r@) =~= type_specs_view(v@));
    }
    r
}

/// `type_specs_view` maps the shape over the sequence, element by element.
pub proof fn lemma_type_specs_view_elems(s: Seq<TypeSpec>)
    ensures
        type_specs_view(s).len() == s.len(),
        forall|i: int| 0 <= i < s.len() ==> type_specs_view(s)[i] == type_spec_view(s[i]),
    decreases s,
{
    if s.len() > 0 {
        lemma_type_specs_view_elems(s.drop_first());
    }
}

impl TypeConstructor {
    /// An independent copy of this type constructor.
    pub fn duplicate(&self) -> (r: TypeConstructor)
        ensures
            r@ == self@,
        decreases self,
    {
        match self {
            TypeConstructor::Bottom { span } => TypeConstructor::Bottom { span: *span },
            TypeConstructor::Tuple { span, fields } => TypeConstructor::Tuple {
                span: *span,
                fields: duplicate_type_specs(fields),
            },
            TypeConstructor::List { span, t } => TypeConstructor::List {
                span: *span,
                t: Box::new(t.duplicate()),
            },
            TypeConstructor::Vector { span, t } => TypeConstructor::Vector {
                span: *span,
                t: Box::new(t.duplicate()),
            },
            TypeConstructor::Function { span, arguments, values } => TypeConstructor::Function {
                span: *span,
                arguments: duplicate_type_specs(arguments),
                values: duplicate_type_specs(values),
            },
            TypeConstructor::Sum { span, fields } => TypeConstructor::Sum {
                span: *span,
                fields: duplicate_named_type_specs(fields),
            },
            TypeConstructor::Product { span, fields } => TypeConstructor::Product {
                span: *span,
                fields: duplicate_named_type_specs(fields),
            },
        }
    }
}

/// Independent copies of a vector of named type specifications.
fn duplicate_named_type_specs(v: &Vec<NamedTypeSpec>) -> (r: Vec<NamedTypeSpec>)
    ensures
        named_type_specs_view(r@) == named_type_specs_view(v@),
    decreases v@,
{
    let mut r: Vec<NamedTypeSpec> = Vec::new();
    let mut i: usize = 0;
    while i < v.len()
        invariant
            i <= v@.len(),
            r@.len() == i,
            forall|j: int| 0 <= j < i ==> named_type_spec_view(r@[j]) == named_type_spec_view(
                v@[j],
            ),
        decreases v@.len() - i,
    {
        r.push(v[i].duplicate());
        i = i + 1;
    }
    proof {
        lemma_named_type_specs_view_elems(r@);
        lemma_named_type_specs_view_elems(v@);
        assert(named_type_specs_view(r@) =~= named_type_specs_view(v@));
    }
    r
}

/// `named_type_specs_view` maps the shape over the sequence, element by
/// element.
pub proof fn lemma_named_type_specs_view_elems(s: Seq<NamedTypeSpec>)
    ensures
        named_type_specs_view(s).len() == s.len(),
        forall|i: int| 0 <= i < s.len() ==> named_type_specs_view(s)[i] == named_type_spec_view(
            s[i],
        ),
    decreases s,
{
    if s.len() > 0 {
        lemma_named_type_specs_view_elems(s.drop_first());
    }
}

impl NamedTypeSpec {
    /// An independent copy of this named type specification.
    pub fn duplicate(&self) -> (r: NamedTypeSpec)
        ensures
            r@ == self@,
        decreases self,
    {
        NamedTypeSpec {
            span: self.span,
            name: self.name.duplicate(),
            type_spec: match &self.type_spec {
                Option::Some(t) => Option::Some(t.duplicate()),
                Option::None => Option::None,
            },
        }
    }
}

impl Annotation {
    /// An independent copy of this annotation.
    pub fn duplicate(&self) -> (r: Annotation)
        ensures
            r@ == self@,
        decreases self,
    {
        match self {
            Annotation::TypeAnnotation { span, target, type_spec } => Annotation::TypeAnnotation {
                span: *span,
                target: target.duplicate(),
                type_spec: type_spec.duplicate(),
            },
            Annotation::DocAnnotation { span, target, doc } => Annotation::DocAnnotation {
                span: *span,
                target: target.duplicate(),
                doc: clone_string(doc),
            },
        }
    }
}

/// Appending one expression appends its shape.
pub proof fn lemma_exprs_view_push(s: Seq<Expression>, e: Expression)
    ensures
        exprs_view(s.push(e)) == exprs_view(s) + seq![expr_view(e)],
{
    lemma_exprs_view_elems(s);
    lemma_exprs_view_elems(s.push(e));
    assert(exprs_view(s.push(e)) =~= exprs_view(s) + seq![expr_view(e)]);
}

/// An annotation for an item.
#[derive(Debug)]
pub enum Annotation {
    /// A `:type` annotation, giving an item a type specification.
    TypeAnnotation {
        /// The region of source code wrapped by this annotation.
        span: Span,
        /// The item being annotated.
        target: Identifier,
        /// The type specification.
        type_spec: TypeSpec,
    },
    /// A `:doc` annotation, giving an item a documentation string.
    DocAnnotation {
        /// The region of source code wrapped by this annotation.
        span: Span,
        /// The item being annotated.
        target: Identifier,
        /// The documentation string.
        doc: String,
    },
}

/// The mathematical shape of an [`Annotation`].
pub enum AnnotationV {
    /// A `:type` annotation.
    TypeAnnotation { span: Span, target: IdentifierV, type_spec: TypeSpecV },
    /// A `:doc` annotation.
    DocAnnotation { span: Span, target: IdentifierV, doc: Seq<char> },
}

/// The shape of an annotation.
pub open spec fn annotation_view(a: Annotation) -> AnnotationV
    decreases a,
{
    match a {
        Annotation::TypeAnnotation { span, target, type_spec } => AnnotationV::TypeAnnotation {
            span,
            target: target@,
            type_spec: type_spec_view(type_spec),
        },
        Annotation::DocAnnotation { span, target, doc } => AnnotationV::DocAnnotation {
            span,
            target: target@,
            doc: doc@,
        },
    }
}

impl View for Annotation {
    type V = AnnotationV;

    open spec fn view(&self) -> AnnotationV {
        annotation_view(*self)
    }
}

impl Annotation {
    /// The region of source code wrapped by this annotation.
    pub fn span(&self) -> (r: Span)
        ensures
            r == spec_annotation_span(self@),
    {
        match self {
            Annotation::TypeAnnotation { span, .. } => *span,
            Annotation::DocAnnotation { span, .. } => *span,
        }
    }
}

/// The region of source code wrapped by an annotation shape.
pub open spec fn spec_annotation_span(a: AnnotationV) -> Span {
    match a {
        AnnotationV::TypeAnnotation { span, .. } => span,
        AnnotationV::DocAnnotation { span, .. } => span,
    }
}

/// A type specification: parsed, never checked.
#[derive(Debug)]
pub enum TypeSpec {
    /// A type named by an identifier.
    Identifier(Identifier),
    /// A type built by a constructor.
    Constructor(TypeConstructor),
}

/// The mathematical shape of a [`TypeSpec`].
pub enum TypeSpecV {
    /// A type named by an identifier.
    Identifier(IdentifierV),
    /// A type built by a constructor.
    Constructor(TypeConstructorV),
}

/// The shape of a type specification.
pub open spec fn type_spec_view(t: TypeSpec) -> TypeSpecV
    decreases t,
{
    match t {
        TypeSpec::Identifier(i) => TypeSpecV::Identifier(i@),
        TypeSpec::Constructor(c) => TypeSpecV::Constructor(type_ctor_view(c)),
    }
}

/// The shapes of a sequence of type specifications.
pub open spec fn type_specs_view(s: Seq<TypeSpec>) -> Seq<TypeSpecV>
    decreases s,
{
    if s.len() == 0 {
        Seq::empty()
    } else {
        seq![type_spec_view(s[0])] + type_specs_view(s.drop_first())
    }
}

impl View for TypeSpec {
    type V = TypeSpecV;

    open spec fn view(&self) -> TypeSpecV {
        type_spec_view(*self)
    }
}

/// The region of source code wrapped by a type-specification shape.
pub open spec fn spec_type_spec_span(t: TypeSpecV) -> Span {
    match t {
        TypeSpecV::Identifier(i) => i.span,
        TypeSpecV::Constructor(c) => spec_type_ctor_span(c),
    }
}

/// The region of source code wrapped by a type-constructor shape.
pub open spec fn spec_type_ctor_span(c: TypeConstructorV) -> Span {
    match c {
        TypeConstructorV::Bottom { span } => span,
        TypeConstructorV::Tuple { span, .. } => span,
        TypeConstructorV::List { span, .. } => span,
        TypeConstructorV::Vector { span, .. } => span,
        TypeConstructorV::Function { span, .. } => span,
        TypeConstructorV::Sum { span, .. } => span,
        TypeConstructorV::Product { span, .. } => span,
    }
}

/// A type constructor.
#[derive(Debug)]
pub enum TypeConstructor {
    /// The empty type.
    Bottom {
        /// The region of source code wrapped by this constructor.
        span: Span,
    },
    /// A tuple of types.
    Tuple {
        /// The region of source code wrapped by this constructor.
        span: Span,
        /// The component types, in order.
        fields: Vec<TypeSpec>,
    },
    /// A list of one element type.
    List {
        /// The region of source code wrapped by this constructor.
        span: Span,
        /// The element type.
        t: Box<TypeSpec>,
    },
    /// A vector of one element type.
    Vector {
        /// The region of source code wrapped by this constructor.
        span: Span,
        /// The element type.
        t: Box<TypeSpec>,
    },
    /// A function type.
    Function {
        /// The region of source code wrapped by this constructor.
        span: Span,
        /// The argument types, in order.
        arguments: Vec<TypeSpec>,
        /// The result types, in order.
        values: Vec<TypeSpec>,
    },
    /// A sum of named fields.
    Sum {
        /// The region of source code wrapped by this constructor.
        span: Span,
        /// The named fields, in order.
        fields: Vec<NamedTypeSpec>,
    },
    /// A product of named fields.
    Product {
        /// The region of source code wrapped by this constructor.
        span: Span,
        /// The named fields, in order.
        fields: Vec<NamedTypeSpec>,
    },
}

/// The mathematical shape of a [`TypeConstructor`].
pub enum TypeConstructorV {
    /// The empty type.
    Bottom { span: Span },
    /// A tuple of types.
    Tuple { span: Span, fields: Seq<TypeSpecV> },
    /// A list of one element type.
    List { span: Span, t: Box<TypeSpecV> },
    /// A vector of one element type.
    Vector { span: Span, t: Box<TypeSpecV> },
    /// A function type.
    Function { span: Span, arguments: Seq<TypeSpecV>, values: Seq<TypeSpecV> },
    /// A sum of named fields.
    Sum { span: Span, fields: Seq<NamedTypeSpecV> },
    /// A product of named fields.
    Product { span: Span, fields: Seq<NamedTypeSpecV> },
}

/// The shape of a type constructor.
pub open spec fn type_ctor_view(c: TypeConstructor) -> TypeConstructorV
    decreases c,
{
    match c {
        TypeConstructor::Bottom { span } => TypeConstructorV::Bottom { span },
        TypeConstructor::Tuple { span, fields } => TypeConstructorV::Tuple {
            span,
            fields: type_specs_view(fields@),
        },
        TypeConstructor::List { span, t } => TypeConstructorV::List {
            span,
            t: Box::new(type_spec_view(*t)),
        },
        TypeConstructor::Vector { span, t } => TypeConstructorV::Vector {
            span,
            t: Box::new(type_spec_view(*t)),
        },
        TypeConstructor::Function { span, arguments, values } => TypeConstructorV::Function {
            span,
            arguments: type_specs_view(arguments@),
            values: type_specs_view(values@),
        },
        TypeConstructor::Sum { span, fields } => TypeConstructorV::Sum {
            span,
            fields: named_type_specs_view(fields@),
        },
        TypeConstructor::Product { span, fields } => TypeConstructorV::Product {
            span,
            fields: named_type_specs_view(fields@),
        },
    }
}

impl View for TypeConstructor {
    type V = TypeConstructorV;

    open spec fn view(&self) -> TypeConstructorV {
        type_ctor_view(*self)
    }
}

/// A named (labeled) type specification.
#[derive(Debug)]
pub struct NamedTypeSpec {
    /// The region of source code wrapped by this named specification.
    pub span: Span,
    /// The field's name, a literal.
    pub name: Literal,
    /// The field's type, if one is given.
    pub type_spec: Option<TypeSpec>,
}

/// The mathematical shape of a [`NamedTypeSpec`].
pub struct NamedTypeSpecV {
    /// The region of source code wrapped by this named specification.
    pub span: Span,
    /// The field's name.
    pub name: LiteralV,
    /// The field's type, if one is given.
    pub type_spec: Option<TypeSpecV>,
}

/// The shape of a named type specification.
pub open spec fn named_type_spec_view(n: NamedTypeSpec) -> NamedTypeSpecV
    decreases n,
{
    NamedTypeSpecV {
        span: n.span,
        name: literal_view(n.name),
        type_spec: match n.type_spec {
            Option::Some(t) => Option::Some(type_spec_view(t)),
            Option::None => Option::None,
        },
    }
}

/// The shapes of a sequence of named type specifications.
pub open spec fn named_type_specs_view(s: Seq<NamedTypeSpec>) -> Seq<NamedTypeSpecV>
    decreases s,
{
    if s.len() == 0 {
        Seq::empty()
    } else {
        seq![named_type_spec_view(s[0])] + named_type_specs_view(s.drop_first())
    }
}

impl View for NamedTypeSpec {
    type V = NamedTypeSpecV;

    open spec fn view(&self) -> NamedTypeSpecV {
        named_type_spec_view(*self)
    }
}

} // verus!
