//! Runtime values of the tree-walking evaluator.

use vstd::prelude::*;

use crate::ast::{
    clone_string, duplicate_exprs, duplicate_idents, exprs_view, idents_view, Expression,
    ExpressionV, Identifier, IdentifierV,
};
use crate::float::spec_float_truthy;
use crate::span::Span;

verus! {

/// The native primitives, dispatched by name before any scope lookup so
/// that they can never be shadowed.
#[derive(Clone, Copy, Debug, PartialEq, Eq, Structural)]
pub enum PrimOp {
    /// `+`
    Add,
    /// `-`
    Sub,
    /// `*`
    Mul,
    /// `/`
    Div,
    /// `==`
    Eq,
    /// `!=`
    Neq,
    /// `>`
    Gt,
    /// `>=`
    Gte,
    /// `<`
    Lt,
    /// `<=`
    Lte,
    /// `print`
    Print,
}

/// The type of a runtime value, with its payload. A float is carried as
/// its IEEE 754 bit pattern.
#[derive(Debug)]
pub enum ReamType {
    /// A boolean.
    Boolean(bool),
    /// An unsigned integer.
    Integer(u64),
    /// A float, as its bit pattern.
    Float(u64),
    /// A character.
    Character(char),
    /// A string.
    String(String),
    /// An identifier held as data, from quoted code; never a lookup.
    Identifier(String),
    /// An atom.
    Atom(String),
    /// A list of values.
    List(Vec<ReamValue>),
    /// A native primitive.
    Primitive(PrimOp),
    /// A closure: a lambda's formals and body together with the snapshot
    /// scope captured when the lambda was evaluated.
    Closure {
        /// The formal parameters, owned by the closure.
        formals: Vec<Identifier>,
        /// The body expressions, owned by the closure.
        body: Vec<Expression>,
        /// The index of the captured scope snapshot.
        enclosed_scope: usize,
    },
    /// The unit value.
    Unit,
}

/// A runtime value: its type and the source region it came from.
#[derive(Debug)]
pub struct ReamValue {
    /// The region of source code the value came from.
    pub span: Span,
    /// The type of the value.
    pub t: ReamType,
}

/// The mathematical shape of a [`ReamType`].
pub enum ReamTypeV {
    /// A boolean.
    Boolean(bool),
    /// An unsigned integer.
    Integer(u64),
    /// A float, as its bit pattern.
    Float(u64),
    /// A character.
    Character(char),
    /// A string.
    String(Seq<char>),
    /// An identifier held as data.
    Identifier(Seq<char>),
    /// An atom.
    Atom(Seq<char>),
    /// A list of values.
    List(Seq<ReamValueV>),
    /// A native primitive.
    Primitive(PrimOp),
    /// A closure.
    Closure {
        /// The formal parameters.
        formals: Seq<IdentifierV>,
        /// The body expressions.
        body: Seq<ExpressionV>,
        /// The index of the captured scope snapshot.
        enclosed_scope: int,
    },
    /// The unit value.
    Unit,
}

/// The mathematical shape of a [`ReamValue`].
pub struct ReamValueV {
    /// The region of source code the value came from.
    pub span: Span,
    /// The shape of the value's type.
    pub t: ReamTypeV,
}

/// The shape of a runtime value.
pub open spec fn rv_view(v: ReamValue) -> ReamValueV
    decreases v,
{
    ReamValueV { span: v.span, t: rt_view(v.t) }
}

/// The shape of a runtime type.
pub open spec fn rt_view(t: ReamType) -> ReamTypeV
    decreases t,
{
    match t {
        ReamType::Boolean(b) => ReamTypeV::Boolean(b),
        ReamType::Integer(i) => ReamTypeV::Integer(i),
        ReamType::Float(f) => ReamTypeV::Float(f),
        ReamType::Character(c) => ReamTypeV::Character(c),
        ReamType::String(s) => ReamTypeV::String(s@),
        ReamType::Identifier(id) => ReamTypeV::Identifier(id@),
        ReamType::Atom(a) => ReamTypeV::Atom(a@),
        ReamType::List(l) => ReamTypeV::List(rvs_view(l@)),
        ReamType::Primitive(p) => ReamTypeV::Primitive(p),
        ReamType::Closure { formals, body, enclosed_scope } => ReamTypeV::Closure {
            formals: idents_view(formals@),
            body: exprs_view(body@),
            enclosed_scope: enclosed_scope as int,
        },
        ReamType::Unit => ReamTypeV::Unit,
    }
}

/// The shapes of a sequence of runtime values.
pub open spec fn rvs_view(s: Seq<ReamValue>) -> Seq<ReamValueV>
    decreases s,
{
    if s.len() == 0 {
        Seq::empty()
    } else {
        seq![rv_view(s[0])] + rvs_view(s.drop_first())
    }
}

/// `rvs_view` maps the shape over the sequence, element by element.
pub proof fn lemma_rvs_view_elems(s: Seq<ReamValue>)
    ensures
        rvs_view(s).len() == s.len(),
        forall|i: int| 0 <= i < s.len() ==> rvs_view(s)[i] == rv_view(s[i]),
    decreases s,
{
    if s.len() > 0 {
        lemma_rvs_view_elems(s.drop_first());
    }
}

impl View for ReamValue {
    type V = ReamValueV;

    open spec fn view(&self) -> ReamValueV {
        rv_view(*self)
    }
}

/// Whether a value shape is valid against an arena of `n` scope records:
/// every closure it holds, however deep, captures an existing record.
pub open spec fn rt_valid(t: ReamTypeV, n: int) -> bool
    decreases t,
{
    match t {
        ReamTypeV::List(l) => rvs_valid(l, n),
        ReamTypeV::Closure { enclosed_scope, .. } => 0 <= enclosed_scope < n,
        _ => true,
    }
}

/// Whether every value shape of a sequence is valid.
pub open spec fn rvs_valid(s: Seq<ReamValueV>, n: int) -> bool
    decreases s,
{
    s.len() == 0 || (rt_valid(s[0].t, n) && rvs_valid(s.drop_first(), n))
}

/// Validity is monotone: growing the arena invalidates nothing.
pub proof fn lemma_rt_valid_mono(t: ReamTypeV, n: int, m: int)
    requires
        rt_valid(t, n),
        n <= m,
    ensures
        rt_valid(t, m),
    decreases t,
{
    match t {
        ReamTypeV::List(l) => {
            lemma_rvs_valid_mono(l, n, m);
        },
        _ => {},
    }
}

/// Pointwise validity of every element gives sequence validity.
pub proof fn lemma_rvs_valid_intro(s: Seq<ReamValueV>, n: int)
    requires
        forall|j: int| 0 <= j < s.len() ==> rt_valid(#[trigger] s[j].t, n),
    ensures
        rvs_valid(s, n),
    decreases s,
{
    if s.len() > 0 {
        assert(s[0].t == s[0].t);
        lemma_rvs_valid_intro(s.drop_first(), n);
    }
}

/// Sequence validity is monotone in the arena's size.
pub proof fn lemma_rvs_valid_mono(s: Seq<ReamValueV>, n: int, m: int)
    requires
        rvs_valid(s, n),
        n <= m,
    ensures
        rvs_valid(s, m),
    decreases s,
{
    if s.len() > 0 {
        lemma_rt_valid_mono(s[0].t, n, m);
        lemma_rvs_valid_mono(s.drop_first(), n, m);
    }
}

impl View for ReamType {
    type V = ReamTypeV;

    open spec fn view(&self) -> ReamTypeV {
        rt_view(*self)
    }
}

/// The display name of a runtime type.
pub open spec fn spec_rt_label(t: ReamTypeV) -> Seq<char> {
    match t {
        ReamTypeV::Boolean(_) => "Boolean"@,
        ReamTypeV::Integer(_) => "Integer"@,
        ReamTypeV::Float(_) => "Float"@,
        ReamTypeV::Character(_) => "Character"@,
        ReamTypeV::String(_) => "String"@,
        ReamTypeV::Identifier(_) => "Identifier"@,
        ReamTypeV::Atom(_) => "Atom"@,
        ReamTypeV::List(_) => "List"@,
        ReamTypeV::Primitive(_) => "Primitive"@,
        ReamTypeV::Closure { .. } => "Closure"@,
        ReamTypeV::Unit => "Unit"@,
    }
}

/// Whether a runtime value counts as true in a conditional: a boolean by
/// its value; a number when nonzero (a float when its bits are neither
/// zero); a string or list when nonempty; everything else always.
pub open spec fn spec_truthy(t: ReamTypeV) -> bool {
    match t {
        ReamTypeV::Boolean(b) => b,
        ReamTypeV::Integer(i) => i != 0,
        ReamTypeV::Float(f) => spec_float_truthy(f),
        ReamTypeV::Character(_) => true,
        ReamTypeV::String(s) => s.len() != 0,
        ReamTypeV::Identifier(_) => true,
        ReamTypeV::Atom(_) => true,
        ReamTypeV::List(l) => l.len() != 0,
        ReamTypeV::Primitive(_) => true,
        ReamTypeV::Closure { .. } => true,
        ReamTypeV::Unit => true,
    }
}

impl ReamType {
    /// Render the name of this type as a string.
    pub fn type_label(&self) -> (r: String)
        ensures
            r@ == spec_rt_label(self@),
    {
        match self {
            ReamType::Boolean(_) => String::from_str("Boolean"),
            ReamType::Integer(_) => String::from_str("Integer"),
            ReamType::Float(_) => String::from_str("Float"),
            ReamType::Character(_) => String::from_str("Character"),
            ReamType::String(_) => String::from_str("String"),
            ReamType::Identifier(_) => String::from_str("Identifier"),
            ReamType::Atom(_) => String::from_str("Atom"),
            ReamType::List(_) => String::from_str("List"),
            ReamType::Primitive(_) => String::from_str("Primitive"),
            ReamType::Closure { .. } => String::from_str("Closure"),
            ReamType::Unit => String::from_str("Unit"),
        }
    }

    /// Check if the value is truthy.
    pub fn is_truthy(&self) -> (r: bool)
        ensures
            r == spec_truthy(self@),
    {
        match self {
            ReamType::Boolean(b) => *b,
            ReamType::Integer(i) => *i != 0,
            ReamType::Float(f) => crate::float::float_truthy(*f),
            ReamType::Character(_) => true,
            ReamType::String(s) => s.unicode_len() != 0,
            ReamType::Identifier(_) => true,
            ReamType::Atom(_) => true,
            ReamType::List(l) => l.len() != 0,
            ReamType::Primitive(_) => true,
            ReamType::Closure { .. } => true,
            ReamType::Unit => true,
        }
    }

    /// An independent copy of this type and its payload.
    pub fn duplicate(&self) -> (r: ReamType)
        ensures
            r@ == self@,
        decreases self,
    {
        match self {
            ReamType::Boolean(b) => ReamType::Boolean(*b),
            ReamType::Integer(i) => ReamType::Integer(*i),
            ReamType::Float(f) => ReamType::Float(*f),
            ReamType::Character(c) => ReamType::Character(*c),
            ReamType::String(s) => ReamType::String(clone_string(s)),
            ReamType::Identifier(id) => ReamType::Identifier(clone_string(id)),
            ReamType::Atom(a) => ReamType::Atom(clone_string(a)),
            ReamType::List(l) => ReamType::List(duplicate_values(l)),
            ReamType::Primitive(p) => ReamType::Primitive(*p),
            ReamType::Closure { formals, body, enclosed_scope } => ReamType::Closure {
                formals: duplicate_idents(formals),
                body: duplicate_exprs(body),
                enclosed_scope: *enclosed_scope,
            },
            ReamType::Unit => ReamType::Unit,
        }
    }
}

impl ReamValue {
    /// An independent copy of this value.
    pub fn duplicate(&self) -> (r: ReamValue)
        ensures
            r@ == self@,
        decreases self,
    {
        ReamValue { span: self.span, t: self.t.duplicate() }
    }
}

/// Independent copies of a vector of values.
pub fn duplicate_values(v: &Vec<ReamValue>) -> (r: Vec<ReamValue>)
    ensures
        rvs_view(r@) == rvs_view(v@),
    decreases v@,
{
    let mut r: Vec<ReamValue> = Vec::new();
    let mut i: usize = 0;
    while i < v.len()
        invariant
            i <= v@.len(),
            r@.len() == i,
            forall|j: int| 0 <= j < i ==> rv_view(r@[j]) == rv_view(v@[j]),
        decreases v@.len() - i,
    {
        r.push(v[i].duplicate());
        i = i + 1;
    }
    proof {
        lemma_rvs_view_elems(r@);
        lemma_rvs_view_elems(v@);
        assert(rvs_view(r@) =~= rvs_view(v@));
    }
    r
}

} // verus!
