//! The tree-walking evaluator: expressions against a chained scope
//! structure, with closures, primitive dispatch, and conditionals.
//!
//! Recursion is bounded by a host-supplied fuel: the core has no
//! cancellation of its own, so the host imposes the external bound and an
//! exhausted bound surfaces as an explicit error, never a crash. An
//! identifier in operator position resolves against the fixed primitive
//! table before any scope lookup, so primitives can never be shadowed; in
//! value position the table backs the global scope, so a primitive's name
//! evaluates to a primitive value wherever no binding shadows it.

use vstd::prelude::*;

use crate::ast::{
    clone_string, duplicate_exprs, duplicate_idents, ConsCell, Datum, DatumV, Expression,
    ExpressionV, Identifier, Literal, LiteralV, Program,
};
use crate::error::EvalError;
use crate::float::{
    float_eq, float_lt, spec_float_eq, spec_float_lt, FloatOps,
};
use crate::scope::{lookup, spec_close, Scopes};
use crate::span::Span;
use crate::text::str_eq;
use crate::value::{
    lemma_rt_valid_mono, lemma_rvs_view_elems, rt_valid, rv_view, rvs_valid, rvs_view, spec_truthy,
    PrimOp, ReamType, ReamTypeV, ReamValue, ReamValueV, spec_rt_label,
};

verus! {

/// The primitive an identifier in operator position names, if any.
pub open spec fn spec_primitive_of(id: Seq<char>) -> Option<PrimOp> {
    if id == "+"@ {
        Option::Some(PrimOp::Add)
    } else if id == "-"@ {
        Option::Some(PrimOp::Sub)
    } else if id == "*"@ {
        Option::Some(PrimOp::Mul)
    } else if id == "/"@ {
        Option::Some(PrimOp::Div)
    } else if id == "=="@ {
        Option::Some(PrimOp::Eq)
    } else if id == "!="@ {
        Option::Some(PrimOp::Neq)
    } else if id == ">"@ {
        Option::Some(PrimOp::Gt)
    } else if id == ">="@ {
        Option::Some(PrimOp::Gte)
    } else if id == "<"@ {
        Option::Some(PrimOp::Lt)
    } else if id == "<="@ {
        Option::Some(PrimOp::Lte)
    } else if id == "print"@ {
        Option::Some(PrimOp::Print)
    } else {
        Option::None
    }
}

/// Look an identifier up in the fixed primitive table.
pub fn try_primitive(id: &str) -> (r: Option<PrimOp>)
    ensures
        r == spec_primitive_of(id@),
{
    if str_eq(id, "+") {
        Option::Some(PrimOp::Add)
    } else if str_eq(id, "-") {
        Option::Some(PrimOp::Sub)
    } else if str_eq(id, "*") {
        Option::Some(PrimOp::Mul)
    } else if str_eq(id, "/") {
        Option::Some(PrimOp::Div)
    } else if str_eq(id, "==") {
        Option::Some(PrimOp::Eq)
    } else if str_eq(id, "!=") {
        Option::Some(PrimOp::Neq)
    } else if str_eq(id, ">") {
        Option::Some(PrimOp::Gt)
    } else if str_eq(id, ">=") {
        Option::Some(PrimOp::Gte)
    } else if str_eq(id, "<") {
        Option::Some(PrimOp::Lt)
    } else if str_eq(id, "<=") {
        Option::Some(PrimOp::Lte)
    } else if str_eq(id, "print") {
        Option::Some(PrimOp::Print)
    } else {
        Option::None
    }
}

/// How many arguments a primitive takes.
pub open spec fn spec_prim_arity(p: PrimOp) -> int {
    if p == PrimOp::Print {
        1
    } else {
        2
    }
}

/// The outcome of unsigned integer arithmetic.
pub enum UArithOut {
    /// The operation's value.
    Val(u64),
    /// The result does not fit a `u64` (or went below zero).
    Overflowed,
    /// A division by zero.
    DividedByZero,
}

/// The exact outcome of integer arithmetic: checked, with a zero divisor
/// singled out.
pub open spec fn spec_u64_arith(p: PrimOp, x: u64, y: u64) -> UArithOut {
    if p == PrimOp::Add {
        if x + y <= u64::MAX {
            UArithOut::Val((x + y) as u64)
        } else {
            UArithOut::Overflowed
        }
    } else if p == PrimOp::Sub {
        if x >= y {
            UArithOut::Val((x - y) as u64)
        } else {
            UArithOut::Overflowed
        }
    } else if p == PrimOp::Mul {
        if x * y <= u64::MAX {
            UArithOut::Val((x * y) as u64)
        } else {
            UArithOut::Overflowed
        }
    } else {
        if y == 0 {
            UArithOut::DividedByZero
        } else {
            UArithOut::Val((x as int / y as int) as u64)
        }
    }
}

/// Lexicographic order on text, by code point.
pub open spec fn spec_str_lt(a: Seq<char>, b: Seq<char>) -> bool
    decreases a.len(),
{
    if b.len() == 0 {
        false
    } else if a.len() == 0 {
        true
    } else if (a[0] as u32) < (b[0] as u32) {
        true
    } else if (a[0] as u32) > (b[0] as u32) {
        false
    } else {
        spec_str_lt(a.drop_first(), b.drop_first())
    }
}

/// Lexicographic order on text, decided in verified code.
pub fn str_less(a: &str, b: &str) -> (r: bool)
    ensures
        r == spec_str_lt(a@, b@),
{
    let an = a.unicode_len();
    let bn = b.unicode_len();
    let mut i: usize = 0;
    proof {
        assert(a@.skip(0) =~= a@);
        assert(b@.skip(0) =~= b@);
    }
    loop
        invariant
            i <= an,
            i <= bn,
            an == a@.len(),
            bn == b@.len(),
            spec_str_lt(a@, b@) == spec_str_lt(a@.skip(i as int), b@.skip(i as int)),
        ensures
            ({
                let ra = a@.skip(i as int);
                let rb = b@.skip(i as int);
                spec_str_lt(a@, b@) == spec_str_lt(ra, rb) && (i >= an || i >= bn || (a@[i as int]
                    as u32) != (b@[i as int] as u32))
            }),
        decreases an - i,
    {
        if i >= an || i >= bn {
            break ;
        }
        let ca = a.get_char(i);
        let cb = b.get_char(i);
        if (ca as u32) != (cb as u32) {
            break ;
        }
        proof {
            assert(a@.skip(i as int)[0] == a@[i as int]);
            assert(b@.skip(i as int)[0] == b@[i as int]);
            assert(a@.skip(i as int).drop_first() =~= a@.skip(i + 1));
            assert(b@.skip(i as int).drop_first() =~= b@.skip(i + 1));
        }
        i = i + 1;
    }
    proof {
        assert(a@.skip(i as int).len() == an - i);
        assert(b@.skip(i as int).len() == bn - i);
        if i < an && i < bn {
            assert(a@.skip(i as int)[0] == a@[i as int]);
            assert(b@.skip(i as int)[0] == b@[i as int]);
        }
    }
    if i >= bn {
        false
    } else if i >= an {
        true
    } else {
        let ca = a.get_char(i);
        let cb = b.get_char(i);
        (ca as u32) < (cb as u32)
    }
}

/// Whether a value type takes part in comparisons: every scalar, unit
/// included. Lists, primitives and closures do not.
pub open spec fn spec_comparable(t: ReamTypeV) -> bool {
    match t {
        ReamTypeV::List(_) => false,
        ReamTypeV::Primitive(_) => false,
        ReamTypeV::Closure { .. } => false,
        _ => true,
    }
}

/// The answer a comparison gives from "less" and "equal".
pub open spec fn spec_cmp_pick(p: PrimOp, lt: bool, eq: bool) -> bool {
    if p == PrimOp::Eq {
        eq
    } else if p == PrimOp::Neq {
        !eq
    } else if p == PrimOp::Gt {
        !lt && !eq
    } else if p == PrimOp::Gte {
        !lt
    } else if p == PrimOp::Lt {
        lt
    } else {
        lt || eq
    }
}

/// The exact result of a comparison primitive, where its operands are of
/// one comparable kind; floats follow their own equality and order, under
/// which any NaN compares false and unequal.
pub open spec fn spec_compare(p: PrimOp, a: ReamTypeV, b: ReamTypeV) -> Option<bool> {
    match (a, b) {
        (ReamTypeV::Boolean(x), ReamTypeV::Boolean(y)) => Option::Some(
            spec_cmp_pick(p, !x && y, x == y),
        ),
        (ReamTypeV::Integer(x), ReamTypeV::Integer(y)) => Option::Some(
            spec_cmp_pick(p, x < y, x == y),
        ),
        (ReamTypeV::Float(x), ReamTypeV::Float(y)) => Option::Some(
            if p == PrimOp::Eq {
                spec_float_eq(x, y)
            } else if p == PrimOp::Neq {
                !spec_float_eq(x, y)
            } else if p == PrimOp::Gt {
                spec_float_lt(y, x)
            } else if p == PrimOp::Gte {
                spec_float_lt(y, x) || spec_float_eq(x, y)
            } else if p == PrimOp::Lt {
                spec_float_lt(x, y)
            } else {
                spec_float_lt(x, y) || spec_float_eq(x, y)
            },
        ),
        (ReamTypeV::Character(x), ReamTypeV::Character(y)) => Option::Some(
            spec_cmp_pick(p, (x as u32) < (y as u32), x == y),
        ),
        (ReamTypeV::String(x), ReamTypeV::String(y)) => Option::Some(
            spec_cmp_pick(p, spec_str_lt(x, y), x == y),
        ),
        (ReamTypeV::Identifier(x), ReamTypeV::Identifier(y)) => Option::Some(
            spec_cmp_pick(p, spec_str_lt(x, y), x == y),
        ),
        (ReamTypeV::Atom(x), ReamTypeV::Atom(y)) => Option::Some(
            spec_cmp_pick(p, spec_str_lt(x, y), x == y),
        ),
        (ReamTypeV::Unit, ReamTypeV::Unit) => Option::Some(spec_cmp_pick(p, false, true)),
        _ => Option::None,
    }
}

/// Whether `r` is exactly the given `WrongArgumentCount` error.
pub open spec fn spec_is_wrong_arg_count(
    r: Result<ReamType, EvalError>,
    loc: Span,
    callee: Seq<char>,
    expected: int,
    found: int,
) -> bool {
    match r {
        Result::Err(EvalError::WrongArgumentCount { loc: l, callee: c, expected: e, found: f }) => {
            l == loc && c@ == callee && e == expected && f == found
        },
        _ => false,
    }
}

/// The value a scalar literal evaluates to; quoted data evaluates to its
/// unevaluated shape, a quoted identifier staying a name.
pub open spec fn lit_value_rel(l: LiteralV, v: ReamValueV) -> bool {
    match l {
        LiteralV::Quotation { span, q } => v.span == span && datum_rel_t(q, v.t),
        LiteralV::Boolean { span, b } => v == (ReamValueV { span, t: ReamTypeV::Boolean(b) }),
        LiteralV::Integer { span, i } => v == (ReamValueV { span, t: ReamTypeV::Integer(i) }),
        LiteralV::Float { span, text } => v.span == span && v.t is Float,
        LiteralV::Character { span, c } => v == (ReamValueV { span, t: ReamTypeV::Character(c) }),
        LiteralV::String { span, s } => v == (ReamValueV { span, t: ReamTypeV::String(s) }),
        LiteralV::Atom { span, a } => v == (ReamValueV { span, t: ReamTypeV::Atom(a) }),
    }
}

/// The value type a datum evaluates to, exactly but for float bits.
pub open spec fn datum_rel(d: DatumV, v: ReamValueV) -> bool
    decreases d, 1int,
{
    v.span == spec_datum_span_of(d) && datum_rel_t(d, v.t)
}

/// The source region a datum shape wraps.
pub open spec fn spec_datum_span_of(d: DatumV) -> Span {
    crate::ast::spec_datum_span(d)
}

/// The value type a datum evaluates to.
pub open spec fn datum_rel_t(d: DatumV, t: ReamTypeV) -> bool
    decreases d, 0int,
{
    match d {
        DatumV::Identifier { span, id } => t == ReamTypeV::Identifier(id),
        DatumV::Boolean { span, b } => t == ReamTypeV::Boolean(b),
        DatumV::Integer { span, i } => t == ReamTypeV::Integer(i),
        DatumV::Float { span, text } => t is Float,
        DatumV::Character { span, c } => t == ReamTypeV::Character(c),
        DatumV::String { span, s } => t == ReamTypeV::String(s),
        DatumV::Atom { span, a } => t == ReamTypeV::Atom(a),
        DatumV::List { span, l } => t matches ReamTypeV::List(vs) && data_rel(l, vs),
    }
}

/// Pointwise datum evaluation over a sequence.
pub open spec fn data_rel(ds: Seq<DatumV>, vs: Seq<ReamValueV>) -> bool
    decreases ds, 2int,
{
    ds.len() == vs.len() && (ds.len() == 0 || (datum_rel(ds[0], vs[0]) && data_rel(
        ds.drop_first(),
        vs.drop_first(),
    )))
}

/// Evaluate a datum into its runtime shape; total, never an error.
pub fn eval_datum<F: FloatOps>(ops: &F, d: &Datum) -> (r: ReamValue)
    ensures
        datum_rel(d@, r@),
        rt_valid(r@.t, 0),
    decreases d,
{
    match d {
        Datum::Identifier { span, id } => ReamValue {
            span: *span,
            t: ReamType::Identifier(clone_string(id)),
        },
        Datum::Boolean { span, b } => ReamValue { span: *span, t: ReamType::Boolean(*b) },
        Datum::Integer { span, i } => ReamValue { span: *span, t: ReamType::Integer(*i) },
        Datum::Float { span, text } => ReamValue {
            span: *span,
            t: ReamType::Float(ops.float_from_text(text.as_str())),
        },
        Datum::Character { span, c } => ReamValue { span: *span, t: ReamType::Character(*c) },
        Datum::String { span, s } => ReamValue { span: *span, t: ReamType::String(clone_string(s)) },
        Datum::Atom { span, a } => ReamValue { span: *span, t: ReamType::Atom(clone_string(a)) },
        Datum::List { span, l } => {
            let values = eval_cons(ops, &l.head);
            ReamValue { span: *span, t: ReamType::List(values) }
        },
    }
}

/// Evaluate a cons chain of data into runtime values, in order.
fn eval_cons<F: FloatOps>(ops: &F, c: &Option<Box<ConsCell>>) -> (r: Vec<ReamValue>)
    ensures
        data_rel(crate::ast::cons_view(*c), rvs_view(r@)),
        rvs_valid(rvs_view(r@), 0),
    decreases c,
{
    match c {
        Option::None => {
            let r: Vec<ReamValue> = Vec::new();
            proof {
                assert(rvs_view(r@) =~= Seq::<ReamValueV>::empty());
            }
            r
        },
        Option::Some(cell) => {
            let hv = eval_datum(ops, &cell.head);
            let mut rest = eval_cons(ops, &cell.tail);
            let ghost hv_v = rv_view(hv);
            let ghost rest_seq = rest@;
            let ghost rest_v = rvs_view(rest@);
            proof {
                lemma_rvs_view_elems(rest_seq);
            }
            let mut out: Vec<ReamValue> = Vec::new();
            out.push(hv);
            out.append(&mut rest);
            proof {
                assert(out@ =~= seq![out@[0]] + rest_seq);
                lemma_rvs_view_elems(out@);
                assert(rvs_view(out@) =~= seq![hv_v] + rest_v);
                assert((seq![hv_v] + rest_v).drop_first() =~= rest_v);
                assert(crate::ast::cons_view(*c).drop_first() =~= crate::ast::cons_view(
                    cell.tail,
                ));
            }
            out
        },
    }
}

/// The evaluator's state as mathematics: the scope records and the print
/// log.
pub struct EState {
    /// The scope records.
    pub recs: Seq<crate::scope::ScopeV>,
    /// The values reported by `print`, in order.
    pub out: Seq<ReamValueV>,
}

/// An evaluation error, as a mathematical shape.
pub enum ErrV {
    /// An identifier bound in no reachable scope.
    UnknownIdentifier { loc: Span, id: Seq<char> },
    /// A value in operator position that cannot be called.
    NotAFunction { loc: Span, name: Seq<char> },
    /// A call whose argument count differs from the callee's formal count.
    WrongArgumentCount { loc: Span, callee: Seq<char>, expected: int, found: int },
    /// An operand whose type a primitive does not accept.
    WrongType { loc: Span, expected: Seq<char>, found: Seq<char> },
    /// An integer division with a zero divisor.
    DivisionByZero { loc: Span },
    /// Integer arithmetic whose result does not fit its type.
    Overflow { loc: Span },
    /// A construct that parses but is deliberately not evaluated.
    Unsupported { loc: Span, kind: Seq<char> },
    /// The host-imposed recursion bound ran out.
    RecursionLimit { loc: Span },
}

/// The shape of an evaluation error.
pub open spec fn spec_ee_view(e: EvalError) -> ErrV {
    match e {
        EvalError::UnknownIdentifier { loc, id } => ErrV::UnknownIdentifier { loc, id: id@ },
        EvalError::NotAFunction { loc, name } => ErrV::NotAFunction { loc, name: name@ },
        EvalError::WrongArgumentCount { loc, callee, expected, found } => {
            ErrV::WrongArgumentCount {
                loc,
                callee: callee@,
                expected: expected as int,
                found: found as int,
            }
        },
        EvalError::WrongType { loc, expected, found } => ErrV::WrongType {
            loc,
            expected: expected@,
            found: found@,
        },
        EvalError::DivisionByZero { loc } => ErrV::DivisionByZero { loc },
        EvalError::Overflow { loc } => ErrV::Overflow { loc },
        EvalError::Unsupported { loc, kind } => ErrV::Unsupported { loc, kind: kind@ },
        EvalError::RecursionLimit { loc } => ErrV::RecursionLimit { loc },
    }
}

/// What a primitive, a call, or a body run yields: a value type.
pub enum TypeOut {
    /// The resulting value type.
    Type(ReamTypeV),
    /// The first error.
    Fail(ErrV),
}

/// The shape of a type-returning result.
pub open spec fn spec_type_out(r: Result<ReamType, EvalError>) -> TypeOut {
    match r {
        Result::Ok(t) => TypeOut::Type(t@),
        Result::Err(e) => TypeOut::Fail(spec_ee_view(e)),
    }
}

/// The exact outcome of an arithmetic primitive on two evaluated operands:
/// one numeric subtype on both sides, never coerced; integer results are
/// exact; a float result is some float, the host's arithmetic deciding
/// which; the offending operand's span is reported.
pub open spec fn arith_rel(p: PrimOp, a: ReamValueV, b: ReamValueV, o: TypeOut) -> bool {
    match (a.t, b.t) {
        (ReamTypeV::Integer(x), ReamTypeV::Integer(y)) => match spec_u64_arith(p, x, y) {
            UArithOut::Val(v) => o == TypeOut::Type(ReamTypeV::Integer(v)),
            UArithOut::Overflowed => o == TypeOut::Fail(ErrV::Overflow { loc: b.span }),
            UArithOut::DividedByZero => o == TypeOut::Fail(ErrV::DivisionByZero { loc: b.span }),
        },
        (ReamTypeV::Float(_), ReamTypeV::Float(_)) => o matches TypeOut::Type(t) && t is Float,
        (ReamTypeV::Integer(_), other) => o == TypeOut::Fail(
            ErrV::WrongType { loc: b.span, expected: "Integer"@, found: spec_rt_label(other) },
        ),
        (ReamTypeV::Float(_), other) => o == TypeOut::Fail(
            ErrV::WrongType { loc: b.span, expected: "Float"@, found: spec_rt_label(other) },
        ),
        (other, _) => o == TypeOut::Fail(
            ErrV::WrongType {
                loc: a.span,
                expected: "Integer or Float"@,
                found: spec_rt_label(other),
            },
        ),
    }
}

/// The exact outcome of a comparison primitive on two evaluated operands.
pub open spec fn compare_rel(p: PrimOp, a: ReamValueV, b: ReamValueV, o: TypeOut) -> bool {
    match spec_compare(p, a.t, b.t) {
        Option::Some(res) => o == TypeOut::Type(ReamTypeV::Boolean(res)),
        Option::None => if !spec_comparable(a.t) {
            o == TypeOut::Fail(
                ErrV::WrongType {
                    loc: a.span,
                    expected:
                        "Boolean or Integer or Float or Character or String or Identifier or Atom or Unit"@,
                    found: spec_rt_label(a.t),
                },
            )
        } else {
            o == TypeOut::Fail(
                ErrV::WrongType {
                    loc: b.span,
                    expected: spec_rt_label(a.t),
                    found: spec_rt_label(b.t),
                },
            )
        },
    }
}

/// What applying a primitive to its evaluated arguments does: exact arity
/// first, then `print` appends to the log, the arithmetic primitives
/// follow [`arith_rel`] and the comparisons [`compare_rel`]. The scope
/// records are untouched.
pub open spec fn prim_rel(
    pre: EState,
    p: PrimOp,
    op_span: Span,
    op_id: Seq<char>,
    args: Seq<ReamValueV>,
    post: EState,
    o: TypeOut,
) -> bool {
    &&& post.recs == pre.recs
    &&& if args.len() != spec_prim_arity(p) {
        post.out == pre.out && o == TypeOut::Fail(
            ErrV::WrongArgumentCount {
                loc: op_span,
                callee: op_id,
                expected: spec_prim_arity(p),
                found: args.len() as int,
            },
        )
    } else if p == PrimOp::Print {
        post.out == pre.out.push(args[0]) && o == TypeOut::Type(ReamTypeV::Unit)
    } else if p == PrimOp::Add || p == PrimOp::Sub || p == PrimOp::Mul || p == PrimOp::Div {
        post.out == pre.out && arith_rel(p, args[0], args[1], o)
    } else {
        post.out == pre.out && compare_rel(p, args[0], args[1], o)
    }
}

/// What evaluating one expression yields.
pub enum EvalOut {
    /// The expression's value.
    Val(ReamValueV),
    /// The first error.
    Fail(ErrV),
}

/// What evaluating an operand list yields.
pub enum ArgsOut {
    /// The operand values, in order.
    Vals(Seq<ReamValueV>),
    /// The first error.
    Fail(ErrV),
}

/// What a whole program run yields.
pub enum ProgOut {
    /// Every form evaluated; this is the print log, in order.
    Printed(Seq<ReamValueV>),
    /// The first (leftmost) error; no later form was evaluated.
    Stopped(ErrV),
}

/// The shape of an expression-evaluation result.
pub open spec fn spec_eval_out(r: Result<ReamValue, EvalError>) -> EvalOut {
    match r {
        Result::Ok(v) => EvalOut::Val(v@),
        Result::Err(e) => EvalOut::Fail(spec_ee_view(e)),
    }
}

/// The shape of an operand-evaluation result.
pub open spec fn spec_args_out(r: Result<Vec<ReamValue>, EvalError>) -> ArgsOut {
    match r {
        Result::Ok(vs) => ArgsOut::Vals(rvs_view(vs@)),
        Result::Err(e) => ArgsOut::Fail(spec_ee_view(e)),
    }
}

/// A sub-result re-spanned under a construct's own span.
pub open spec fn wrap_val(span: Span, o: EvalOut) -> EvalOut {
    match o {
        EvalOut::Val(v) => EvalOut::Val(ReamValueV { span, t: v.t }),
        EvalOut::Fail(e) => EvalOut::Fail(e),
    }
}

/// What every intermediate point of a composite evaluation satisfies: the
/// scope records stay well formed and hold only valid values, and a value
/// produced there is valid against them. The evaluation relations
/// quantify their internal states through this predicate.
pub open spec fn mid_point(mid: EState, o: EvalOut) -> bool {
    &&& crate::scope::scopes_wf(mid.recs)
    &&& crate::scope::scopes_valid(mid.recs)
    &&& match o {
        EvalOut::Val(v) => rt_valid(v.t, mid.recs.len() as int),
        EvalOut::Fail(_) => true,
    }
}

/// The same, for the point after an operand list: every operand value is
/// valid against the records there.
pub open spec fn args_point(mid: EState, o: ArgsOut) -> bool {
    &&& crate::scope::scopes_wf(mid.recs)
    &&& crate::scope::scopes_valid(mid.recs)
    &&& match o {
        ArgsOut::Vals(vs) => rvs_valid(vs, mid.recs.len() as int),
        ArgsOut::Fail(_) => true,
    }
}

/// The records after binding formals positionally to arguments in scope
/// `sc`, left to right.
pub open spec fn spec_bind(
    recs: Seq<crate::scope::ScopeV>,
    sc: int,
    formals: Seq<crate::ast::IdentifierV>,
    args: Seq<ReamValueV>,
) -> Seq<crate::scope::ScopeV>
    decreases formals.len(),
{
    if formals.len() == 0 {
        recs
    } else {
        spec_bind(
            crate::scope::spec_set(recs, sc, formals[0].id, args[0]),
            sc,
            formals.drop_first(),
            args.drop_first(),
        )
    }
}

/// What evaluating one expression in scope `sc` with the given fuel does
/// to the state, and what it yields: the tree-walking evaluation, step by
/// step. Spent fuel surfaces as an explicit error. The only freedom in
/// the relation is the bits of the floats the host computes.
pub open spec fn eval_rel(
    pre: EState,
    e: ExpressionV,
    sc: int,
    fuel: u64,
    post: EState,
    o: EvalOut,
) -> bool
    decreases fuel, 0int, 0int,
{
    if fuel == 0 {
        post == pre && o == EvalOut::Fail(
            ErrV::RecursionLimit { loc: crate::ast::spec_expr_span(e) },
        )
    } else {
        match e {
            ExpressionV::Identifier(id) => post == pre && (match lookup(pre.recs, sc, id.id) {
                Option::Some(v) => o == EvalOut::Val(v),
                Option::None => match spec_primitive_of(id.id) {
                    Option::Some(p) => o == EvalOut::Val(
                        ReamValueV { span: id.span, t: ReamTypeV::Primitive(p) },
                    ),
                    Option::None => o == EvalOut::Fail(
                        ErrV::UnknownIdentifier { loc: id.span, id: id.id },
                    ),
                },
            }),
            ExpressionV::Literal(l) => post == pre && (match o {
                EvalOut::Val(v) => lit_value_rel(l, v),
                EvalOut::Fail(_) => false,
            }),
            ExpressionV::TypeAlias { span, .. } => post == pre && o == EvalOut::Fail(
                ErrV::Unsupported { loc: span, kind: "TypeAlias"@ },
            ),
            ExpressionV::AlgebraicTypeDefinition { span, .. } => post == pre && o == EvalOut::Fail(
                ErrV::Unsupported { loc: span, kind: "AlgebraicTypeDefinition"@ },
            ),
            ExpressionV::Annotation(a) => post == pre && o == EvalOut::Fail(
                ErrV::Unsupported { loc: crate::ast::spec_annotation_span(a), kind: "Annotation"@ },
            ),
            ExpressionV::Inclusion { span, .. } => post == pre && o == EvalOut::Fail(
                ErrV::Unsupported { loc: span, kind: "Inclusion"@ },
            ),
            ExpressionV::Definition { span, target, value } => exists|mid: EState, vo: EvalOut|
                #[trigger] mid_point(mid, vo) && eval_rel(pre, *value, sc, (fuel - 1) as u64, mid, vo)
                    && (match vo {
                    EvalOut::Fail(er) => post == mid && o == EvalOut::Fail(er),
                    EvalOut::Val(v) => post == (EState {
                        recs: crate::scope::spec_set(mid.recs, sc, target.id, v),
                        out: mid.out,
                    }) && o == EvalOut::Val(ReamValueV { span, t: ReamTypeV::Unit }),
                }),
            ExpressionV::Sequence { span, seq } => {
                let entry = EState { recs: crate::scope::spec_extend(pre.recs, sc), out: pre.out };
                match o {
                    EvalOut::Val(v) => v.span == span && body_rel(
                        entry,
                        seq,
                        pre.recs.len() as int,
                        (fuel - 1) as u64,
                        post,
                        TypeOut::Type(v.t),
                    ),
                    EvalOut::Fail(er) => body_rel(
                        entry,
                        seq,
                        pre.recs.len() as int,
                        (fuel - 1) as u64,
                        post,
                        TypeOut::Fail(er),
                    ),
                }
            },
            ExpressionV::ProcedureCall { span, operator, operands } => match o {
                EvalOut::Val(v) => v.span == span && call_rel(
                    pre,
                    operator,
                    operands,
                    sc,
                    (fuel - 1) as u64,
                    post,
                    TypeOut::Type(v.t),
                ),
                EvalOut::Fail(er) => call_rel(
                    pre,
                    operator,
                    operands,
                    sc,
                    (fuel - 1) as u64,
                    post,
                    TypeOut::Fail(er),
                ),
            },
            ExpressionV::LambdaExpression { span, formals, body } => {
                &&& post == (EState { recs: crate::scope::spec_close(pre.recs, sc), out: pre.out })
                &&& o == EvalOut::Val(
                    ReamValueV {
                        span,
                        t: ReamTypeV::Closure {
                            formals,
                            body,
                            enclosed_scope: pre.recs.len() as int,
                        },
                    },
                )
            },
            ExpressionV::Conditional { span, test, consequent, alternate } => exists|
                mid: EState,
                to_: EvalOut,
            |
                #[trigger] mid_point(mid, to_) && eval_rel(pre, *test, sc, (fuel - 1) as u64, mid, to_)
                    && (match to_ {
                    EvalOut::Fail(er) => post == mid && o == EvalOut::Fail(er),
                    EvalOut::Val(tv) => if spec_truthy(tv.t) {
                        branch_rel(mid, *consequent, sc, (fuel - 1) as u64, span, post, o)
                    } else {
                        match alternate {
                            Option::Some(a) => branch_rel(
                                mid,
                                *a,
                                sc,
                                (fuel - 1) as u64,
                                span,
                                post,
                                o,
                            ),
                            Option::None => post == mid && o == EvalOut::Val(
                                ReamValueV { span, t: ReamTypeV::Unit },
                            ),
                        }
                    },
                }),
        }
    }
}

/// Evaluating the one branch a conditional takes, its value re-spanned
/// under the conditional's own span.
pub open spec fn branch_rel(
    pre: EState,
    b: ExpressionV,
    sc: int,
    fuel: u64,
    span: Span,
    post: EState,
    o: EvalOut,
) -> bool
    decreases fuel, 1int, 0int,
{
    exists|co: EvalOut|
        #[trigger] mid_point(post, co) && eval_rel(pre, b, sc, fuel, post, co) && o == wrap_val(
            span,
            co,
        )
}

/// Left-to-right evaluation of a run of expressions in one scope; the
/// result is the last value's type, unit when there is none.
pub open spec fn body_rel(
    pre: EState,
    es: Seq<ExpressionV>,
    sc: int,
    fuel: u64,
    post: EState,
    o: TypeOut,
) -> bool
    decreases fuel, 2int, es.len(),
{
    if es.len() == 0 {
        post == pre && o == TypeOut::Type(ReamTypeV::Unit)
    } else {
        exists|mid: EState, eo: EvalOut|
            #[trigger] mid_point(mid, eo) && eval_rel(pre, es[0], sc, fuel, mid, eo) && (match eo {
                EvalOut::Fail(er) => post == mid && o == TypeOut::Fail(er),
                EvalOut::Val(v) => if es.len() == 1 {
                    post == mid && o == TypeOut::Type(v.t)
                } else {
                    body_rel(mid, es.drop_first(), sc, fuel, post, o)
                },
            })
    }
}

/// Left-to-right eager evaluation of operands in the caller's scope.
pub open spec fn operands_rel(
    pre: EState,
    es: Seq<ExpressionV>,
    sc: int,
    fuel: u64,
    post: EState,
    o: ArgsOut,
) -> bool
    decreases fuel, 2int, es.len(),
{
    if es.len() == 0 {
        post == pre && o == ArgsOut::Vals(Seq::empty())
    } else {
        exists|mid: EState, eo: EvalOut|
            #[trigger] mid_point(mid, eo) && eval_rel(pre, es[0], sc, fuel, mid, eo) && (match eo {
                EvalOut::Fail(er) => post == mid && o == ArgsOut::Fail(er),
                EvalOut::Val(v) => match o {
                    ArgsOut::Fail(er2) => operands_rel(
                        mid,
                        es.drop_first(),
                        sc,
                        fuel,
                        post,
                        ArgsOut::Fail(er2),
                    ),
                    ArgsOut::Vals(vs) => vs.len() > 0 && vs[0] == v && operands_rel(
                        mid,
                        es.drop_first(),
                        sc,
                        fuel,
                        post,
                        ArgsOut::Vals(vs.drop_first()),
                    ),
                },
            })
    }
}

/// Calling a closure: exact arity, then the body in a fresh child of the
/// captured scope with the formals bound positionally to the arguments.
pub open spec fn closure_rel(
    pre: EState,
    formals: Seq<crate::ast::IdentifierV>,
    body: Seq<ExpressionV>,
    enclosed_scope: int,
    op_span: Span,
    op_id: Seq<char>,
    args: Seq<ReamValueV>,
    fuel: u64,
    post: EState,
    o: TypeOut,
) -> bool
    decreases fuel, 3int, 0int,
{
    if formals.len() != args.len() {
        post == pre && o == TypeOut::Fail(
            ErrV::WrongArgumentCount {
                loc: op_span,
                callee: op_id,
                expected: formals.len() as int,
                found: args.len() as int,
            },
        )
    } else {
        body_rel(
            EState {
                recs: spec_bind(
                    crate::scope::spec_extend(pre.recs, enclosed_scope),
                    pre.recs.len() as int,
                    formals,
                    args,
                ),
                out: pre.out,
            },
            body,
            pre.recs.len() as int,
            fuel,
            post,
            o,
        )
    }
}

/// Resolving an identifier in operator position against its evaluated
/// arguments: the fixed primitive table first, so a primitive is never
/// shadowed there; then a scope lookup giving a closure or a primitive
/// value; anything else is no function.
pub open spec fn apply_rel(
    pre: EState,
    operator: crate::ast::IdentifierV,
    args: Seq<ReamValueV>,
    sc: int,
    fuel: u64,
    post: EState,
    o: TypeOut,
) -> bool
    decreases fuel, 4int, 0int,
{
    match spec_primitive_of(operator.id) {
        Option::Some(p) => prim_rel(pre, p, operator.span, operator.id, args, post, o),
        Option::None => match lookup(pre.recs, sc, operator.id) {
            Option::None => post == pre && o == TypeOut::Fail(
                ErrV::UnknownIdentifier { loc: operator.span, id: operator.id },
            ),
            Option::Some(v) => match v.t {
                ReamTypeV::Closure { formals, body, enclosed_scope } => closure_rel(
                    pre,
                    formals,
                    body,
                    enclosed_scope,
                    operator.span,
                    operator.id,
                    args,
                    fuel,
                    post,
                    o,
                ),
                ReamTypeV::Primitive(p) => prim_rel(
                    pre,
                    p,
                    operator.span,
                    operator.id,
                    args,
                    post,
                    o,
                ),
                _ => post == pre && o == TypeOut::Fail(
                    ErrV::NotAFunction { loc: operator.span, name: operator.id },
                ),
            },
        },
    }
}

/// A whole call: operands evaluated first, eagerly, left to right in the
/// caller's scope, then the operator resolved and applied.
pub open spec fn call_rel(
    pre: EState,
    operator: crate::ast::IdentifierV,
    operands: Seq<ExpressionV>,
    sc: int,
    fuel: u64,
    post: EState,
    o: TypeOut,
) -> bool
    decreases fuel, 5int, 0int,
{
    exists|mid: EState, ao: ArgsOut|
        #[trigger] args_point(mid, ao) && operands_rel(pre, operands, sc, fuel, mid, ao) && (
        match ao {
            ArgsOut::Fail(er) => post == mid && o == TypeOut::Fail(er),
            ArgsOut::Vals(vs) => apply_rel(mid, operator, vs, sc, fuel, post, o),
        })
}

/// Left-to-right, fail-fast evaluation of a program's top-level
/// expressions against the shared global scope `0`.
pub open spec fn program_rel(es: Seq<ExpressionV>, pre: EState, fuel: u64, o: ProgOut) -> bool
    decreases es.len(),
{
    if es.len() == 0 {
        o == ProgOut::Printed(pre.out)
    } else {
        exists|mid: EState, eo: EvalOut|
            #[trigger] mid_point(mid, eo) && eval_rel(pre, es[0], 0, fuel, mid, eo) && (match eo {
                EvalOut::Fail(er) => o == ProgOut::Stopped(er),
                EvalOut::Val(_) => program_rel(es.drop_first(), mid, fuel, o),
            })
    }
}

/// The state of one evaluation: the scope arena and the log of values the
/// `print` primitive has reported, in order.
#[derive(Debug)]
pub struct Interpreter {
    /// The scope arena.
    pub scopes: Scopes,
    /// The values reported by `print`, in order.
    pub out: Vec<ReamValue>,
}

/// The mathematical state of an interpreter.
pub open spec fn spec_state(i: Interpreter) -> EState {
    EState { recs: i.scopes@, out: rvs_view(i.out@) }
}

impl Interpreter {
    /// The interpreter's well-formedness: its arena's.
    pub open spec fn wf(self) -> bool {
        self.scopes.wf()
    }

    /// A fresh interpreter: one empty global scope, nothing printed.
    pub fn new() -> (r: Interpreter)
        ensures
            r.wf(),
            r.scopes@.len() == 1,
            r.scopes@[0].parent is None,
            r.scopes@[0].symbols == Seq::<(Seq<char>, ReamValueV)>::empty(),
            r.out@ == Seq::<ReamValue>::empty(),
    {
        Interpreter { scopes: Scopes::new(), out: Vec::new() }
    }

    /// Apply a primitive to its evaluated arguments.
    ///
    /// Arity is checked first, against the primitive's own count; the
    /// arithmetic primitives then demand one numeric subtype on both
    /// sides, never coercing, and the comparisons one comparable kind.
    /// `print` appends its argument to the output log.
    #[verifier::rlimit(100)]
    pub fn apply_primitive<F: FloatOps>(
        &mut self,
        ops: &F,
        p: PrimOp,
        op_span: Span,
        op_id: &str,
        args: Vec<ReamValue>,
    ) -> (r: Result<ReamType, EvalError>)
        requires
            old(self).wf(),
        ensures
            final(self).wf(),
            final(self).scopes == old(self).scopes,
            prim_rel(
                spec_state(*old(self)),
                p,
                op_span,
                op_id@,
                rvs_view(args@),
                spec_state(*final(self)),
                spec_type_out(r),
            ),
            r matches Result::Ok(rt) ==> rt_valid(rt@, old(self).scopes@.len() as int),
    {
        proof {
            lemma_rvs_view_elems(args@);
        }
        let arity: usize = if matches!(p, PrimOp::Print) {
            1
        } else {
            2
        };
        if args.len() != arity {
            return Result::Err(
                EvalError::WrongArgumentCount {
                    loc: op_span,
                    callee: String::from_str(op_id),
                    expected: arity,
                    found: args.len(),
                },
            );
        }
        let ghost avs = rvs_view(args@);
        let mut args = args;
        if matches!(p, PrimOp::Print) {
            let v = args.pop().unwrap();
            let ghost pre_out = rvs_view(self.out@);
            proof {
                lemma_rvs_view_elems(self.out@);
            }
            self.out.push(v);
            proof {
                lemma_rvs_view_elems(self.out@);
                assert(rvs_view(self.out@) =~= pre_out.push(avs[0]));
            }
            return Result::Ok(ReamType::Unit);
        }
        let b = args.pop().unwrap();
        let a = args.pop().unwrap();
        proof {
            assert(a@ == avs[0]);
            assert(b@ == avs[1]);
        }
        let arith = matches!(p, PrimOp::Add) || matches!(p, PrimOp::Sub) || matches!(
            p,
            PrimOp::Mul,
        ) || matches!(p, PrimOp::Div);
        if arith {
            self.apply_arith(ops, p, a, b)
        } else {
            self.apply_compare(p, a, b)
        }
    }

    /// Apply an arithmetic primitive to its two evaluated operands.
    fn apply_arith<F: FloatOps>(&mut self, ops: &F, p: PrimOp, a: ReamValue, b: ReamValue) -> (r:
        Result<ReamType, EvalError>)
        requires
            old(self).wf(),
            p == PrimOp::Add || p == PrimOp::Sub || p == PrimOp::Mul || p == PrimOp::Div,
        ensures
            *final(self) == *old(self),
            arith_rel(p, a@, b@, spec_type_out(r)),
            r matches Result::Ok(rt) ==> rt_valid(rt@, old(self).scopes@.len() as int),
    {
        match (&a.t, &b.t) {
            (ReamType::Integer(x), ReamType::Integer(y)) => {
                if matches!(p, PrimOp::Div) && *y == 0 {
                    return Result::Err(EvalError::DivisionByZero { loc: b.span });
                }
                let computed: Option<u64> = match p {
                    PrimOp::Add => x.checked_add(*y),
                    PrimOp::Sub => x.checked_sub(*y),
                    PrimOp::Mul => x.checked_mul(*y),
                    _ => Option::Some(*x / *y),
                };
                match computed {
                    Option::Some(v) => Result::Ok(ReamType::Integer(v)),
                    Option::None => Result::Err(EvalError::Overflow { loc: b.span }),
                }
            },
            (ReamType::Float(x), ReamType::Float(y)) => {
                let bits: u64 = match p {
                    PrimOp::Add => ops.float_add(*x, *y),
                    PrimOp::Sub => ops.float_sub(*x, *y),
                    PrimOp::Mul => ops.float_mul(*x, *y),
                    _ => ops.float_div(*x, *y),
                };
                Result::Ok(ReamType::Float(bits))
            },
            (ReamType::Integer(_), other) => Result::Err(
                EvalError::WrongType {
                    loc: b.span,
                    expected: String::from_str("Integer"),
                    found: other.type_label(),
                },
            ),
            (ReamType::Float(_), other) => Result::Err(
                EvalError::WrongType {
                    loc: b.span,
                    expected: String::from_str("Float"),
                    found: other.type_label(),
                },
            ),
            (other, _) => Result::Err(
                EvalError::WrongType {
                    loc: a.span,
                    expected: String::from_str("Integer or Float"),
                    found: other.type_label(),
                },
            ),
        }
    }

    /// Apply a comparison primitive to its two evaluated operands.
    fn apply_compare(&mut self, p: PrimOp, a: ReamValue, b: ReamValue) -> (r: Result<
        ReamType,
        EvalError,
    >)
        requires
            old(self).wf(),
            p == PrimOp::Eq || p == PrimOp::Neq || p == PrimOp::Gt || p == PrimOp::Gte || p
                == PrimOp::Lt || p == PrimOp::Lte,
        ensures
            *final(self) == *old(self),
            compare_rel(p, a@, b@, spec_type_out(r)),
            r matches Result::Ok(rt) ==> rt_valid(rt@, old(self).scopes@.len() as int),
    {
        match (&a.t, &b.t) {
            (ReamType::Boolean(x), ReamType::Boolean(y)) => Result::Ok(
                ReamType::Boolean(cmp_pick(p, !*x && *y, *x == *y)),
            ),
            (ReamType::Integer(x), ReamType::Integer(y)) => Result::Ok(
                ReamType::Boolean(cmp_pick(p, *x < *y, *x == *y)),
            ),
            (ReamType::Float(x), ReamType::Float(y)) => {
                let res: bool = match p {
                    PrimOp::Eq => float_eq(*x, *y),
                    PrimOp::Neq => !float_eq(*x, *y),
                    PrimOp::Gt => float_lt(*y, *x),
                    PrimOp::Gte => float_lt(*y, *x) || float_eq(*x, *y),
                    PrimOp::Lt => float_lt(*x, *y),
                    _ => float_lt(*x, *y) || float_eq(*x, *y),
                };
                Result::Ok(ReamType::Boolean(res))
            },
            (ReamType::Character(x), ReamType::Character(y)) => Result::Ok(
                ReamType::Boolean(cmp_pick(p, (*x as u32) < (*y as u32), *x == *y)),
            ),
            (ReamType::String(x), ReamType::String(y)) => Result::Ok(
                ReamType::Boolean(
                    cmp_pick(p, str_less(x.as_str(), y.as_str()), str_eq(x.as_str(), y.as_str())),
                ),
            ),
            (ReamType::Identifier(x), ReamType::Identifier(y)) => Result::Ok(
                ReamType::Boolean(
                    cmp_pick(p, str_less(x.as_str(), y.as_str()), str_eq(x.as_str(), y.as_str())),
                ),
            ),
            (ReamType::Atom(x), ReamType::Atom(y)) => Result::Ok(
                ReamType::Boolean(
                    cmp_pick(p, str_less(x.as_str(), y.as_str()), str_eq(x.as_str(), y.as_str())),
                ),
            ),
            (ReamType::Unit, ReamType::Unit) => Result::Ok(
                ReamType::Boolean(cmp_pick(p, false, true)),
            ),
            (at, bt) => {
                if comparable(at) {
                    Result::Err(
                        EvalError::WrongType {
                            loc: b.span,
                            expected: at.type_label(),
                            found: bt.type_label(),
                        },
                    )
                } else {
                    Result::Err(
                        EvalError::WrongType {
                            loc: a.span,
                            expected: String::from_str(
                                "Boolean or Integer or Float or Character or String or Identifier or Atom or Unit",
                            ),
                            found: at.type_label(),
                        },
                    )
                }
            },
        }
    }
}

/// The answer a comparison gives from "less" and "equal".
fn cmp_pick(p: PrimOp, lt: bool, eq: bool) -> (r: bool)
    ensures
        r == spec_cmp_pick(p, lt, eq),
{
    match p {
        PrimOp::Eq => eq,
        PrimOp::Neq => !eq,
        PrimOp::Gt => !lt && !eq,
        PrimOp::Gte => !lt,
        PrimOp::Lt => lt,
        _ => lt || eq,
    }
}

/// Whether a value type takes part in comparisons.
fn comparable(t: &ReamType) -> (r: bool)
    ensures
        r == spec_comparable(t@),
{
    match t {
        ReamType::List(_) => false,
        ReamType::Primitive(_) => false,
        ReamType::Closure { .. } => false,
        _ => true,
    }
}

impl Interpreter {
    /// Evaluate one expression in scope `sc`, within `fuel` nested steps.
    ///
    /// A literal evaluates to its value; an identifier to what lookup
    /// finds, innermost first, or an unknown-identifier error; a lambda
    /// captures its defining scope by snapshot; the parse-time-only
    /// constructs surface as explicit unsupported errors.
    #[verifier::rlimit(100)]
    pub fn eval_expr<F: FloatOps>(
        &mut self,
        ops: &F,
        e: &Expression,
        sc: usize,
        fuel: u64,
    ) -> (r: Result<ReamValue, EvalError>)
        requires
            old(self).wf(),
            sc < old(self).scopes@.len(),
        ensures
            final(self).wf(),
            old(self).scopes@.len() <= final(self).scopes@.len(),
            (r matches Result::Ok(v) ==> rt_valid(v@.t, final(self).scopes@.len() as int)),
            eval_rel(
                spec_state(*old(self)),
                e@,
                sc as int,
                fuel,
                spec_state(*final(self)),
                spec_eval_out(r),
            ),
            fuel == 0 ==> (r matches Result::Err(EvalError::RecursionLimit { loc }) && loc
                == crate::ast::spec_expr_span(e@)),
            fuel > 0 ==> {
                &&& (e@ matches ExpressionV::Identifier(id) ==> *final(self) == *old(self) && match
                    lookup(old(self).scopes@, sc as int, id.id) {
                    Option::Some(v0) => r matches Result::Ok(v) && v@ == v0,
                    Option::None => match spec_primitive_of(id.id) {
                        Option::Some(p) => r matches Result::Ok(v) && v@ == (ReamValueV {
                            span: id.span,
                            t: ReamTypeV::Primitive(p),
                        }),
                        Option::None => r matches Result::Err(
                            EvalError::UnknownIdentifier { loc, id: bad },
                        ) && loc == id.span && bad@ == id.id,
                    },
                })
                &&& (e@ matches ExpressionV::Literal(l) ==> *final(self) == *old(self) && (r matches
                    Result::Ok(v) && lit_value_rel(l, v@)))
                &&& (e@ matches ExpressionV::LambdaExpression { span, formals, body } ==> final(self).scopes@ == spec_close(old(self).scopes@, sc as int) && final(self).out == old(self).out && (r matches Result::Ok(v) && v@ == (ReamValueV {
                    span,
                    t: ReamTypeV::Closure {
                        formals,
                        body,
                        enclosed_scope: old(self).scopes@.len() as int,
                    },
                })))
                &&& (e@ is TypeAlias ==> *final(self) == *old(self) && (r matches Result::Err(
                    EvalError::Unsupported { loc, kind },
                ) && loc == crate::ast::spec_expr_span(e@) && kind@ == "TypeAlias"@))
                &&& (e@ is AlgebraicTypeDefinition ==> *final(self) == *old(self) && (r matches
                    Result::Err(EvalError::Unsupported { loc, kind }) && loc
                    == crate::ast::spec_expr_span(e@) && kind@ == "AlgebraicTypeDefinition"@))
                &&& (e@ is Annotation ==> *final(self) == *old(self) && (r matches Result::Err(
                    EvalError::Unsupported { loc, kind },
                ) && loc == crate::ast::spec_expr_span(e@) && kind@ == "Annotation"@))
                &&& (e@ is Inclusion ==> *final(self) == *old(self) && (r matches Result::Err(
                    EvalError::Unsupported { loc, kind },
                ) && loc == crate::ast::spec_expr_span(e@) && kind@ == "Inclusion"@))
            },
        decreases fuel, 0int,
    {
        if fuel == 0 {
            return Result::Err(EvalError::RecursionLimit { loc: e.span() });
        }
        match e {
            Expression::Identifier(id) => {
                match self.scopes.get(sc, id.id.as_str()) {
                    Option::Some(v) => Result::Ok(v),
                    Option::None => {
                        match try_primitive(id.id.as_str()) {
                            Option::Some(p) => Result::Ok(
                                ReamValue { span: id.span, t: ReamType::Primitive(p) },
                            ),
                            Option::None => Result::Err(
                                EvalError::UnknownIdentifier {
                                    loc: id.span,
                                    id: clone_string(&id.id),
                                },
                            ),
                        }
                    },
                }
            },
            Expression::Literal(lit) => {
                let v = eval_literal(ops, lit);
                proof {
                    lemma_rt_valid_mono(rv_view(v).t, 0, self.scopes@.len() as int);
                }
                Result::Ok(v)
            },
            Expression::TypeAlias { span, .. } => Result::Err(
                EvalError::Unsupported { loc: *span, kind: String::from_str("TypeAlias") },
            ),
            Expression::AlgebraicTypeDefinition { span, .. } => Result::Err(
                EvalError::Unsupported {
                    loc: *span,
                    kind: String::from_str("AlgebraicTypeDefinition"),
                },
            ),
            Expression::Annotation(a) => Result::Err(
                EvalError::Unsupported { loc: a.span(), kind: String::from_str("Annotation") },
            ),
            Expression::Inclusion { span, .. } => Result::Err(
                EvalError::Unsupported { loc: *span, kind: String::from_str("Inclusion") },
            ),
            Expression::Definition { span, target, value } => {
                let ghost pre = spec_state(*self);
                let v = match self.eval_expr(ops, value, sc, fuel - 1) {
                    Result::Ok(v) => v,
                    Result::Err(err) => {
                        proof {
                            let fail = EvalOut::Fail(spec_ee_view(err));
                            assert(mid_point(spec_state(*self), fail));
                            assert(eval_rel(
                                pre,
                                crate::ast::expr_view(**value),
                                sc as int,
                                (fuel - 1) as u64,
                                spec_state(*self),
                                fail,
                            ));
                        }
                        return Result::Err(err);
                    },
                };
                let ghost mid = spec_state(*self);
                let ghost vv = v@;
                proof {
                    assert(mid_point(mid, EvalOut::Val(vv)));
                    assert(eval_rel(
                        pre,
                        crate::ast::expr_view(**value),
                        sc as int,
                        (fuel - 1) as u64,
                        mid,
                        EvalOut::Val(vv),
                    ));
                }
                self.scopes.set(sc, clone_string(&target.id), v);
                let result = Result::Ok(ReamValue { span: *span, t: ReamType::Unit });
                proof {
                    assert(eval_rel(
                        pre,
                        e@,
                        sc as int,
                        fuel,
                        spec_state(*self),
                        spec_eval_out(result),
                    ));
                }
                result
            },
            Expression::Sequence { span, seq } => {
                let ghost pre = spec_state(*self);
                let child = self.scopes.extend(sc);
                let ghost entry = spec_state(*self);
                proof {
                    assert(entry == (EState {
                        recs: crate::scope::spec_extend(pre.recs, sc as int),
                        out: pre.out,
                    }));
                    assert(crate::ast::exprs_view(seq@).skip(0) =~= crate::ast::exprs_view(seq@));
                }
                let t = match self.eval_body_from(ops, seq, 0, child, fuel - 1) {
                    Result::Ok(t) => t,
                    Result::Err(err) => {
                        proof {
                            assert(body_rel(
                                entry,
                                crate::ast::exprs_view(seq@),
                                child as int,
                                (fuel - 1) as u64,
                                spec_state(*self),
                                TypeOut::Fail(spec_ee_view(err)),
                            ));
                        }
                        return Result::Err(err);
                    },
                };
                let ghost tv = t@;
                proof {
                    assert(body_rel(
                        entry,
                        crate::ast::exprs_view(seq@),
                        child as int,
                        (fuel - 1) as u64,
                        spec_state(*self),
                        TypeOut::Type(tv),
                    ));
                }
                Result::Ok(ReamValue { span: *span, t })
            },
            Expression::ProcedureCall { span, operator, operands } => {
                let ghost pre = spec_state(*self);
                let t = match self.apply_operator(ops, operator, operands, sc, fuel - 1) {
                    Result::Ok(t) => t,
                    Result::Err(err) => {
                        proof {
                            assert(call_rel(
                                pre,
                                operator@,
                                crate::ast::exprs_view(operands@),
                                sc as int,
                                (fuel - 1) as u64,
                                spec_state(*self),
                                TypeOut::Fail(spec_ee_view(err)),
                            ));
                        }
                        return Result::Err(err);
                    },
                };
                let ghost tv = t@;
                proof {
                    assert(call_rel(
                        pre,
                        operator@,
                        crate::ast::exprs_view(operands@),
                        sc as int,
                        (fuel - 1) as u64,
                        spec_state(*self),
                        TypeOut::Type(tv),
                    ));
                }
                Result::Ok(ReamValue { span: *span, t })
            },
            Expression::LambdaExpression { span, formals, body } => {
                let enclosed = self.scopes.close(sc);
                Result::Ok(
                    ReamValue {
                        span: *span,
                        t: ReamType::Closure {
                            formals: duplicate_idents(formals),
                            body: duplicate_exprs(body),
                            enclosed_scope: enclosed,
                        },
                    },
                )
            },
            Expression::Conditional { span, test, consequent, alternate } => {
                let ghost pre = spec_state(*self);
                let tv = match self.eval_expr(ops, test, sc, fuel - 1) {
                    Result::Ok(v) => v,
                    Result::Err(err) => {
                        proof {
                            let fail = EvalOut::Fail(spec_ee_view(err));
                            assert(mid_point(spec_state(*self), fail));
                            assert(eval_rel(
                                pre,
                                crate::ast::expr_view(**test),
                                sc as int,
                                (fuel - 1) as u64,
                                spec_state(*self),
                                fail,
                            ));
                        }
                        return Result::Err(err);
                    },
                };
                let ghost mid = spec_state(*self);
                let ghost tvv = tv@;
                proof {
                    assert(mid_point(mid, EvalOut::Val(tvv)));
                    assert(eval_rel(
                        pre,
                        crate::ast::expr_view(**test),
                        sc as int,
                        (fuel - 1) as u64,
                        mid,
                        EvalOut::Val(tvv),
                    ));
                }
                if tv.t.is_truthy() {
                    let cv = match self.eval_expr(ops, consequent, sc, fuel - 1) {
                        Result::Ok(v) => v,
                        Result::Err(err) => {
                            proof {
                                let fail = EvalOut::Fail(spec_ee_view(err));
                                assert(mid_point(spec_state(*self), fail));
                                assert(eval_rel(
                                    mid,
                                    crate::ast::expr_view(**consequent),
                                    sc as int,
                                    (fuel - 1) as u64,
                                    spec_state(*self),
                                    fail,
                                ));
                                assert(branch_rel(
                                    mid,
                                    crate::ast::expr_view(**consequent),
                                    sc as int,
                                    (fuel - 1) as u64,
                                    *span,
                                    spec_state(*self),
                                    fail,
                                ));
                            }
                            return Result::Err(err);
                        },
                    };
                    let ghost cvv = cv@;
                    proof {
                        assert(mid_point(spec_state(*self), EvalOut::Val(cvv)));
                        assert(eval_rel(
                            mid,
                            crate::ast::expr_view(**consequent),
                            sc as int,
                            (fuel - 1) as u64,
                            spec_state(*self),
                            EvalOut::Val(cvv),
                        ));
                        assert(branch_rel(
                            mid,
                            crate::ast::expr_view(**consequent),
                            sc as int,
                            (fuel - 1) as u64,
                            *span,
                            spec_state(*self),
                            EvalOut::Val(ReamValueV { span: *span, t: cvv.t }),
                        ));
                    }
                    Result::Ok(ReamValue { span: *span, t: cv.t })
                } else {
                    match alternate {
                        Option::Some(alt) => {
                            let av = match self.eval_expr(ops, alt, sc, fuel - 1) {
                                Result::Ok(v) => v,
                                Result::Err(err) => {
                                    proof {
                                        let fail = EvalOut::Fail(spec_ee_view(err));
                                        assert(mid_point(spec_state(*self), fail));
                                        assert(eval_rel(
                                            mid,
                                            crate::ast::expr_view(**alt),
                                            sc as int,
                                            (fuel - 1) as u64,
                                            spec_state(*self),
                                            fail,
                                        ));
                                        assert(branch_rel(
                                            mid,
                                            crate::ast::expr_view(**alt),
                                            sc as int,
                                            (fuel - 1) as u64,
                                            *span,
                                            spec_state(*self),
                                            fail,
                                        ));
                                    }
                                    return Result::Err(err);
                                },
                            };
                            let ghost avv = av@;
                            proof {
                                assert(mid_point(spec_state(*self), EvalOut::Val(avv)));
                                assert(eval_rel(
                                    mid,
                                    crate::ast::expr_view(**alt),
                                    sc as int,
                                    (fuel - 1) as u64,
                                    spec_state(*self),
                                    EvalOut::Val(avv),
                                ));
                                assert(branch_rel(
                                    mid,
                                    crate::ast::expr_view(**alt),
                                    sc as int,
                                    (fuel - 1) as u64,
                                    *span,
                                    spec_state(*self),
                                    EvalOut::Val(ReamValueV { span: *span, t: avv.t }),
                                ));
                            }
                            Result::Ok(ReamValue { span: *span, t: av.t })
                        },
                        Option::None => Result::Ok(ReamValue { span: *span, t: ReamType::Unit }),
                    }
                }
            },
        }
    }

    /// Evaluate the expressions from index `from` on, left to right in one
    /// scope; the result is the last value's type, or unit when there is
    /// none.
    #[verifier::rlimit(100)]
    fn eval_body_from<F: FloatOps>(
        &mut self,
        ops: &F,
        exprs: &Vec<Expression>,
        from: usize,
        sc: usize,
        fuel: u64,
    ) -> (r: Result<ReamType, EvalError>)
        requires
            old(self).wf(),
            sc < old(self).scopes@.len(),
            from <= exprs@.len(),
        ensures
            final(self).wf(),
            old(self).scopes@.len() <= final(self).scopes@.len(),
            r matches Result::Ok(t) ==> rt_valid(t@, final(self).scopes@.len() as int),
            body_rel(
                spec_state(*old(self)),
                crate::ast::exprs_view(exprs@).skip(from as int),
                sc as int,
                fuel,
                spec_state(*final(self)),
                spec_type_out(r),
            ),
        decreases fuel, 1int, exprs@.len() - from,
    {
        let ghost es = crate::ast::exprs_view(exprs@).skip(from as int);
        proof {
            crate::ast::lemma_exprs_view_elems(exprs@);
        }
        if from >= exprs.len() {
            proof {
                assert(es.len() == 0);
            }
            return Result::Ok(ReamType::Unit);
        }
        proof {
            assert(es[0] == crate::ast::exprs_view(exprs@)[from as int]);
        }
        let ghost pre = spec_state(*self);
        let v = match self.eval_expr(ops, &exprs[from], sc, fuel) {
            Result::Ok(v) => v,
            Result::Err(err) => {
                proof {
                    let fail = EvalOut::Fail(spec_ee_view(err));
                    assert(mid_point(spec_state(*self), fail));
                    assert(eval_rel(pre, es[0], sc as int, fuel, spec_state(*self), fail));
                    assert(body_rel(
                        pre,
                        es,
                        sc as int,
                        fuel,
                        spec_state(*self),
                        TypeOut::Fail(spec_ee_view(err)),
                    ));
                }
                return Result::Err(err);
            },
        };
        let ghost mid = spec_state(*self);
        let ghost vv = v@;
        proof {
            assert(mid_point(mid, EvalOut::Val(vv)));
            assert(eval_rel(pre, es[0], sc as int, fuel, mid, EvalOut::Val(vv)));
        }
        if from + 1 >= exprs.len() {
            proof {
                assert(es.len() == 1);
                assert(body_rel(pre, es, sc as int, fuel, mid, TypeOut::Type(vv.t)));
            }
            Result::Ok(v.t)
        } else {
            let rest = match self.eval_body_from(ops, exprs, from + 1, sc, fuel) {
                Result::Ok(t) => t,
                Result::Err(err) => {
                    proof {
                        assert(es.drop_first() =~= crate::ast::exprs_view(exprs@).skip(
                            from + 1,
                        ));
                        assert(body_rel(
                            pre,
                            es,
                            sc as int,
                            fuel,
                            spec_state(*self),
                            TypeOut::Fail(spec_ee_view(err)),
                        ));
                    }
                    return Result::Err(err);
                },
            };
            let ghost restv = rest@;
            proof {
                assert(es.drop_first() =~= crate::ast::exprs_view(exprs@).skip(from + 1));
                assert(body_rel(
                    pre,
                    es,
                    sc as int,
                    fuel,
                    spec_state(*self),
                    TypeOut::Type(restv),
                ));
            }
            Result::Ok(rest)
        }
    }

    /// Evaluate the operands from index `from` on, left to right in the
    /// caller's scope, eagerly.
    #[verifier::rlimit(100)]
    fn eval_operands_from<F: FloatOps>(
        &mut self,
        ops: &F,
        operands: &Vec<Expression>,
        from: usize,
        sc: usize,
        fuel: u64,
    ) -> (r: Result<Vec<ReamValue>, EvalError>)
        requires
            old(self).wf(),
            sc < old(self).scopes@.len(),
            from <= operands@.len(),
        ensures
            final(self).wf(),
            old(self).scopes@.len() <= final(self).scopes@.len(),
            r matches Result::Ok(vs) ==> vs@.len() == operands@.len() - from && forall|j: int|
                0 <= j < vs@.len() ==> rt_valid(#[trigger] rv_view(vs@[j]).t, final(self).scopes@.len() as int),
            operands_rel(
                spec_state(*old(self)),
                crate::ast::exprs_view(operands@).skip(from as int),
                sc as int,
                fuel,
                spec_state(*final(self)),
                spec_args_out(r),
            ),
        decreases fuel, 1int, operands@.len() - from,
    {
        let ghost es = crate::ast::exprs_view(operands@).skip(from as int);
        proof {
            crate::ast::lemma_exprs_view_elems(operands@);
        }
        if from >= operands.len() {
            let out: Vec<ReamValue> = Vec::new();
            proof {
                assert(es.len() == 0);
                assert(rvs_view(out@) =~= Seq::<ReamValueV>::empty());
            }
            return Result::Ok(out);
        }
        proof {
            assert(es[0] == crate::ast::exprs_view(operands@)[from as int]);
        }
        let ghost pre = spec_state(*self);
        let v = match self.eval_expr(ops, &operands[from], sc, fuel) {
            Result::Ok(v) => v,
            Result::Err(err) => {
                proof {
                    let fail = EvalOut::Fail(spec_ee_view(err));
                    assert(mid_point(spec_state(*self), fail));
                    assert(eval_rel(pre, es[0], sc as int, fuel, spec_state(*self), fail));
                    assert(operands_rel(
                        pre,
                        es,
                        sc as int,
                        fuel,
                        spec_state(*self),
                        ArgsOut::Fail(spec_ee_view(err)),
                    ));
                }
                return Result::Err(err);
            },
        };
        let ghost mid = spec_state(*self);
        let ghost vv = v@;
        proof {
            assert(mid_point(mid, EvalOut::Val(vv)));
            assert(eval_rel(pre, es[0], sc as int, fuel, mid, EvalOut::Val(vv)));
        }
        let mut rest = match self.eval_operands_from(ops, operands, from + 1, sc, fuel) {
            Result::Ok(vs) => vs,
            Result::Err(err) => {
                proof {
                    assert(es.drop_first() =~= crate::ast::exprs_view(operands@).skip(from + 1));
                    assert(operands_rel(
                        pre,
                        es,
                        sc as int,
                        fuel,
                        spec_state(*self),
                        ArgsOut::Fail(spec_ee_view(err)),
                    ));
                }
                return Result::Err(err);
            },
        };
        let ghost rest_seq = rest@;
        let ghost rest_v = rvs_view(rest@);
        proof {
            lemma_rvs_view_elems(rest_seq);
            lemma_rt_valid_mono(rv_view(v).t, mid.recs.len() as int, self.scopes@.len() as int);
        }
        let mut out: Vec<ReamValue> = Vec::new();
        out.push(v);
        out.append(&mut rest);
        proof {
            assert(out@ =~= seq![out@[0]] + rest_seq);
            lemma_rvs_view_elems(out@);
            assert(rvs_view(out@) =~= seq![vv] + rest_v);
            assert(es.drop_first() =~= crate::ast::exprs_view(operands@).skip(from + 1));
            assert(rvs_view(out@).drop_first() =~= rest_v);
            assert(rvs_view(out@)[0] == vv);
            assert(operands_rel(
                pre,
                es,
                sc as int,
                fuel,
                spec_state(*self),
                ArgsOut::Vals(rvs_view(out@)),
            ));
        }
        Result::Ok(out)
    }

    /// Resolve and apply an identifier in operator position: operands are
    /// evaluated first, left to right, in the caller's scope; then the
    /// fixed primitive table is consulted before any scope lookup, so a
    /// primitive can never be shadowed; a looked-up closure is called; any
    /// other value is no function.
    #[verifier::rlimit(100)]
    fn apply_operator<F: FloatOps>(
        &mut self,
        ops: &F,
        operator: &Identifier,
        operands: &Vec<Expression>,
        sc: usize,
        fuel: u64,
    ) -> (r: Result<ReamType, EvalError>)
        requires
            old(self).wf(),
            sc < old(self).scopes@.len(),
        ensures
            final(self).wf(),
            old(self).scopes@.len() <= final(self).scopes@.len(),
            r matches Result::Ok(t) ==> rt_valid(t@, final(self).scopes@.len() as int),
            call_rel(
                spec_state(*old(self)),
                operator@,
                crate::ast::exprs_view(operands@),
                sc as int,
                fuel,
                spec_state(*final(self)),
                spec_type_out(r),
            ),
        decreases fuel, 3int,
    {
        let ghost pre = spec_state(*self);
        let ghost es = crate::ast::exprs_view(operands@);
        proof {
            assert(es.skip(0) =~= es);
        }
        let args = match self.eval_operands_from(ops, operands, 0, sc, fuel) {
            Result::Ok(a) => a,
            Result::Err(err) => {
                proof {
                    let fail = ArgsOut::Fail(spec_ee_view(err));
                    assert(args_point(spec_state(*self), fail));
                    assert(operands_rel(pre, es, sc as int, fuel, spec_state(*self), fail));
                    assert(call_rel(
                        pre,
                        operator@,
                        es,
                        sc as int,
                        fuel,
                        spec_state(*self),
                        TypeOut::Fail(spec_ee_view(err)),
                    ));
                }
                return Result::Err(err);
            },
        };
        let ghost mid = spec_state(*self);
        let ghost avs = rvs_view(args@);
        proof {
            lemma_rvs_view_elems(args@);
            crate::value::lemma_rvs_valid_intro(avs, mid.recs.len() as int);
            assert(args_point(mid, ArgsOut::Vals(avs)));
            assert(operands_rel(pre, es, sc as int, fuel, mid, ArgsOut::Vals(avs)));
        }
        let res: Result<ReamType, EvalError> = match try_primitive(operator.id.as_str()) {
            Option::Some(p) => self.apply_primitive(ops, p, operator.span, operator.id.as_str(), args),
            Option::None => {
                match self.scopes.get(sc, operator.id.as_str()) {
                    Option::None => Result::Err(
                        EvalError::UnknownIdentifier {
                            loc: operator.span,
                            id: clone_string(&operator.id),
                        },
                    ),
                    Option::Some(v) => {
                        match v.t {
                            ReamType::Closure { formals, body, enclosed_scope } => {
                                self.apply_closure(
                                    ops,
                                    formals,
                                    body,
                                    enclosed_scope,
                                    operator.span,
                                    operator.id.as_str(),
                                    args,
                                    fuel,
                                )
                            },
                            ReamType::Primitive(p) => self.apply_primitive(
                                ops,
                                p,
                                operator.span,
                                operator.id.as_str(),
                                args,
                            ),
                            _ => Result::Err(
                                EvalError::NotAFunction {
                                    loc: operator.span,
                                    name: clone_string(&operator.id),
                                },
                            ),
                        }
                    },
                }
            },
        };
        proof {
            assert(apply_rel(
                mid,
                operator@,
                avs,
                sc as int,
                fuel,
                spec_state(*self),
                spec_type_out(res),
            ));
            assert(call_rel(
                pre,
                operator@,
                es,
                sc as int,
                fuel,
                spec_state(*self),
                spec_type_out(res),
            ));
        }
        res
    }

    /// Call a closure: exact arity is demanded, then the formals are bound
    /// positionally to the evaluated arguments in a fresh child of the
    /// captured scope, and the body runs in order; the result is the last
    /// value, or unit for an empty body.
    #[verifier::rlimit(100)]
    pub fn apply_closure<F: FloatOps>(
        &mut self,
        ops: &F,
        formals: Vec<Identifier>,
        body: Vec<Expression>,
        enclosed_scope: usize,
        op_span: Span,
        op_id: &str,
        args: Vec<ReamValue>,
        fuel: u64,
    ) -> (r: Result<ReamType, EvalError>)
        requires
            old(self).wf(),
            enclosed_scope < old(self).scopes@.len(),
            forall|j: int|
                0 <= j < args@.len() ==> rt_valid(#[trigger] rv_view(args@[j]).t, old(self).scopes@.len() as int),
        ensures
            final(self).wf(),
            old(self).scopes@.len() <= final(self).scopes@.len(),
            formals@.len() != args@.len() ==> *final(self) == *old(self) && spec_is_wrong_arg_count(
                r,
                op_span,
                op_id@,
                formals@.len() as int,
                args@.len() as int,
            ),
            r matches Result::Ok(t) ==> rt_valid(t@, final(self).scopes@.len() as int),
            closure_rel(
                spec_state(*old(self)),
                crate::ast::idents_view(formals@),
                crate::ast::exprs_view(body@),
                enclosed_scope as int,
                op_span,
                op_id@,
                rvs_view(args@),
                fuel,
                spec_state(*final(self)),
                spec_type_out(r),
            ),
        decreases fuel, 2int,
    {
        proof {
            lemma_rvs_view_elems(args@);
        }
        if formals.len() != args.len() {
            return Result::Err(
                EvalError::WrongArgumentCount {
                    loc: op_span,
                    callee: String::from_str(op_id),
                    expected: formals.len(),
                    found: args.len(),
                },
            );
        }
        let ghost pre = spec_state(*self);
        let ghost fvs = crate::ast::idents_view(formals@);
        let ghost avs = rvs_view(args@);
        let execution_scope = self.scopes.extend(enclosed_scope);
        let mut args = args;
        let mut i: usize = 0;
        let n = formals.len();
        proof {
            assert(fvs.skip(0) =~= fvs);
            assert(avs.skip(0) =~= avs);
        }
        while i < n
            invariant
                self.wf(),
                execution_scope < self.scopes@.len(),
                execution_scope == pre.recs.len(),
                n == formals@.len(),
                fvs == crate::ast::idents_view(formals@),
                fvs.len() == n,
                avs.len() == n,
                i <= n,
                args@.len() == n - i,
                rvs_view(args@) == avs.skip(i as int),
                rvs_view(self.out@) == pre.out,
                old(self).scopes@.len() + 1 == self.scopes@.len(),
                spec_bind(
                    crate::scope::spec_extend(pre.recs, enclosed_scope as int),
                    pre.recs.len() as int,
                    fvs,
                    avs,
                ) == spec_bind(
                    self.scopes@,
                    pre.recs.len() as int,
                    fvs.skip(i as int),
                    avs.skip(i as int),
                ),
                forall|j: int|
                    0 <= j < args@.len() ==> rt_valid(#[trigger] rv_view(args@[j]).t, old(self).scopes@.len() as int),
            decreases n - i,
        {
            let ghost pre_args = args@;
            let arg = args.remove(0);
            let ghost argv = rv_view(arg);
            proof {
                lemma_rt_valid_mono(
                    rv_view(arg).t,
                    old(self).scopes@.len() as int,
                    self.scopes@.len() as int,
                );
                lemma_rvs_view_elems(pre_args);
                lemma_rvs_view_elems(args@);
                assert(avs.skip(i as int)[0] == avs[i as int]);
                assert(argv == avs[i as int]);
                assert(args@ =~= pre_args.skip(1));
                assert forall|j: int|
                    0 <= j < rvs_view(args@).len() implies rvs_view(args@)[j] == avs.skip(
                    i + 1,
                )[j] by {
                    assert(rvs_view(args@)[j] == rv_view(args@[j]));
                    assert(args@[j] == pre_args[j + 1]);
                    assert(rvs_view(pre_args)[j + 1] == rv_view(pre_args[j + 1]));
                    assert(rvs_view(pre_args)[j + 1] == avs.skip(i as int)[j + 1]);
                }
                assert(rvs_view(args@) =~= avs.skip(i + 1));
            }
            let ghost recs_before = self.scopes@;
            self.scopes.set(execution_scope, clone_string(&formals[i].id), arg);
            proof {
                assert(fvs.skip(i as int)[0] == fvs[i as int]);
                assert(fvs.skip(i as int).drop_first() =~= fvs.skip(i + 1));
                assert(avs.skip(i as int).drop_first() =~= avs.skip(i + 1));
                assert(self.scopes@ == crate::scope::spec_set(
                    recs_before,
                    pre.recs.len() as int,
                    fvs[i as int].id,
                    avs[i as int],
                ));
                assert(spec_bind(recs_before, pre.recs.len() as int, fvs.skip(i as int), avs.skip(
                    i as int,
                )) == spec_bind(
                    self.scopes@,
                    pre.recs.len() as int,
                    fvs.skip(i + 1),
                    avs.skip(i + 1),
                ));
            }
            i = i + 1;
        }
        proof {
            assert(fvs.skip(n as int).len() == 0);
            assert(spec_bind(
                crate::scope::spec_extend(pre.recs, enclosed_scope as int),
                pre.recs.len() as int,
                fvs,
                avs,
            ) == self.scopes@);
        }
        let res = self.eval_body_from(ops, &body, 0, execution_scope, fuel);
        proof {
            assert(crate::ast::exprs_view(body@).skip(0) =~= crate::ast::exprs_view(body@));
        }
        res
    }
}

/// Evaluate a literal: scalars directly, quoted data into its unevaluated
/// shape without resolving embedded identifiers. Total, never an error.
pub fn eval_literal<F: FloatOps>(ops: &F, l: &Literal) -> (r: ReamValue)
    ensures
        lit_value_rel(l@, r@),
        rt_valid(r@.t, 0),
{
    match l {
        Literal::Quotation { span, q } => {
            let dv = eval_datum(ops, q);
            ReamValue { span: *span, t: dv.t }
        },
        Literal::Boolean { span, b } => ReamValue { span: *span, t: ReamType::Boolean(*b) },
        Literal::Integer { span, i } => ReamValue { span: *span, t: ReamType::Integer(*i) },
        Literal::Float { span, text } => ReamValue {
            span: *span,
            t: ReamType::Float(ops.float_from_text(text.as_str())),
        },
        Literal::Character { span, c } => ReamValue { span: *span, t: ReamType::Character(*c) },
        Literal::String { span, s } => ReamValue {
            span: *span,
            t: ReamType::String(clone_string(s)),
        },
        Literal::Atom { span, a } => ReamValue { span: *span, t: ReamType::Atom(clone_string(a)) },
    }
}

impl Program {
    /// Run the program: evaluate every top-level expression left to right
    /// against one freshly created global scope, failing fast on the first
    /// error, within `fuel` nested steps per expression.
    ///
    /// Returns the values reported by `print`, in order; rendering them is
    /// the host's concern, as is the choice of `fuel`, the external bound
    /// on recursion.
    pub fn run<F: FloatOps>(&self, ops: &F, fuel: u64) -> (r: Result<Vec<ReamValue>, EvalError>)
        ensures
            program_rel(
                self@,
                EState {
                    recs: seq![
                        crate::scope::ScopeV { parent: Option::None, symbols: Seq::empty() },
                    ],
                    out: Seq::empty(),
                },
                fuel,
                match r {
                    Result::Ok(out) => ProgOut::Printed(rvs_view(out@)),
                    Result::Err(e) => ProgOut::Stopped(spec_ee_view(e)),
                },
            ),
    {
        let mut interp = Interpreter::new();
        proof {
            crate::ast::lemma_exprs_view_elems(self.0@);
            assert(interp.scopes@[0] == (crate::scope::ScopeV {
                parent: Option::None,
                symbols: Seq::empty(),
            }));
            assert(interp.scopes@ =~= seq![
                crate::scope::ScopeV { parent: Option::None, symbols: Seq::empty() },
            ]);
            assert(rvs_view(interp.out@) =~= Seq::<ReamValueV>::empty());
            assert(crate::ast::exprs_view(self.0@).skip(0) =~= self@);
        }
        match interp.run_from(ops, &self.0, 0, fuel) {
            Result::Ok(()) => Result::Ok(interp.out),
            Result::Err(err) => Result::Err(err),
        }
    }
}

impl Interpreter {
    /// Evaluate the top-level expressions from index `from` on, left to
    /// right against scope `0`, failing fast on the first error.
    #[verifier::rlimit(100)]
    fn run_from<F: FloatOps>(
        &mut self,
        ops: &F,
        exprs: &Vec<Expression>,
        from: usize,
        fuel: u64,
    ) -> (r: Result<(), EvalError>)
        requires
            old(self).wf(),
            old(self).scopes@.len() >= 1,
            from <= exprs@.len(),
        ensures
            final(self).wf(),
            final(self).scopes@.len() >= 1,
            from >= exprs@.len() ==> (r matches Result::Ok(u) && *final(self) == *old(self)),
            program_rel(
                crate::ast::exprs_view(exprs@).skip(from as int),
                spec_state(*old(self)),
                fuel,
                match r {
                    Result::Ok(_) => ProgOut::Printed(rvs_view(final(self).out@)),
                    Result::Err(e) => ProgOut::Stopped(spec_ee_view(e)),
                },
            ),
        decreases exprs@.len() - from,
    {
        let ghost es = crate::ast::exprs_view(exprs@).skip(from as int);
        proof {
            crate::ast::lemma_exprs_view_elems(exprs@);
        }
        if from >= exprs.len() {
            proof {
                assert(es.len() == 0);
            }
            return Result::Ok(());
        }
        proof {
            assert(es[0] == crate::ast::exprs_view(exprs@)[from as int]);
        }
        let ghost pre = spec_state(*self);
        match self.eval_expr(ops, &exprs[from], 0, fuel) {
            Result::Ok(v) => {
                let ghost mid = spec_state(*self);
                let ghost vv = v@;
                proof {
                    assert(mid_point(mid, EvalOut::Val(vv)));
                    assert(eval_rel(pre, es[0], 0, fuel, mid, EvalOut::Val(vv)));
                    assert(es.drop_first() =~= crate::ast::exprs_view(exprs@).skip(from + 1));
                }
                self.run_from(ops, exprs, from + 1, fuel)
            },
            Result::Err(err) => {
                proof {
                    let fail = EvalOut::Fail(spec_ee_view(err));
                    assert(mid_point(spec_state(*self), fail));
                    assert(eval_rel(pre, es[0], 0, fuel, spec_state(*self), fail));
                    assert(program_rel(
                        es,
                        pre,
                        fuel,
                        ProgOut::Stopped(spec_ee_view(err)),
                    ));
                }
                Result::Err(err)
            },
        }
    }
}

} // verus!
