//! Tests for the evaluator: scoping, closures, primitives, truthiness.

use ream::ast::Program;
use ream::error::{Error, EvalError};
use ream::eval::Interpreter;
use ream::float::FloatOps;
use ream::lex::Lexer;
use ream::parse::Parser;
use ream::scope::Scopes;
use ream::span::Span;
use ream::value::{ReamType, ReamValue};

/// Host floating-point arithmetic over bit patterns.
struct HostFloat;

impl FloatOps for HostFloat {
    fn float_from_text(&self, text: &str) -> u64 {
        text.parse::<f64>().unwrap_or(f64::NAN).to_bits()
    }

    fn float_add(&self, a: u64, b: u64) -> u64 {
        (f64::from_bits(a) + f64::from_bits(b)).to_bits()
    }

    fn float_sub(&self, a: u64, b: u64) -> u64 {
        (f64::from_bits(a) - f64::from_bits(b)).to_bits()
    }

    fn float_mul(&self, a: u64, b: u64) -> u64 {
        (f64::from_bits(a) * f64::from_bits(b)).to_bits()
    }

    fn float_div(&self, a: u64, b: u64) -> u64 {
        (f64::from_bits(a) / f64::from_bits(b)).to_bits()
    }
}

const FUEL: u64 = 1_000_000;

fn run_source(source: &str) -> Result<Vec<ReamValue>, EvalError> {
    let mut parser = Parser::new(Lexer::new(source));
    let program: Program = parser.parse().map_err(|e: Error| panic!("parse failed: {e:?}")).unwrap();
    program.run(&HostFloat, FUEL)
}

fn printed(source: &str) -> Vec<ReamType> {
    run_source(source).unwrap().into_iter().map(|v| v.t).collect()
}

#[test]
fn closure_isolation_copy_on_close() {
    // `f` captures its defining scope by snapshot; defining `x` afterwards
    // in the same scope does not leak into the closure.
    let out = printed("(let f (lambda (x) x)) (let x 99) (print (f 5))");
    assert_eq!(out.len(), 1);
    assert!(matches!(out[0], ReamType::Integer(5)));

    let out = printed("(let y 1) (let f (lambda (x) y)) (let y 2) (print (f 0))");
    assert!(matches!(out[0], ReamType::Integer(1)));
}

#[test]
fn sequence_siblings_share_their_frame() {
    // Two sibling forms in one `seq` frame see each other's earlier
    // definitions.
    let out = printed("(seq (let a 41) (print a))");
    assert!(matches!(out[0], ReamType::Integer(41)));
}

#[test]
fn scope_operations_isolate_and_share() {
    let mk = |i: u64| ReamValue { span: Span { offset: 0, len: 0 }, t: ReamType::Integer(i) };
    let mut scopes = Scopes::new();
    scopes.set(0, "x".to_string(), mk(1));
    let snapshot = scopes.close(0);
    scopes.set(0, "x".to_string(), mk(2));
    // The snapshot still answers the old binding.
    match scopes.get(snapshot, "x") {
        Some(v) => assert!(matches!(v.t, ReamType::Integer(1))),
        None => panic!("expected a binding"),
    }
    // An extended child sees the parent's later mutation.
    let child = scopes.extend(0);
    scopes.set(0, "y".to_string(), mk(3));
    match scopes.get(child, "y") {
        Some(v) => assert!(matches!(v.t, ReamType::Integer(3))),
        None => panic!("expected a binding"),
    }
}

#[test]
fn arithmetic_never_coerces() {
    match run_source("(+ 1 2.0)") {
        Err(EvalError::WrongType { loc, expected, found }) => {
            assert_eq!(expected, "Integer");
            assert_eq!(found, "Float");
            // The offending operand's span: `2.0` sits at offset 5.
            assert_eq!(loc, Span { offset: 5, len: 3 });
        }
        other => panic!("expected WrongType, got {other:?}"),
    }
    match run_source("(+ 2.0 1)") {
        Err(EvalError::WrongType { expected, found, .. }) => {
            assert_eq!(expected, "Float");
            assert_eq!(found, "Integer");
        }
        other => panic!("expected WrongType, got {other:?}"),
    }
    match run_source("(+ #t 1)") {
        Err(EvalError::WrongType { expected, found, .. }) => {
            assert_eq!(expected, "Integer or Float");
            assert_eq!(found, "Boolean");
        }
        other => panic!("expected WrongType, got {other:?}"),
    }
}

#[test]
fn integer_arithmetic_is_exact() {
    assert!(matches!(printed("(print (+ 40 2))")[0], ReamType::Integer(42)));
    assert!(matches!(printed("(print (- 44 2))")[0], ReamType::Integer(42)));
    assert!(matches!(printed("(print (* 6 7))")[0], ReamType::Integer(42)));
    assert!(matches!(printed("(print (/ 85 2))")[0], ReamType::Integer(42)));
}

#[test]
fn integer_overflow_and_zero_divisor_are_reported() {
    match run_source("(- 1 2)") {
        Err(EvalError::Overflow { .. }) => {}
        other => panic!("expected Overflow, got {other:?}"),
    }
    match run_source("(+ 18446744073709551615 1)") {
        Err(EvalError::Overflow { .. }) => {}
        other => panic!("expected Overflow, got {other:?}"),
    }
    match run_source("(/ 1 0)") {
        Err(EvalError::DivisionByZero { loc }) => {
            assert_eq!(loc, Span { offset: 5, len: 1 });
        }
        other => panic!("expected DivisionByZero, got {other:?}"),
    }
}

#[test]
fn float_arithmetic_goes_through_the_host() {
    match &printed("(print (+ 1.5 2.25))")[0] {
        ReamType::Float(bits) => assert_eq!(f64::from_bits(*bits), 3.75),
        other => panic!("expected a float, got {other:?}"),
    }
    match &printed("(print (/ 1.0 0.0))")[0] {
        ReamType::Float(bits) => assert!(f64::from_bits(*bits).is_infinite()),
        other => panic!("expected a float, got {other:?}"),
    }
}

#[test]
fn arity_is_exact_for_closures() {
    match run_source("(let f (lambda (a b) a)) (f 1)") {
        Err(EvalError::WrongArgumentCount { callee, expected, found, .. }) => {
            assert_eq!(callee, "f");
            assert_eq!(expected, 2);
            assert_eq!(found, 1);
        }
        other => panic!("expected WrongArgumentCount, got {other:?}"),
    }
    match run_source("(let f (lambda (a b) a)) (f 1 2 3)") {
        Err(EvalError::WrongArgumentCount { expected, found, .. }) => {
            assert_eq!(expected, 2);
            assert_eq!(found, 3);
        }
        other => panic!("expected WrongArgumentCount, got {other:?}"),
    }
}

#[test]
fn arity_is_exact_for_primitives() {
    match run_source("(+ 1)") {
        Err(EvalError::WrongArgumentCount { callee, expected, found, .. }) => {
            assert_eq!(callee, "+");
            assert_eq!(expected, 2);
            assert_eq!(found, 1);
        }
        other => panic!("expected WrongArgumentCount, got {other:?}"),
    }
}

#[test]
fn conditional_truthiness() {
    assert!(matches!(printed("(print (if 0 1 2))")[0], ReamType::Integer(2)));
    assert!(matches!(printed("(print (if \"\" 1 2))")[0], ReamType::Integer(2)));
    assert!(matches!(printed("(print (if \"a\" 1 2))")[0], ReamType::Integer(1)));
    assert!(matches!(printed("(print (if #f 1 2))")[0], ReamType::Integer(2)));
    assert!(matches!(printed("(print (if 0.0 1 2))")[0], ReamType::Integer(2)));
    assert!(matches!(printed("(print (if 0.5 1 2))")[0], ReamType::Integer(1)));
    // A missing alternate with a false test gives unit.
    assert!(matches!(printed("(print (if #f 1))")[0], ReamType::Unit));
}

#[test]
fn comparisons_are_exact() {
    assert!(matches!(printed("(print (== 3 3))")[0], ReamType::Boolean(true)));
    assert!(matches!(printed("(print (!= 3 3))")[0], ReamType::Boolean(false)));
    assert!(matches!(printed("(print (< 2 3))")[0], ReamType::Boolean(true)));
    assert!(matches!(printed("(print (> 2 3))")[0], ReamType::Boolean(false)));
    assert!(matches!(printed("(print (<= 3 3))")[0], ReamType::Boolean(true)));
    assert!(matches!(printed("(print (>= 2 3))")[0], ReamType::Boolean(false)));
    assert!(matches!(printed("(print (< \"abc\" \"abd\"))")[0], ReamType::Boolean(true)));
    assert!(matches!(printed("(print (== \"x\" \"x\"))")[0], ReamType::Boolean(true)));
    assert!(matches!(printed("(print (< 1.5 2.5))")[0], ReamType::Boolean(true)));
    assert!(matches!(printed("(print (== 'a' 'a'))")[0], ReamType::Boolean(true)));
    match run_source("(== 1 \"x\")") {
        Err(EvalError::WrongType { expected, found, .. }) => {
            assert_eq!(expected, "Integer");
            assert_eq!(found, "String");
        }
        other => panic!("expected WrongType, got {other:?}"),
    }
}

#[test]
fn primitives_are_never_shadowed() {
    // A definition of `+` does not change what `+` means in operator
    // position: the fixed table is consulted first.
    let out = printed("(let + 9) (print (+ 1 2))");
    assert!(matches!(out[0], ReamType::Integer(3)));
}

#[test]
fn unknown_identifier_and_not_a_function() {
    match run_source("nope") {
        Err(EvalError::UnknownIdentifier { id, .. }) => assert_eq!(id, "nope"),
        other => panic!("expected UnknownIdentifier, got {other:?}"),
    }
    match run_source("(let x 1) (x 2)") {
        Err(EvalError::NotAFunction { name, .. }) => assert_eq!(name, "x"),
        other => panic!("expected NotAFunction, got {other:?}"),
    }
    match run_source("(nope 1)") {
        Err(EvalError::UnknownIdentifier { id, .. }) => assert_eq!(id, "nope"),
        other => panic!("expected UnknownIdentifier, got {other:?}"),
    }
}

#[test]
fn quotation_evaluates_to_data() {
    let out = printed("(print `(a 1 #t))");
    match &out[0] {
        ReamType::List(items) => {
            assert_eq!(items.len(), 3);
            assert!(matches!(&items[0].t, ReamType::Identifier(id) if id == "a"));
            assert!(matches!(items[1].t, ReamType::Integer(1)));
            assert!(matches!(items[2].t, ReamType::Boolean(true)));
        }
        other => panic!("expected a list value, got {other:?}"),
    }
}

#[test]
fn parse_time_constructs_are_unsupported_at_run_time() {
    match run_source("(:doc item \"docs\")") {
        Err(EvalError::Unsupported { kind, .. }) => assert_eq!(kind, "Annotation"),
        other => panic!("expected Unsupported, got {other:?}"),
    }
    match run_source("(include \"other.rm\")") {
        Err(EvalError::Unsupported { kind, .. }) => assert_eq!(kind, "Inclusion"),
        other => panic!("expected Unsupported, got {other:?}"),
    }
}

#[test]
fn fuel_exhaustion_is_an_explicit_error() {
    let mut parser = Parser::new(Lexer::new("(+ 1 2)"));
    let program = parser.parse().unwrap();
    match program.run(&HostFloat, 0) {
        Err(EvalError::RecursionLimit { .. }) => {}
        other => panic!("expected RecursionLimit, got {other:?}"),
    }
}

#[test]
fn print_reports_values_in_order() {
    let out = printed("(print 1) (print 2) (print 3)");
    assert_eq!(out.len(), 3);
    assert!(matches!(out[0], ReamType::Integer(1)));
    assert!(matches!(out[1], ReamType::Integer(2)));
    assert!(matches!(out[2], ReamType::Integer(3)));
}

#[test]
fn sequence_result_is_its_last_value() {
    let out = printed("(print (seq 1 2 3))");
    assert!(matches!(out[0], ReamType::Integer(3)));
}

#[test]
fn closures_can_nest_and_capture_arguments() {
    let out = printed("(let make (lambda (n) (lambda (m) (+ n m)))) (let add2 (make 2)) (print (add2 40))");
    assert!(matches!(out[0], ReamType::Integer(42)));
}

#[test]
fn interpreter_starts_empty() {
    let interp = Interpreter::new();
    assert_eq!(interp.out.len(), 0);
    assert_eq!(interp.scopes.records.len(), 1);
}

#[test]
fn primitive_names_are_values_too() {
    // The fixed table backs the global scope: a primitive's bare name
    // evaluates to a primitive value, and a rebound name applies it.
    let out = printed("(let f +) (print (f 40 2))");
    assert!(matches!(out[0], ReamType::Integer(42)));
    let out = printed("(print <=)");
    assert!(matches!(out[0], ReamType::Primitive(_)));
}
