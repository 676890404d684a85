//! Tests for the bytecode chunk and the virtual machine.

use ream::bytecode::{Chunk, OpCode, Value};
use ream::error::RuntimeError;
use ream::float::FloatOps;
use ream::span::Span;
use ream::vm::ReamVirtualMachine;

/// Host floating-point arithmetic over bit patterns.
struct HostFloat;

impl FloatOps for HostFloat {
    fn float_from_text(&self, text: &str) -> u64 {
        text.parse::<f64>().unwrap_or(f64::NAN).to_bits()
    }

    fn float_add(&self, a: u64, b: u64) -> u64 {
        (f64::from_bits(a) + f64::from_bits(b)).to_bits()
    }

    fn float_sub(&self, a: u64, b: u64) -> u64 {
        (f64::from_bits(a) - f64::from_bits(b)).to_bits()
    }

    fn float_mul(&self, a: u64, b: u64) -> u64 {
        (f64::from_bits(a) * f64::from_bits(b)).to_bits()
    }

    fn float_div(&self, a: u64, b: u64) -> u64 {
        (f64::from_bits(a) / f64::from_bits(b)).to_bits()
    }
}

fn chunk_of(instructions: &[OpCode]) -> Chunk {
    let mut chunk = Chunk::new("main".to_string(), String::new());
    let mut offset = 0;
    for inst in instructions {
        chunk.push_instruction(*inst, Span { offset, len: 1 });
        offset += 1;
    }
    chunk
}

fn run_insts(instructions: &[OpCode]) -> Result<Option<Value>, RuntimeError> {
    let mut vm = ReamVirtualMachine::new(chunk_of(instructions));
    vm.run(&HostFloat)
}

#[test]
fn test_vm() {
    let source = "foo\nfoo\nfoo\nfoo\nfoo\n";
    let mut chunk = Chunk::new("main".into(), source.into());

    chunk.push_instruction(OpCode::LoadImmediate { imm: 42 }, Span { offset: 0, len: 3 });
    chunk.push_instruction(OpCode::LoadImmediate { imm: 69 }, Span { offset: 4, len: 3 });
    chunk.push_instruction(OpCode::Add, Span { offset: 8, len: 3 });
    chunk.push_instruction(OpCode::Return, Span { offset: 12, len: 3 });

    let mut vm = ReamVirtualMachine::new(chunk);

    assert!(vm.run(&HostFloat).is_ok())
}

#[test]
fn addition_reports_its_sum() {
    let r = run_insts(&[
        OpCode::LoadImmediate { imm: 42 },
        OpCode::LoadImmediate { imm: 69 },
        OpCode::Add,
        OpCode::Return,
    ]);
    match r {
        Ok(Some(Value::Integer(111))) => {}
        other => panic!("expected 111 reported, got {other:?}"),
    }
}

#[test]
fn negation_reports_its_result() {
    let r = run_insts(&[OpCode::LoadImmediate { imm: 1 }, OpCode::Negate, OpCode::Return]);
    match r {
        Ok(Some(Value::Integer(-1))) => {}
        other => panic!("expected -1 reported, got {other:?}"),
    }
}

#[test]
fn subtraction_takes_the_top_as_left_operand() {
    // Push 1 then 2; `Sub` pops 2 first, so it computes 2 - 1.
    let r = run_insts(&[
        OpCode::LoadImmediate { imm: 1 },
        OpCode::LoadImmediate { imm: 2 },
        OpCode::Sub,
        OpCode::Return,
    ]);
    match r {
        Ok(Some(Value::Integer(1))) => {}
        other => panic!("expected 1 reported, got {other:?}"),
    }
}

#[test]
fn division_truncates_and_checks_zero() {
    let r = run_insts(&[
        OpCode::LoadImmediate { imm: 2 },
        OpCode::LoadImmediate { imm: 7 },
        OpCode::Div,
        OpCode::Return,
    ]);
    assert!(matches!(r, Ok(Some(Value::Integer(3)))));

    let r = run_insts(&[
        OpCode::LoadImmediate { imm: 0 },
        OpCode::LoadImmediate { imm: 7 },
        OpCode::Div,
        OpCode::Return,
    ]);
    match r {
        Err(RuntimeError::DivisionByZero { loc }) => assert_eq!(loc, Span { offset: 2, len: 1 }),
        other => panic!("expected DivisionByZero, got {other:?}"),
    }
}

#[test]
fn integer_overflow_is_reported() {
    let r = run_insts(&[
        OpCode::LoadImmediate { imm: 1 },
        OpCode::LoadImmediate { imm: i64::MAX },
        OpCode::Add,
        OpCode::Return,
    ]);
    assert!(matches!(r, Err(RuntimeError::Overflow { .. })));

    let r = run_insts(&[OpCode::LoadImmediate { imm: i64::MIN }, OpCode::Negate, OpCode::Return]);
    assert!(matches!(r, Err(RuntimeError::Overflow { .. })));
}

#[test]
fn constants_load_by_index() {
    let mut chunk = Chunk::new("consts".to_string(), String::new());
    let idx0 = chunk.push_constant(Value::String("hello".to_string()));
    let idx1 = chunk.push_constant(Value::Integer(7));
    assert_eq!(idx0, 0);
    assert_eq!(idx1, 1);
    chunk.push_instruction(OpCode::LoadConstant { idx: 1 }, Span { offset: 0, len: 1 });
    chunk.push_instruction(OpCode::Return, Span { offset: 1, len: 1 });
    let mut vm = ReamVirtualMachine::new(chunk);
    match vm.run(&HostFloat) {
        Ok(Some(Value::Integer(7))) => {}
        other => panic!("expected the constant reported, got {other:?}"),
    }
}

#[test]
fn wrong_operand_types_are_reported() {
    let mut chunk = Chunk::new("types".to_string(), String::new());
    let idx = chunk.push_constant(Value::Boolean(true));
    chunk.push_instruction(OpCode::LoadConstant { idx }, Span { offset: 0, len: 1 });
    chunk.push_instruction(OpCode::LoadImmediate { imm: 1 }, Span { offset: 1, len: 1 });
    chunk.push_instruction(OpCode::Add, Span { offset: 2, len: 1 });
    let mut vm = ReamVirtualMachine::new(chunk);
    match vm.run(&HostFloat) {
        Err(RuntimeError::WrongType { loc, found }) => {
            assert_eq!(found, "Boolean");
            assert_eq!(loc, Span { offset: 2, len: 1 });
        }
        other => panic!("expected WrongType, got {other:?}"),
    }

    let mut chunk = Chunk::new("types".to_string(), String::new());
    let idx = chunk.push_constant(Value::Character('x'));
    chunk.push_instruction(OpCode::LoadConstant { idx }, Span { offset: 0, len: 1 });
    chunk.push_instruction(OpCode::Negate, Span { offset: 1, len: 1 });
    let mut vm = ReamVirtualMachine::new(chunk);
    match vm.run(&HostFloat) {
        Err(RuntimeError::WrongType { found, .. }) => assert_eq!(found, "Character"),
        other => panic!("expected WrongType, got {other:?}"),
    }
}

#[test]
fn float_arithmetic_and_negation() {
    let mut chunk = Chunk::new("floats".to_string(), String::new());
    let a = chunk.push_constant(Value::Float(1.5f64.to_bits()));
    let b = chunk.push_constant(Value::Float(2.25f64.to_bits()));
    chunk.push_instruction(OpCode::LoadConstant { idx: a }, Span { offset: 0, len: 1 });
    chunk.push_instruction(OpCode::LoadConstant { idx: b }, Span { offset: 1, len: 1 });
    chunk.push_instruction(OpCode::Add, Span { offset: 2, len: 1 });
    chunk.push_instruction(OpCode::Negate, Span { offset: 3, len: 1 });
    chunk.push_instruction(OpCode::Return, Span { offset: 4, len: 1 });
    let mut vm = ReamVirtualMachine::new(chunk);
    match vm.run(&HostFloat) {
        Ok(Some(Value::Float(bits))) => assert_eq!(f64::from_bits(bits), -3.75),
        other => panic!("expected a float reported, got {other:?}"),
    }
}

#[test]
fn empty_stack_is_underflow() {
    let r = run_insts(&[OpCode::Return]);
    assert!(matches!(r, Err(RuntimeError::StackUnderflow { .. })));
    let r = run_insts(&[OpCode::LoadImmediate { imm: 1 }, OpCode::Add]);
    assert!(matches!(r, Err(RuntimeError::StackUnderflow { .. })));
}

#[test]
fn stack_capacity_is_bounded() {
    let mut insts = Vec::new();
    for _ in 0..1025 {
        insts.push(OpCode::LoadImmediate { imm: 0 });
    }
    let r = run_insts(&insts);
    assert!(matches!(r, Err(RuntimeError::StackOverflow { .. })));
}

#[test]
fn running_off_the_end_reports_nothing() {
    let r = run_insts(&[OpCode::LoadImmediate { imm: 5 }]);
    assert!(matches!(r, Ok(None)));
}

#[test]
fn execute_chunk_resets_the_instruction_pointer() {
    let mut vm = ReamVirtualMachine::new(chunk_of(&[OpCode::LoadImmediate { imm: 1 }]));
    assert!(vm.run(&HostFloat).is_ok());
    let second = chunk_of(&[OpCode::LoadImmediate { imm: 2 }, OpCode::Add, OpCode::Return]);
    // The stack persists across chunks: 1 is still on it.
    match vm.execute_chunk(second, &HostFloat) {
        Ok(Some(Value::Integer(3))) => {}
        other => panic!("expected 3 reported, got {other:?}"),
    }
}

#[test]
fn chunk_appends_are_ordered() {
    let mut chunk = Chunk::new("appends".to_string(), "src".to_string());
    chunk.push_instruction(OpCode::Return, Span { offset: 0, len: 1 });
    chunk.push_instruction(OpCode::Add, Span { offset: 1, len: 1 });
    assert_eq!(chunk.instructions.len(), 2);
    assert_eq!(chunk.spans.len(), 2);
    assert!(matches!(chunk.instructions[0], OpCode::Return));
    assert!(matches!(chunk.instructions[1], OpCode::Add));
    assert_eq!(chunk.name, "appends");
    assert_eq!(chunk.source, "src");
}
