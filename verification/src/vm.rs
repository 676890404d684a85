//! The virtual machine: a stack machine that executes one chunk of
//! bytecode until its instructions run out, a `Return` reports a value, or
//! the first runtime error.
//!
//! The whole execution is specified by [`spec_run`], a step-by-step
//! relation over instruction pointer and stack. A binary operation pops
//! its left operand first: with `a` on top of the stack and `b` under it,
//! `Sub` pushes `a - b`.

use vstd::prelude::*;

use crate::bytecode::{spec_value_type_label, Chunk, ChunkV, OpCode, Value, ValueV};
use crate::error::RuntimeError;
use crate::float::{float_negate, FloatOps};
use crate::span::Span;

verus! {

/// The capacity of the value stack.
pub const STACK_SIZE: usize = 1024;

/// The ways a run can fail, as mathematical shapes.
pub enum VmFailure {
    /// An operand whose type the instruction does not accept.
    WrongType {
        /// The display name of the type that was found.
        found: Seq<char>,
    },
    /// An integer division with a zero divisor.
    DivisionByZero,
    /// Integer arithmetic whose result does not fit its type.
    Overflow,
    /// A push onto a full value stack.
    StackOverflow,
    /// A pop from an empty value stack.
    StackUnderflow,
}

/// How a run can end: running off the end of the instructions, a value
/// reported by `Return`, or a failure at a located instruction.
pub enum RunOut {
    /// The instruction pointer reached the instruction count.
    Done,
    /// A `Return` reported this value.
    Reported(ValueV),
    /// Execution failed, at the instruction with this span.
    Failed(VmFailure, Span),
}

/// The outcome of an integer binary operation.
pub enum IntBinOut {
    /// The operation's value.
    Val(i64),
    /// The result does not fit an `i64`.
    Overflowed,
    /// A division by zero.
    DividedByZero,
}

/// The exact outcome of an integer binary operation: checked arithmetic,
/// with a zero divisor singled out.
pub open spec fn spec_int_binop(op: OpCode, x: i64, y: i64) -> IntBinOut {
    if op == OpCode::Div && y == 0 {
        IntBinOut::DividedByZero
    } else {
        let r = if op == OpCode::Add {
            x.checked_add(y)
        } else if op == OpCode::Sub {
            x.checked_sub(y)
        } else if op == OpCode::Mul {
            x.checked_mul(y)
        } else {
            x.checked_div(y)
        };
        match r {
            Option::Some(v) => IntBinOut::Val(v),
            Option::None => IntBinOut::Overflowed,
        }
    }
}

/// The type name a failing binary operation reports: the operand that
/// broke the expectation set by the other, or the left operand where
/// neither is numeric.
pub open spec fn spec_binop_found(a: ValueV, b: ValueV) -> Seq<char> {
    if a is Integer && !(b is Integer) {
        spec_value_type_label(b)
    } else if b is Integer {
        spec_value_type_label(a)
    } else if a is Float && !(b is Float) {
        spec_value_type_label(b)
    } else if b is Float {
        spec_value_type_label(a)
    } else {
        spec_value_type_label(a)
    }
}

/// Every `LoadConstant` instruction points inside the constant table.
pub open spec fn chunk_loads_ok(c: ChunkV) -> bool {
    forall|i: int|
        0 <= i < c.instructions.len() ==> match #[trigger] c.instructions[i] {
            OpCode::LoadConstant { idx } => idx < c.constants.len(),
            _ => true,
        }
}

/// The shapes of a stack of values.
pub open spec fn stack_view(s: Seq<Value>) -> Seq<ValueV> {
    s.map_values(|v: Value| v@)
}

/// What running the machine from instruction `ip` with the given stack can
/// end as.
///
/// A binary operation pops its left operand first: the top of the stack is
/// the left operand, the value under it the right. The result of a
/// float-float operation is some float; which bits, the host's arithmetic
/// decides.
pub open spec fn spec_run(c: ChunkV, ip: int, stack: Seq<ValueV>, out: RunOut) -> bool
    decreases c.instructions.len() - ip when 0 <= ip <= c.instructions.len() && c.instructions.len()
        == c.spans.len()
{
    if ip >= c.instructions.len() {
        out == RunOut::Done
    } else {
        let inst = c.instructions[ip];
        let loc = c.spans[ip];
        match inst {
            OpCode::Return => {
                if stack.len() == 0 {
                    out == RunOut::Failed(VmFailure::StackUnderflow, loc)
                } else {
                    out == RunOut::Reported(stack.last())
                }
            },
            OpCode::LoadImmediate { imm } => {
                if stack.len() >= STACK_SIZE {
                    out == RunOut::Failed(VmFailure::StackOverflow, loc)
                } else {
                    spec_run(c, ip + 1, stack.push(ValueV::Integer(imm)), out)
                }
            },
            OpCode::LoadConstant { idx } => {
                if idx >= c.constants.len() {
                    true
                } else if stack.len() >= STACK_SIZE {
                    out == RunOut::Failed(VmFailure::StackOverflow, loc)
                } else {
                    spec_run(c, ip + 1, stack.push(c.constants[idx as int]), out)
                }
            },
            OpCode::Negate => {
                if stack.len() == 0 {
                    out == RunOut::Failed(VmFailure::StackUnderflow, loc)
                } else {
                    match stack.last() {
                        ValueV::Integer(i) => {
                            if i == i64::MIN {
                                out == RunOut::Failed(VmFailure::Overflow, loc)
                            } else {
                                spec_run(
                                    c,
                                    ip + 1,
                                    stack.drop_last().push(ValueV::Integer((-(i as int)) as i64)),
                                    out,
                                )
                            }
                        },
                        ValueV::Float(b) => spec_run(
                            c,
                            ip + 1,
                            stack.drop_last().push(ValueV::Float(b ^ 0x8000_0000_0000_0000u64)),
                            out,
                        ),
                        v => out == RunOut::Failed(
                            VmFailure::WrongType { found: spec_value_type_label(v) },
                            loc,
                        ),
                    }
                }
            },
            _ => {
                if stack.len() < 2 {
                    out == RunOut::Failed(VmFailure::StackUnderflow, loc)
                } else {
                    let a = stack.last();
                    let b = stack[stack.len() - 2];
                    let rest = stack.drop_last().drop_last();
                    match (a, b) {
                        (ValueV::Integer(x), ValueV::Integer(y)) => match spec_int_binop(
                            inst,
                            x,
                            y,
                        ) {
                            IntBinOut::Val(v) => spec_run(
                                c,
                                ip + 1,
                                rest.push(ValueV::Integer(v)),
                                out,
                            ),
                            IntBinOut::Overflowed => out == RunOut::Failed(
                                VmFailure::Overflow,
                                loc,
                            ),
                            IntBinOut::DividedByZero => out == RunOut::Failed(
                                VmFailure::DivisionByZero,
                                loc,
                            ),
                        },
                        (ValueV::Float(_), ValueV::Float(_)) => exists|fb: u64|
                            spec_run(c, ip + 1, rest.push(ValueV::Float(fb)), out),
                        _ => out == RunOut::Failed(
                            VmFailure::WrongType { found: spec_binop_found(a, b) },
                            loc,
                        ),
                    }
                }
            },
        }
    }
}

/// The run outcome an execution result denotes.
pub open spec fn spec_outcome(r: Result<Option<Value>, RuntimeError>) -> RunOut {
    match r {
        Result::Ok(Option::None) => RunOut::Done,
        Result::Ok(Option::Some(v)) => RunOut::Reported(v@),
        Result::Err(e) => match e {
            RuntimeError::WrongType { loc, found } => RunOut::Failed(
                VmFailure::WrongType { found: found@ },
                loc,
            ),
            RuntimeError::DivisionByZero { loc } => RunOut::Failed(VmFailure::DivisionByZero, loc),
            RuntimeError::Overflow { loc } => RunOut::Failed(VmFailure::Overflow, loc),
            RuntimeError::StackOverflow { loc } => RunOut::Failed(VmFailure::StackOverflow, loc),
            RuntimeError::StackUnderflow { loc } => RunOut::Failed(VmFailure::StackUnderflow, loc),
        },
    }
}

/// A virtual machine which executes bytecode.
#[derive(Debug)]
pub struct ReamVirtualMachine {
    /// The chunk being executed.
    pub chunk: Chunk,
    /// The instruction pointer.
    pub ip: usize,
    /// The value stack.
    pub stack: Vec<Value>,
}

/// The type name a failing binary operation reports.
fn binop_found(a: &Value, b: &Value) -> (r: String)
    ensures
        r@ == spec_binop_found(a@, b@),
{
    let a_int = matches!(a, Value::Integer(_));
    let b_int = matches!(b, Value::Integer(_));
    let a_float = matches!(a, Value::Float(_));
    let b_float = matches!(b, Value::Float(_));
    if a_int && !b_int {
        b.type_label()
    } else if b_int {
        a.type_label()
    } else if a_float && !b_float {
        b.type_label()
    } else if b_float {
        a.type_label()
    } else {
        a.type_label()
    }
}

impl ReamVirtualMachine {
    /// The machine's well-formedness: the chunk is well formed, the stack
    /// is within capacity, and the instruction pointer is inside or one
    /// past the instructions.
    pub open spec fn wf(self) -> bool {
        &&& self.chunk.wf()
        &&& self.stack@.len() <= STACK_SIZE
        &&& self.ip <= self.chunk@.instructions.len()
    }

    /// Create a new machine over a chunk, with an empty stack.
    pub fn new(chunk: Chunk) -> (vm: ReamVirtualMachine)
        requires
            chunk.wf(),
        ensures
            vm.wf(),
            vm.chunk == chunk,
            vm.ip == 0,
            stack_view(vm.stack@) == Seq::<ValueV>::empty(),
    {
        let vm = ReamVirtualMachine { chunk, ip: 0, stack: Vec::new() };
        proof {
            assert(stack_view(vm.stack@) =~= Seq::<ValueV>::empty());
        }
        vm
    }

    /// Replace the chunk, reset the instruction pointer, and run. The
    /// stack is kept as it is.
    pub fn execute_chunk<F: FloatOps>(&mut self, chunk: Chunk, ops: &F) -> (r: Result<
        Option<Value>,
        RuntimeError,
    >)
        requires
            old(self).wf(),
            chunk.wf(),
            chunk_loads_ok(chunk@),
        ensures
            final(self).wf(),
            final(self).chunk == chunk,
            spec_run(chunk@, 0, stack_view(old(self).stack@), spec_outcome(r)),
    {
        self.chunk = chunk;
        self.ip = 0;
        self.run(ops)
    }

    /// Run the machine from its current state to an outcome: off the end
    /// of the instructions, a reported value, or the first runtime error.
    #[verifier::loop_isolation(false)]
    pub fn run<F: FloatOps>(&mut self, ops: &F) -> (r: Result<Option<Value>, RuntimeError>)
        requires
            old(self).wf(),
            chunk_loads_ok(old(self).chunk@),
        ensures
            final(self).wf(),
            final(self).chunk == old(self).chunk,
            spec_run(
                old(self).chunk@,
                old(self).ip as int,
                stack_view(old(self).stack@),
                spec_outcome(r),
            ),
    {
        let ghost c = self.chunk@;
        let ghost ip0 = self.ip as int;
        let ghost st0 = stack_view(self.stack@);
        while self.ip < self.chunk.instructions.len()
            invariant
                self.wf(),
                self.chunk == old(self).chunk,
                c == self.chunk@,
                chunk_loads_ok(c),
                forall|res: RunOut|
                    spec_run(c, self.ip as int, stack_view(self.stack@), res) ==> #[trigger]
                    spec_run(c, ip0, st0, res),
            decreases c.instructions.len() - self.ip,
        {
            let ghost pre_ip = self.ip as int;
            let ghost pre_stack = stack_view(self.stack@);
            let inst = self.chunk.instructions[self.ip];
            let loc = self.chunk.spans[self.ip];
            self.ip = self.ip + 1;
            match inst {
                OpCode::Return => {
                    if self.stack.len() == 0 {
                        proof {
                            assert(spec_run(
                                c,
                                pre_ip,
                                pre_stack,
                                RunOut::Failed(VmFailure::StackUnderflow, loc),
                            ));
                            assert(spec_run(c, ip0, st0, RunOut::Failed(VmFailure::StackUnderflow, loc)));
                        }
                        return Result::Err(RuntimeError::StackUnderflow { loc });
                    }
                    let v = self.stack.pop().unwrap();
                    proof {
                        assert(pre_stack.last() == v@);
                        assert(spec_run(c, pre_ip, pre_stack, RunOut::Reported(v@)));
                        assert(spec_run(c, ip0, st0, RunOut::Reported(v@)));
                    }
                    return Result::Ok(Option::Some(v));
                },
                OpCode::LoadImmediate { imm } => {
                    if self.stack.len() >= STACK_SIZE {
                        proof {
                            assert(spec_run(
                                c,
                                pre_ip,
                                pre_stack,
                                RunOut::Failed(VmFailure::StackOverflow, loc),
                            ));
                            assert(spec_run(c, ip0, st0, RunOut::Failed(VmFailure::StackOverflow, loc)));
                        }
                        return Result::Err(RuntimeError::StackOverflow { loc });
                    }
                    self.stack.push(Value::Integer(imm));
                    proof {
                        assert(stack_view(self.stack@) =~= pre_stack.push(ValueV::Integer(imm)));
                        assert forall|res: RunOut|
                            spec_run(c, self.ip as int, stack_view(self.stack@), res) implies
                            spec_run(c, ip0, st0, res) by {
                            assert(spec_run(c, pre_ip, pre_stack, res));
                        }
                    }
                },
                OpCode::LoadConstant { idx } => {
                    if self.stack.len() >= STACK_SIZE {
                        proof {
                            assert(spec_run(
                                c,
                                pre_ip,
                                pre_stack,
                                RunOut::Failed(VmFailure::StackOverflow, loc),
                            ));
                            assert(spec_run(c, ip0, st0, RunOut::Failed(VmFailure::StackOverflow, loc)));
                        }
                        return Result::Err(RuntimeError::StackOverflow { loc });
                    }
                    let cval = self.chunk.constants[idx].duplicate();
                    proof {
                        assert(cval@ == c.constants[idx as int]);
                    }
                    self.stack.push(cval);
                    proof {
                        assert(stack_view(self.stack@) =~= pre_stack.push(c.constants[idx as int]));
                        assert forall|res: RunOut|
                            spec_run(c, self.ip as int, stack_view(self.stack@), res) implies
                            spec_run(c, ip0, st0, res) by {
                            assert(spec_run(c, pre_ip, pre_stack, res));
                        }
                    }
                },
                OpCode::Negate => {
                    if self.stack.len() == 0 {
                        proof {
                            assert(spec_run(
                                c,
                                pre_ip,
                                pre_stack,
                                RunOut::Failed(VmFailure::StackUnderflow, loc),
                            ));
                            assert(spec_run(c, ip0, st0, RunOut::Failed(VmFailure::StackUnderflow, loc)));
                        }
                        return Result::Err(RuntimeError::StackUnderflow { loc });
                    }
                    let v = self.stack.pop().unwrap();
                    proof {
                        assert(pre_stack.last() == v@);
                        assert(stack_view(self.stack@) =~= pre_stack.drop_last());
                    }
                    match v {
                        Value::Integer(i) => {
                            if i == i64::MIN {
                                proof {
                                    assert(spec_run(
                                        c,
                                        pre_ip,
                                        pre_stack,
                                        RunOut::Failed(VmFailure::Overflow, loc),
                                    ));
                            assert(spec_run(c, ip0, st0, RunOut::Failed(VmFailure::Overflow, loc)));
                                }
                                return Result::Err(RuntimeError::Overflow { loc });
                            }
                            self.stack.push(Value::Integer(-i));
                            proof {
                                assert(stack_view(self.stack@) =~= pre_stack.drop_last().push(
                                    ValueV::Integer((-(i as int)) as i64),
                                ));
                                assert forall|res: RunOut|
                                    spec_run(c, self.ip as int, stack_view(self.stack@), res)
                                        implies spec_run(c, ip0, st0, res) by {
                                    assert(spec_run(c, pre_ip, pre_stack, res));
                                }
                            }
                        },
                        Value::Float(b) => {
                            self.stack.push(Value::Float(float_negate(b)));
                            proof {
                                assert(stack_view(self.stack@) =~= pre_stack.drop_last().push(
                                    ValueV::Float(b ^ 0x8000_0000_0000_0000u64),
                                ));
                                assert forall|res: RunOut|
                                    spec_run(c, self.ip as int, stack_view(self.stack@), res)
                                        implies spec_run(c, ip0, st0, res) by {
                                    assert(spec_run(c, pre_ip, pre_stack, res));
                                }
                            }
                        },
                        t => {
                            let found = t.type_label();
                            proof {
                                assert(spec_run(
                                    c,
                                    pre_ip,
                                    pre_stack,
                                    RunOut::Failed(VmFailure::WrongType { found: found@ }, loc),
                                ));
                            assert(spec_run(c, ip0, st0, RunOut::Failed(VmFailure::WrongType { found: found@ }, loc)));
                            }
                            return Result::Err(RuntimeError::WrongType { loc, found });
                        },
                    }
                },
                _ => {
                    if self.stack.len() < 2 {
                        proof {
                            assert(spec_run(
                                c,
                                pre_ip,
                                pre_stack,
                                RunOut::Failed(VmFailure::StackUnderflow, loc),
                            ));
                            assert(spec_run(c, ip0, st0, RunOut::Failed(VmFailure::StackUnderflow, loc)));
                        }
                        return Result::Err(RuntimeError::StackUnderflow { loc });
                    }
                    let a = self.stack.pop().unwrap();
                    let b = self.stack.pop().unwrap();
                    proof {
                        assert(pre_stack.last() == a@);
                        assert(pre_stack[pre_stack.len() - 2] == b@);
                        assert(stack_view(self.stack@) =~= pre_stack.drop_last().drop_last());
                    }
                    let both_int = matches!(&a, Value::Integer(_)) && matches!(
                        &b,
                        Value::Integer(_),
                    );
                    let both_float = matches!(&a, Value::Float(_)) && matches!(
                        &b,
                        Value::Float(_),
                    );
                    if both_int {
                        let x = match &a {
                            Value::Integer(x) => *x,
                            _ => unreached(),
                        };
                        let y = match &b {
                            Value::Integer(y) => *y,
                            _ => unreached(),
                        };
                        if matches!(inst, OpCode::Div) && y == 0 {
                            proof {
                                assert(spec_run(
                                    c,
                                    pre_ip,
                                    pre_stack,
                                    RunOut::Failed(VmFailure::DivisionByZero, loc),
                                ));
                            assert(spec_run(c, ip0, st0, RunOut::Failed(VmFailure::DivisionByZero, loc)));
                            }
                            return Result::Err(RuntimeError::DivisionByZero { loc });
                        }
                        let computed: Option<i64> = match inst {
                            OpCode::Add => x.checked_add(y),
                            OpCode::Sub => x.checked_sub(y),
                            OpCode::Mul => x.checked_mul(y),
                            _ => x.checked_div(y),
                        };
                        match computed {
                            Option::Some(value) => {
                                proof {
                                    assert(spec_int_binop(inst, x, y) == IntBinOut::Val(value));
                                }
                                self.stack.push(Value::Integer(value));
                                proof {
                                    assert(stack_view(self.stack@) =~= pre_stack.drop_last()
                                        .drop_last().push(ValueV::Integer(value)));
                                    assert forall|res: RunOut|
                                        spec_run(c, self.ip as int, stack_view(self.stack@), res)
                                            implies spec_run(c, ip0, st0, res) by {
                                        assert(spec_run(c, pre_ip, pre_stack, res));
                                    }
                                }
                            },
                            Option::None => {
                                proof {
                                    assert(spec_int_binop(inst, x, y) == IntBinOut::Overflowed);
                                    assert(spec_run(
                                        c,
                                        pre_ip,
                                        pre_stack,
                                        RunOut::Failed(VmFailure::Overflow, loc),
                                    ));
                            assert(spec_run(c, ip0, st0, RunOut::Failed(VmFailure::Overflow, loc)));
                                }
                                return Result::Err(RuntimeError::Overflow { loc });
                            },
                        }
                    } else if both_float {
                        let fa = match &a {
                            Value::Float(fa) => *fa,
                            _ => unreached(),
                        };
                        let fb = match &b {
                            Value::Float(fb) => *fb,
                            _ => unreached(),
                        };
                        let bits: u64 = match inst {
                            OpCode::Add => ops.float_add(fa, fb),
                            OpCode::Sub => ops.float_sub(fa, fb),
                            OpCode::Mul => ops.float_mul(fa, fb),
                            _ => ops.float_div(fa, fb),
                        };
                        self.stack.push(Value::Float(bits));
                        proof {
                            assert(stack_view(self.stack@) =~= pre_stack.drop_last().drop_last()
                                .push(ValueV::Float(bits)));
                            assert forall|res: RunOut|
                                spec_run(c, self.ip as int, stack_view(self.stack@), res) implies
                                spec_run(c, ip0, st0, res) by {
                                assert(spec_run(
                                    c,
                                    pre_ip + 1,
                                    pre_stack.drop_last().drop_last().push(ValueV::Float(bits)),
                                    res,
                                ));
                                assert(spec_run(c, pre_ip, pre_stack, res));
                            }
                        }
                    } else {
                        let found = binop_found(&a, &b);
                        proof {
                            assert(spec_run(
                                c,
                                pre_ip,
                                pre_stack,
                                RunOut::Failed(VmFailure::WrongType { found: found@ }, loc),
                            ));
                            assert(spec_run(c, ip0, st0, RunOut::Failed(VmFailure::WrongType { found: found@ }, loc)));
                        }
                        return Result::Err(RuntimeError::WrongType { loc, found });
                    }
                },
            }
        }
        proof {
            assert(spec_run(c, self.ip as int, stack_view(self.stack@), RunOut::Done));
            assert(spec_run(c, ip0, st0, RunOut::Done));
        }
        Result::Ok(Option::None)
    }
}

} // verus!
