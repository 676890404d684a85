//! Bytecode instructions, values, and chunks.

use vstd::prelude::*;

use crate::ast::clone_string;
use crate::span::Span;

verus! {

/// A single instruction.
#[derive(Clone, Copy, Debug, PartialEq, Eq, Structural)]
pub enum OpCode {
    /// Return from a function call, reporting the top of the stack.
    Return,
    /// Load an immediate straight from the instruction.
    LoadImmediate {
        /// The value to load.
        imm: i64,
    },
    /// Load a constant from the constant table.
    LoadConstant {
        /// The index of the constant to load.
        idx: usize,
    },
    /// Negate the value at the top of the stack.
    Negate,
    /// Add the top two values of the stack.
    Add,
    /// Subtract the top two values of the stack.
    Sub,
    /// Multiply the top two values of the stack.
    Mul,
    /// Divide the top two values of the stack.
    Div,
}

/// A single bytecode value. A float is carried as its IEEE 754 bit
/// pattern.
#[derive(Debug)]
pub enum Value {
    /// A boolean.
    Boolean(bool),
    /// A signed integer.
    Integer(i64),
    /// A float, as its bit pattern.
    Float(u64),
    /// A character.
    Character(char),
    /// A string.
    String(String),
}

/// The mathematical shape of a [`Value`].
pub enum ValueV {
    /// A boolean.
    Boolean(bool),
    /// A signed integer.
    Integer(i64),
    /// A float, as its bit pattern.
    Float(u64),
    /// A character.
    Character(char),
    /// A string.
    String(Seq<char>),
}

impl View for Value {
    type V = ValueV;

    open spec fn view(&self) -> ValueV {
        match self {
            Value::Boolean(b) => ValueV::Boolean(*b),
            Value::Integer(i) => ValueV::Integer(*i),
            Value::Float(f) => ValueV::Float(*f),
            Value::Character(c) => ValueV::Character(*c),
            Value::String(s) => ValueV::String(s@),
        }
    }
}

/// The display name of a value shape's type.
pub open spec fn spec_value_type_label(v: ValueV) -> Seq<char> {
    match v {
        ValueV::Boolean(_) => "Boolean"@,
        ValueV::Integer(_) => "Integer"@,
        ValueV::Float(_) => "Float"@,
        ValueV::Character(_) => "Character"@,
        ValueV::String(_) => "String"@,
    }
}

impl Value {
    /// Get the name of the type of this value.
    pub fn type_label(&self) -> (r: String)
        ensures
            r@ == spec_value_type_label(self@),
    {
        match self {
            Value::Boolean(_) => String::from_str("Boolean"),
            Value::Integer(_) => String::from_str("Integer"),
            Value::Float(_) => String::from_str("Float"),
            Value::Character(_) => String::from_str("Character"),
            Value::String(_) => String::from_str("String"),
        }
    }

    /// An independent copy of this value.
    pub fn duplicate(&self) -> (r: Value)
        ensures
            r@ == self@,
    {
        match self {
            Value::Boolean(b) => Value::Boolean(*b),
            Value::Integer(i) => Value::Integer(*i),
            Value::Float(f) => Value::Float(*f),
            Value::Character(c) => Value::Character(*c),
            Value::String(s) => Value::String(clone_string(s)),
        }
    }
}

/// The mathematical shape of a [`Chunk`].
pub struct ChunkV {
    /// The chunk's name.
    pub name: Seq<char>,
    /// The source text the spans refer to.
    pub source: Seq<char>,
    /// The instructions, in execution order.
    pub instructions: Seq<OpCode>,
    /// The constant table.
    pub constants: Seq<ValueV>,
    /// The source span of each instruction.
    pub spans: Seq<Span>,
}

/// A single chunk of bytecode with its associated metadata: instructions,
/// a constant table, and one source span per instruction.
///
/// A chunk is append-only: nothing ever removes or reorders entries.
#[derive(Debug)]
pub struct Chunk {
    /// The chunk's name.
    pub name: String,
    /// The source text the spans refer to.
    pub source: String,
    /// The instructions, in execution order.
    pub instructions: Vec<OpCode>,
    /// The constant table.
    pub constants: Vec<Value>,
    /// The source span of each instruction.
    pub spans: Vec<Span>,
}

impl View for Chunk {
    type V = ChunkV;

    open spec fn view(&self) -> ChunkV {
        ChunkV {
            name: self.name@,
            source: self.source@,
            instructions: self.instructions@,
            constants: self.constants@.map_values(|v: Value| v@),
            spans: self.spans@,
        }
    }
}

impl Chunk {
    /// Each instruction carries exactly one span.
    pub open spec fn wf(self) -> bool {
        self.instructions@.len() == self.spans@.len()
    }

    /// Create a new chunk of bytecode over the given source text.
    pub fn new(name: String, source: String) -> (c: Chunk)
        ensures
            c.wf(),
            c@.name == name@,
            c@.source == source@,
            c@.instructions == Seq::<OpCode>::empty(),
            c@.constants == Seq::<ValueV>::empty(),
            c@.spans == Seq::<Span>::empty(),
    {
        let c = Chunk {
            name,
            source,
            instructions: Vec::new(),
            constants: Vec::new(),
            spans: Vec::new(),
        };
        proof {
            assert(c@.constants =~= Seq::<ValueV>::empty());
        }
        c
    }

    /// Push an instruction and its source span to the chunk. Existing
    /// entries are untouched.
    pub fn push_instruction(&mut self, inst: OpCode, span: Span)
        requires
            old(self).wf(),
        ensures
            final(self).wf(),
            final(self)@.instructions == old(self)@.instructions.push(inst),
            final(self)@.spans == old(self)@.spans.push(span),
            final(self)@.constants == old(self)@.constants,
            final(self)@.name == old(self)@.name,
            final(self)@.source == old(self)@.source,
    {
        self.instructions.push(inst);
        self.spans.push(span);
        proof {
            assert(self@.constants =~= old(self)@.constants);
        }
    }

    /// Push a constant to the constant table. Existing entries are
    /// untouched.
    ///
    /// Returns the new constant's index, for use by a `LoadConstant`
    /// instruction. Constants are never deduplicated.
    pub fn push_constant(&mut self, constant: Value) -> (idx: usize)
        requires
            old(self).wf(),
        ensures
            final(self).wf(),
            final(self)@.constants == old(self)@.constants.push(constant@),
            idx == old(self)@.constants.len(),
            final(self)@.instructions == old(self)@.instructions,
            final(self)@.spans == old(self)@.spans,
            final(self)@.name == old(self)@.name,
            final(self)@.source == old(self)@.source,
    {
        let ghost cv = constant@;
        self.constants.push(constant);
        proof {
            assert(self@.constants =~= old(self)@.constants.push(cv));
        }
        self.constants.len() - 1
    }
}

} // verus!
