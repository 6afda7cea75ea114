//! Compiled programs: an instruction list and the constants it refers to.
use crate::scalar::Scalar;
use vstd::prelude::*;

verus! {

/// One instruction of the stack machine.
#[derive(Debug, Clone, Copy, PartialEq, Eq, Structural)]
pub enum OpCode {
    /// Ends execution; the result is the top of the stack.
    Return,
    /// Pushes the constant at this index of the pool.
    Constant(usize),
    Add,
    Sub,
    Mul,
    Div,
    Negate,
    /// Pops this many operands and pushes their sum.
    Sum(usize),
    Avg(usize),
    Min(usize),
    Max(usize),
    /// Pops three operands: return range, search range, search value.
    Lookup,
    /// Pops this many operands.
    XLookup(usize),
    /// Pops a shift target and a value.
    Shift,
}

/// The mathematical value of a [`Chunk`].
pub struct Program {
    pub code: Seq<OpCode>,
    pub constants: Seq<Scalar>,
}

impl Program {
    /// The program with no instruction and no constant.
    pub open spec fn empty() -> Program {
        Program { code: Seq::empty(), constants: Seq::empty() }
    }

    /// The program with one more instruction at its end.
    pub open spec fn emit(self, op: OpCode) -> Program {
        Program { code: self.code.push(op), constants: self.constants }
    }

    /// The program with `value` added to the pool and an instruction that
    /// pushes it.
    pub open spec fn emit_constant(self, value: Scalar) -> Program {
        Program {
            code: self.code.push(OpCode::Constant(self.constants.len() as usize)),
            constants: self.constants.push(value),
        }
    }

    /// Every `Constant` instruction refers to an entry of the pool.
    pub open spec fn well_formed(self) -> bool {
        forall|i: int|
            0 <= i < self.code.len() ==> (#[trigger] self.code[i] matches OpCode::Constant(index)
                ==> index < self.constants.len())
    }
}

/// A compiled formula.
pub struct Chunk {
    pub code: Vec<OpCode>,
    pub constants: Vec<Scalar>,
}

impl View for Chunk {
    type V = Program;

    open spec fn view(&self) -> Program {
        Program { code: self.code@, constants: self.constants@ }
    }
}

impl Chunk {
    pub fn new() -> (chunk: Chunk)
        ensures
            chunk@ == Program::empty(),
    {
        Chunk { code: Vec::new(), constants: Vec::new() }
    }

    /// Appends one instruction.
    pub fn write_chunk(&mut self, byte: OpCode)
        ensures
            final(self)@ == old(self)@.emit(byte),
    {
        self.code.push(byte);
    }

    /// Adds a constant to the pool and returns its index.
    pub fn add_constant(&mut self, value: Scalar) -> (index: usize)
        ensures
            index == old(self).constants@.len(),
            final(self).constants@ == old(self).constants@.push(value),
            final(self).code@ == old(self).code@,
    {
        self.constants.push(value);
        self.constants.len() - 1
    }

    /// Checks that every `Constant` instruction refers into the pool.
    pub fn is_well_formed(&self) -> (ok: bool)
        ensures
            ok == self@.well_formed(),
    {
        let mut i: usize = 0;
        while i < self.code.len()
            invariant
                i <= self.code.len(),
                forall|j: int|
                    0 <= j < i ==> (#[trigger] self.code@[j] matches OpCode::Constant(index)
                        ==> index < self.constants@.len()),
            decreases self.code.len() - i,
        {
            if let OpCode::Constant(index) = self.code[i] {
                if index >= self.constants.len() {
                    return false;
                }
            }
            i += 1;
        }
        true
    }
}

} // verus!
