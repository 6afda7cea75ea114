//! The stack machine that executes compiled formulas.
use crate::atom_script::chunk::{Chunk, OpCode, Program};
use crate::scalar::Scalar;
use vstd::prelude::*;

verus! {

/// The operand stack never holds more than this many numbers.
pub const STACK_CAPACITY: usize = 256;

/// How a run ends.
#[derive(Debug, Clone, Copy, PartialEq, Eq, Structural)]
pub enum InterpretResult {
    Success(Scalar),
    CompileError,
    RuntimeError,
}

/// The state of a machine: its program, its operand stack (top last) and the
/// index of the next instruction.
pub struct Machine {
    pub program: Program,
    pub stack: Seq<Scalar>,
    pub ip: nat,
}

/// The number of operands an instruction takes off the stack.
pub open spec fn operand_count(op: OpCode) -> nat {
    match op {
        OpCode::Return => 1,
        OpCode::Constant(_) => 0,
        OpCode::Add | OpCode::Sub | OpCode::Mul | OpCode::Div => 2,
        OpCode::Negate => 1,
        OpCode::Sum(n) | OpCode::Avg(n) | OpCode::Min(n) | OpCode::Max(n) => n as nat,
        OpCode::Lookup => 3,
        OpCode::XLookup(n) => n as nat,
        OpCode::Shift => 2,
    }
}

/// The top `n` numbers of a stack in the order in which they are popped:
/// the top of the stack first.
pub open spec fn popped(stack: Seq<Scalar>, n: nat) -> Seq<Scalar>
    recommends
        n <= stack.len(),
{
    Seq::new(n, |i: int| stack[stack.len() - 1 - i])
}

/// The sum of `values`, accumulated from zero in sequence order.
pub open spec fn sum_of(values: Seq<Scalar>) -> Scalar {
    values.fold_left(Scalar::zero(), |acc: Scalar, v: Scalar| acc.sum(v))
}

/// The smaller of a running minimum and the next value. A NaN never
/// replaces the running minimum.
pub open spec fn min_step(acc: Scalar, v: Scalar) -> Scalar {
    if v.less_than(acc) {
        v
    } else {
        acc
    }
}

/// The larger of a running maximum and the next value.
pub open spec fn max_step(acc: Scalar, v: Scalar) -> Scalar {
    if acc.less_than(v) {
        v
    } else {
        acc
    }
}

/// The minimum of `values`, starting from the largest finite number.
pub open spec fn min_of(values: Seq<Scalar>) -> Scalar {
    values.fold_left(Scalar::max_finite(), |acc: Scalar, v: Scalar| min_step(acc, v))
}

/// The maximum of `values`, starting from the most negative finite number.
pub open spec fn max_of(values: Seq<Scalar>) -> Scalar {
    values.fold_left(Scalar::min_finite(), |acc: Scalar, v: Scalar| max_step(acc, v))
}

/// What a table lookup yields until lookups are connected to cell storage.
pub open spec fn lookup_placeholder() -> Scalar {
    Scalar { bits: 0x4045_0000_0000_0000 }
}

/// What an extended lookup yields until lookups are connected to cell
/// storage.
pub open spec fn xlookup_placeholder() -> Scalar {
    Scalar { bits: 0x4059_0000_0000_0000 }
}

/// The number an instruction other than `Return` pushes, given the operands
/// it popped (top of stack first) and the constant pool.
pub open spec fn pushed_value(op: OpCode, operands: Seq<Scalar>, constants: Seq<Scalar>) -> Scalar
    recommends
        operands.len() == operand_count(op),
        op matches OpCode::Constant(index) ==> index < constants.len(),
{
    match op {
        OpCode::Return => operands[0],
        OpCode::Constant(index) => constants[index as int],
        OpCode::Add => operands[1].sum(operands[0]),
        OpCode::Sub => operands[1].difference(operands[0]),
        OpCode::Mul => operands[1].product(operands[0]),
        OpCode::Div => operands[1].quotient(operands[0]),
        OpCode::Negate => operands[0].negated(),
        OpCode::Sum(_) => sum_of(operands),
        OpCode::Avg(n) => sum_of(operands).quotient(Scalar::of_count(n as nat)),
        OpCode::Min(_) => min_of(operands),
        OpCode::Max(_) => max_of(operands),
        OpCode::Lookup => lookup_placeholder(),
        OpCode::XLookup(_) => xlookup_placeholder(),
        OpCode::Shift => operands[1],
    }
}

impl Machine {
    /// The pool holds every constant the program refers to, the stack is
    /// within its capacity and the next instruction is at most one past the
    /// end.
    pub open spec fn well_formed(self) -> bool {
        &&& self.program.well_formed()
        &&& self.stack.len() <= STACK_CAPACITY
        &&& self.ip <= self.program.code.len()
    }

    /// A machine about to execute the first instruction of `program` on an
    /// empty stack.
    pub open spec fn start(program: Program) -> Machine {
        Machine { program, stack: Seq::empty(), ip: 0 }
    }

    /// One instruction. Gives the state after it and, where the instruction
    /// ends the run, the result.
    ///
    /// Reaching the end of the program, finding fewer operands than the
    /// instruction takes, and pushing onto a full stack all end the run with
    /// `RuntimeError`.
    pub open spec fn step(self) -> (Option<InterpretResult>, Machine) {
        if self.ip >= self.program.code.len() {
            (Some(InterpretResult::RuntimeError), self)
        } else {
            let op = self.program.code[self.ip as int];
            let n = operand_count(op);
            let fetched = Machine { ip: self.ip + 1, ..self };
            if self.stack.len() < n {
                (Some(InterpretResult::RuntimeError), fetched)
            } else {
                let operands = popped(self.stack, n);
                let rest = self.stack.take(self.stack.len() - n);
                let taken = Machine { stack: rest, ..fetched };
                if op == OpCode::Return {
                    (Some(InterpretResult::Success(operands[0])), taken)
                } else if rest.len() >= STACK_CAPACITY {
                    (Some(InterpretResult::RuntimeError), taken)
                } else {
                    let value = pushed_value(op, operands, self.program.constants);
                    (None, Machine { stack: rest.push(value), ..taken })
                }
            }
        }
    }

    /// Runs until an instruction ends the run. Gives the result and the
    /// state the machine is left in.
    pub open spec fn run(self) -> (InterpretResult, Machine)
        decreases self.program.code.len() - self.ip,
    {
        let (halt, next) = self.step();
        match halt {
            Some(result) => (result, next),
            None => next.run(),
        }
    }
}

/// A machine that runs one compiled formula on its own operand stack.
pub struct VM {
    chunk: Chunk,
    stack: Vec<Scalar>,
    ip: usize,
}

impl View for VM {
    type V = Machine;

    closed spec fn view(&self) -> Machine {
        Machine { program: self.chunk@, stack: self.stack@, ip: self.ip as nat }
    }
}

/// The number of operands `op` takes off the stack.
fn operands_of(op: OpCode) -> (n: usize)
    ensures
        n == operand_count(op),
{
    match op {
        OpCode::Return => 1,
        OpCode::Constant(_) => 0,
        OpCode::Add | OpCode::Sub | OpCode::Mul | OpCode::Div => 2,
        OpCode::Negate => 1,
        OpCode::Sum(n) | OpCode::Avg(n) | OpCode::Min(n) | OpCode::Max(n) => n,
        OpCode::Lookup => 3,
        OpCode::XLookup(n) => n,
        OpCode::Shift => 2,
    }
}

/// Popping one more number extends the popped operands at their end.
proof fn lemma_popped_next(stack: Seq<Scalar>, n: nat)
    requires
        n < stack.len(),
    ensures
        popped(stack, n + 1) == popped(stack, n).push(stack[stack.len() - 1 - n]),
        popped(stack, n + 1).drop_last() == popped(stack, n),
{
    assert(popped(stack, n + 1) =~= popped(stack, n).push(stack[stack.len() - 1 - n]));
    assert(popped(stack, n + 1).drop_last() =~= popped(stack, n));
}

impl VM {
    /// A machine ready to run `chunk` from its first instruction.
    pub fn new(chunk: Chunk) -> (vm: VM)
        requires
            chunk@.well_formed(),
        ensures
            vm@ == Machine::start(chunk@),
    {
        VM { chunk, stack: Vec::with_capacity(STACK_CAPACITY), ip: 0 }
    }

    /// Executes the program from the current instruction until a `Return`,
    /// an error or the end of the program.
    pub fn run(&mut self) -> (result: InterpretResult)
        requires
            old(self)@.well_formed(),
        ensures
            (result, final(self)@) == old(self)@.run(),
            final(self)@.well_formed(),
            final(self)@.program == old(self)@.program,
    {
        loop
            invariant
                self@.well_formed(),
                self@.program == old(self)@.program,
                self@.run() == old(self)@.run(),
            decreases self.chunk.code.len() - self.ip,
        {
            if self.ip >= self.chunk.code.len() {
                return InterpretResult::RuntimeError;
            }
            let ghost before = self@;
            let instruction = self.chunk.code[self.ip];
            self.ip += 1;
            let needed = operands_of(instruction);
            if self.stack.len() < needed {
                return InterpretResult::RuntimeError;
            }
            let value = match instruction {
                OpCode::Return => {
                    let top = self.pop();
                    return InterpretResult::Success(top);
                },
                OpCode::Constant(idx) => self.chunk.constants[idx],
                OpCode::Add => {
                    let b = self.pop();
                    let a = self.pop();
                    a.plus(b)
                },
                OpCode::Sub => {
                    let b = self.pop();
                    let a = self.pop();
                    a.minus(b)
                },
                OpCode::Mul => {
                    let b = self.pop();
                    let a = self.pop();
                    a.times(b)
                },
                OpCode::Div => {
                    let b = self.pop();
                    let a = self.pop();
                    a.divided_by(b)
                },
                OpCode::Negate => {
                    let a = self.pop();
                    a.neg()
                },
                OpCode::Sum(count) => self.pop_sum(count),
                OpCode::Avg(count) => {
                    let sum = self.pop_sum(count);
                    sum.divided_by(Scalar::from_count(count))
                },
                OpCode::Min(count) => self.pop_min(count),
                OpCode::Max(count) => self.pop_max(count),
                OpCode::Shift => {
                    let _offset = self.pop();
                    let value = self.pop();
                    value
                },
                OpCode::Lookup => {
                    let _return_rng = self.pop();
                    let _search_rng = self.pop();
                    let _lookup_val = self.pop();
                    Scalar::from_bits(0x4045_0000_0000_0000)
                },
                OpCode::XLookup(count) => {
                    self.discard(count);
                    Scalar::from_bits(0x4059_0000_0000_0000)
                },
            };
            assert(self.stack@ == before.stack.take(before.stack.len() - needed));
            assert(value == pushed_value(
                instruction,
                popped(before.stack, needed as nat),
                before.program.constants,
            ));
            if let Err(e) = self.push(value) {
                return e;
            }
        }
    }

    /// Pushes a number, unless the stack is full.
    fn push(&mut self, value: Scalar) -> (pushed: Result<(), InterpretResult>)
        ensures
            final(self).chunk == old(self).chunk,
            final(self).ip == old(self).ip,
            old(self).stack@.len() >= STACK_CAPACITY ==> pushed == Err::<(), InterpretResult>(
                InterpretResult::RuntimeError,
            ) && final(self).stack@ == old(self).stack@,
            old(self).stack@.len() < STACK_CAPACITY ==> pushed is Ok && final(self).stack@ == old(
                self,
            ).stack@.push(value),
    {
        if self.stack.len() >= STACK_CAPACITY {
            return Err(InterpretResult::RuntimeError);
        }
        self.stack.push(value);
        Ok(())
    }

    /// Pops the top of the stack.
    fn pop(&mut self) -> (value: Scalar)
        requires
            old(self).stack@.len() > 0,
        ensures
            final(self).chunk == old(self).chunk,
            final(self).ip == old(self).ip,
            value == old(self).stack@.last(),
            final(self).stack@ == old(self).stack@.drop_last(),
    {
        match self.stack.pop() {
            Some(value) => value,
            None => Scalar::new_zero(),
        }
    }

    /// Pops `count` numbers and adds them up from zero, top of stack first.
    fn pop_sum(&mut self, count: usize) -> (total: Scalar)
        requires
            count <= old(self).stack@.len(),
        ensures
            final(self).chunk == old(self).chunk,
            final(self).ip == old(self).ip,
            final(self).stack@ == old(self).stack@.take(old(self).stack@.len() - count),
            total == sum_of(popped(old(self).stack@, count as nat)),
    {
        let mut total = Scalar::new_zero();
        let mut i: usize = 0;
        while i < count
            invariant
                i <= count <= old(self).stack@.len(),
                self.chunk == old(self).chunk,
                self.ip == old(self).ip,
                self.stack@ == old(self).stack@.take(old(self).stack@.len() - i),
                total == sum_of(popped(old(self).stack@, i as nat)),
            decreases count - i,
        {
            let v = self.pop();
            proof {
                lemma_popped_next(old(self).stack@, i as nat);
            }
            total = total.plus(v);
            i += 1;
        }
        total
    }

    /// Pops `count` numbers and keeps the smallest, starting from the
    /// largest finite number.
    fn pop_min(&mut self, count: usize) -> (least: Scalar)
        requires
            count <= old(self).stack@.len(),
        ensures
            final(self).chunk == old(self).chunk,
            final(self).ip == old(self).ip,
            final(self).stack@ == old(self).stack@.take(old(self).stack@.len() - count),
            least == min_of(popped(old(self).stack@, count as nat)),
    {
        let mut least = Scalar::new_max_finite();
        let mut i: usize = 0;
        while i < count
            invariant
                i <= count <= old(self).stack@.len(),
                self.chunk == old(self).chunk,
                self.ip == old(self).ip,
                self.stack@ == old(self).stack@.take(old(self).stack@.len() - i),
                least == min_of(popped(old(self).stack@, i as nat)),
            decreases count - i,
        {
            let v = self.pop();
            proof {
                lemma_popped_next(old(self).stack@, i as nat);
            }
            if v.lt(least) {
                least = v;
            }
            i += 1;
        }
        least
    }

    /// Pops `count` numbers and keeps the largest, starting from the most
    /// negative finite number.
    fn pop_max(&mut self, count: usize) -> (greatest: Scalar)
        requires
            count <= old(self).stack@.len(),
        ensures
            final(self).chunk == old(self).chunk,
            final(self).ip == old(self).ip,
            final(self).stack@ == old(self).stack@.take(old(self).stack@.len() - count),
            greatest == max_of(popped(old(self).stack@, count as nat)),
    {
        let mut greatest = Scalar::new_min_finite();
        let mut i: usize = 0;
        while i < count
            invariant
                i <= count <= old(self).stack@.len(),
                self.chunk == old(self).chunk,
                self.ip == old(self).ip,
                self.stack@ == old(self).stack@.take(old(self).stack@.len() - i),
                greatest == max_of(popped(old(self).stack@, i as nat)),
            decreases count - i,
        {
            let v = self.pop();
            proof {
                lemma_popped_next(old(self).stack@, i as nat);
            }
            if v.gt(greatest) {
                greatest = v;
            }
            i += 1;
        }
        greatest
    }

    /// Pops `count` numbers and drops them.
    fn discard(&mut self, count: usize)
        requires
            count <= old(self).stack@.len(),
        ensures
            final(self).chunk == old(self).chunk,
            final(self).ip == old(self).ip,
            final(self).stack@ == old(self).stack@.take(old(self).stack@.len() - count),
    {
        let mut i: usize = 0;
        while i < count
            invariant
                i <= count <= old(self).stack@.len(),
                self.chunk == old(self).chunk,
                self.ip == old(self).ip,
                self.stack@ == old(self).stack@.take(old(self).stack@.len() - i),
            decreases count - i,
        {
            let _arg = self.pop();
            i += 1;
        }
    }
}

} // verus!
