use vstd::prelude::*;

use crate::arith::{apply, functional, meaning, negate, negate_bits};
use crate::ast::Operator;
use crate::bytecode::Bytecode;
use crate::opcode::{decode, decode_spec, OpCode};

verus! {

/// Number of slots of the evaluation stack.
pub const STACK_SIZE: usize = 512;

/// Why a run stopped before the end of the stream.
#[derive(Debug, Copy, Clone, PartialEq, Eq, Structural)]
pub enum VmError {
    /// A tag outside the instruction set, or a constant cut short.
    UnknownInstruction,
    /// A push onto a full stack.
    StackOverflow,
    /// A pop from an empty stack.
    StackUnderflow,
}

/// The stack storage a machine starts with: every slot zero.
pub open spec fn empty_slots() -> Seq<u64> {
    Seq::new(STACK_SIZE as nat, |i: int| 0u64)
}

/// Applies a binary operator to the two topmost slots: the left operand lies
/// beneath the right one. The slot of the right operand keeps its value.
pub open spec fn exec_binary(
    op: Operator,
    slots: Seq<u64>,
    sp: int,
    f: spec_fn(Operator, u64, u64) -> u64,
) -> Result<(Seq<u64>, int), VmError> {
    if sp >= 2 {
        Ok((slots.update(sp - 2, f(op, slots[sp - 2], slots[sp - 1])), sp - 1))
    } else {
        Err(VmError::StackUnderflow)
    }
}

/// The storage and stack pointer after one instruction. A pop only moves the
/// pointer: the popped value stays in its slot.
pub open spec fn exec_op(
    op: OpCode,
    slots: Seq<u64>,
    sp: int,
    f: spec_fn(Operator, u64, u64) -> u64,
) -> Result<(Seq<u64>, int), VmError> {
    match op {
        OpCode::OpConstant(v) => if sp < slots.len() {
            Ok((slots.update(sp, v), sp + 1))
        } else {
            Err(VmError::StackOverflow)
        },
        OpCode::OpPop => if sp >= 1 {
            Ok((slots, sp - 1))
        } else {
            Err(VmError::StackUnderflow)
        },
        OpCode::OpAdd => exec_binary(Operator::Add, slots, sp, f),
        OpCode::OpSub => exec_binary(Operator::Sub, slots, sp, f),
        OpCode::OpMul => exec_binary(Operator::Mul, slots, sp, f),
        OpCode::OpDiv => exec_binary(Operator::Div, slots, sp, f),
        OpCode::OpPlus => if sp >= 1 {
            Ok((slots, sp))
        } else {
            Err(VmError::StackUnderflow)
        },
        OpCode::OpMinus => if sp >= 1 {
            Ok((slots.update(sp - 1, negate(slots[sp - 1])), sp))
        } else {
            Err(VmError::StackUnderflow)
        },
    }
}

/// Runs the stream from instruction pointer `ip` to its end.
pub open spec fn run_from(
    code: Seq<u8>,
    ip: int,
    slots: Seq<u64>,
    sp: int,
    f: spec_fn(Operator, u64, u64) -> u64,
) -> Result<(Seq<u64>, int), VmError>
    decreases code.len() - ip,
{
    if ip < 0 || ip >= code.len() {
        Ok((slots, sp))
    } else {
        match decode_spec(code, ip) {
            None => Err(VmError::UnknownInstruction),
            Some(op) => match exec_op(op, slots, sp, f) {
                Err(e) => Err(e),
                Ok(next) => run_from(code, ip + op.width(), next.0, next.1, f),
            },
        }
    }
}

/// The outcome of running a stream on a fresh machine.
pub open spec fn run_spec(code: Seq<u8>, f: spec_fn(Operator, u64, u64) -> u64) -> Result<
    (Seq<u64>, int),
    VmError,
> {
    run_from(code, 0, empty_slots(), 0, f)
}

/// A stack machine that executes one instruction stream.
pub struct VM {
    bytecode: Bytecode,
    stack: Vec<u64>,
    stack_ptr: usize,
}

impl VM {
    /// The stream being executed.
    pub closed spec fn code(&self) -> Seq<u8> {
        self.bytecode.instructions@
    }

    /// The stack storage, including slots above the stack pointer.
    pub closed spec fn slots(&self) -> Seq<u64> {
        self.stack@
    }

    /// The index of the next free slot.
    pub closed spec fn sp(&self) -> int {
        self.stack_ptr as int
    }

    pub open spec fn wf(&self) -> bool {
        &&& self.slots().len() == STACK_SIZE
        &&& 0 <= self.sp() <= STACK_SIZE
    }

    /// A machine at the start of `bytecode`, with an empty stack.
    pub fn new(bytecode: Bytecode) -> (r: Self)
        ensures
            r.wf(),
            r.code() == bytecode.instructions@,
            r.slots() == empty_slots(),
            r.sp() == 0,
    {
        let mut stack: Vec<u64> = Vec::new();
        while stack.len() < STACK_SIZE
            invariant
                stack@.len() <= STACK_SIZE,
                forall|i: int| 0 <= i < stack@.len() ==> stack@[i] == 0u64,
            decreases STACK_SIZE - stack@.len(),
        {
            stack.push(0);
        }
        assert(stack@ =~= empty_slots());
        Self { bytecode, stack, stack_ptr: 0 }
    }

    fn push(&mut self, v: u64) -> (r: Result<(), VmError>)
        requires
            old(self).wf(),
        ensures
            final(self).wf(),
            final(self).code() == old(self).code(),
            old(self).sp() < STACK_SIZE ==> r is Ok && final(self).slots() == old(self).slots().update(
                old(self).sp(),
                v,
            ) && final(self).sp() == old(self).sp() + 1,
            old(self).sp() >= STACK_SIZE ==> r == Err::<(), VmError>(VmError::StackOverflow),
    {
        if self.stack_ptr >= STACK_SIZE {
            return Err(VmError::StackOverflow);
        }
        self.stack.set(self.stack_ptr, v);
        self.stack_ptr = self.stack_ptr + 1;
        Ok(())
    }

    /// Moves the stack pointer down one slot; the slot keeps its value.
    fn pop(&mut self) -> (r: Result<u64, VmError>)
        requires
            old(self).wf(),
        ensures
            final(self).wf(),
            final(self).code() == old(self).code(),
            final(self).slots() == old(self).slots(),
            old(self).sp() >= 1 ==> r == Ok::<u64, VmError>(old(self).slots()[old(self).sp() - 1])
                && final(self).sp() == old(self).sp() - 1,
            old(self).sp() < 1 ==> r == Err::<u64, VmError>(VmError::StackUnderflow),
    {
        if self.stack_ptr == 0 {
            return Err(VmError::StackUnderflow);
        }
        self.stack_ptr = self.stack_ptr - 1;
        Ok(self.stack[self.stack_ptr])
    }

    fn binary<F: Fn(Operator, u64, u64) -> u64>(&mut self, op: Operator, alu: &F) -> (r: Result<
        (),
        VmError,
    >)
        requires
            old(self).wf(),
            functional(*alu),
        ensures
            final(self).wf(),
            final(self).code() == old(self).code(),
            match exec_binary(op, old(self).slots(), old(self).sp(), meaning(*alu)) {
                Ok(next) => r is Ok && final(self).slots() == next.0 && final(self).sp() == next.1,
                Err(e) => r == Err::<(), VmError>(e),
            },
    {
        let rhs = match self.pop() {
            Ok(v) => v,
            Err(e) => return Err(e),
        };
        let lhs = match self.pop() {
            Ok(v) => v,
            Err(e) => return Err(e),
        };
        let v = apply(alu, op, lhs, rhs);
        self.push(v)
    }

    fn step<F: Fn(Operator, u64, u64) -> u64>(&mut self, op: OpCode, alu: &F) -> (r: Result<
        (),
        VmError,
    >)
        requires
            old(self).wf(),
            functional(*alu),
        ensures
            final(self).wf(),
            final(self).code() == old(self).code(),
            match exec_op(op, old(self).slots(), old(self).sp(), meaning(*alu)) {
                Ok(next) => r is Ok && final(self).slots() == next.0 && final(self).sp() == next.1,
                Err(e) => r == Err::<(), VmError>(e),
            },
    {
        match op {
            OpCode::OpConstant(v) => self.push(v),
            OpCode::OpPop => match self.pop() {
                Ok(_) => Ok(()),
                Err(e) => Err(e),
            },
            OpCode::OpAdd => self.binary(Operator::Add, alu),
            OpCode::OpSub => self.binary(Operator::Sub, alu),
            OpCode::OpMul => self.binary(Operator::Mul, alu),
            OpCode::OpDiv => self.binary(Operator::Div, alu),
            OpCode::OpPlus => {
                let ghost before = self.slots();
                match self.pop() {
                    Ok(v) => {
                        let r = self.push(v);
                        assert(self.slots() =~= before);
                        r
                    },
                    Err(e) => Err(e),
                }
            },
            OpCode::OpMinus => match self.pop() {
                Ok(v) => self.push(negate_bits(v)),
                Err(e) => Err(e),
            },
        }
    }

    /// Executes the stream from its start to its end, with `alu` giving the
    /// binary operations. Stops at the first instruction that cannot be
    /// decoded or would overflow or underflow the stack.
    pub fn run<F: Fn(Operator, u64, u64) -> u64>(&mut self, alu: &F) -> (r: Result<(), VmError>)
        requires
            old(self).wf(),
            functional(*alu),
        ensures
            final(self).wf(),
            final(self).code() == old(self).code(),
            match run_from(old(self).code(), 0, old(self).slots(), old(self).sp(), meaning(*alu)) {
                Ok(end) => r is Ok && final(self).slots() == end.0 && final(self).sp() == end.1,
                Err(e) => r == Err::<(), VmError>(e),
            },
    {
        let ghost total = run_from(old(self).code(), 0, old(self).slots(), old(self).sp(), meaning(*alu));
        let mut ip: usize = 0;
        while ip < self.bytecode.instructions.len()
            invariant
                self.wf(),
                functional(*alu),
                self.code() == old(self).code(),
                ip <= self.code().len(),
                total == run_from(self.code(), ip as int, self.slots(), self.sp(), meaning(*alu)),
                total == run_from(old(self).code(), 0, old(self).slots(), old(self).sp(), meaning(*alu)),
            decreases self.code().len() - ip,
        {
            let op = match decode(&self.bytecode.instructions, ip) {
                Some(op) => op,
                None => {
                    assert(total == Err::<(Seq<u64>, int), VmError>(VmError::UnknownInstruction));
                    return Err(VmError::UnknownInstruction);
                },
            };
            let ghost before_slots = self.slots();
            let ghost before_sp = self.sp();
            match self.step(op, alu) {
                Ok(()) => {},
                Err(e) => {
                    assert(exec_op(op, before_slots, before_sp, meaning(*alu)) == Err::<(Seq<u64>, int), VmError>(e));
                    assert(total == Err::<(Seq<u64>, int), VmError>(e));
                    return Err(e);
                },
            }
            ip = match op {
                OpCode::OpConstant(_) => ip + 9,
                _ => ip + 1,
            };
        }
        Ok(())
    }

    /// The most recently popped value: the slot at the stack pointer, which a
    /// pop leaves in place. `None` when the stack is full.
    pub fn pop_last(&self) -> (r: Option<&u64>)
        requires
            self.wf(),
        ensures
            self.sp() < STACK_SIZE ==> r == Some(&self.slots()[self.sp()]),
            self.sp() >= STACK_SIZE ==> r is None,
    {
        if self.stack_ptr < STACK_SIZE {
            Some(&self.stack[self.stack_ptr])
        } else {
            None
        }
    }

    /// The result of the last evaluated expression: the value its discard
    /// popped. `None` when the stack is full.
    pub fn get_result(&self) -> (r: Option<u64>)
        requires
            self.wf(),
        ensures
            self.sp() < STACK_SIZE ==> r == Some(self.slots()[self.sp()]),
            self.sp() >= STACK_SIZE ==> r is None,
    {
        match self.pop_last() {
            Some(v) => Some(*v),
            None => None,
        }
    }
}

} // verus!
