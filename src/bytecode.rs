use vstd::prelude::*;

use crate::ast::{Node, Operator, Sign};
use crate::opcode::{read_be, OpCode};
use crate::parser::{literal_functional, literal_meaning, parse, parse_spec, ParseError};
use vstd::string::StringSliceAdditionalSpecFns;

verus! {

/// A compiled instruction stream.
#[derive(Debug, PartialEq, Eq)]
pub struct Bytecode {
    pub instructions: Vec<u8>,
}

/// The instruction that applies a binary operator.
pub open spec fn binary_op(op: Operator) -> OpCode {
    match op {
        Operator::Add => OpCode::OpAdd,
        Operator::Sub => OpCode::OpSub,
        Operator::Mul => OpCode::OpMul,
        Operator::Div => OpCode::OpDiv,
    }
}

/// The instruction that applies a unary sign.
pub open spec fn unary_op(sign: Sign) -> OpCode {
    match sign {
        Sign::Positive => OpCode::OpPlus,
        Sign::Negative => OpCode::OpMinus,
    }
}

/// Post-order encoding of a tree: operands first, then the operator.
pub open spec fn compile_node(n: Node) -> Seq<u8>
    decreases n,
{
    match n {
        Node::Number(v) => OpCode::OpConstant(v).spec_bytes(),
        Node::UnaryExpr { op, child } => compile_node(*child) + unary_op(op).spec_bytes(),
        Node::BinaryExpr { op, lhs, rhs } => compile_node(*lhs) + compile_node(*rhs) + binary_op(
            op,
        ).spec_bytes(),
    }
}

/// Encoding of a sequence of top-level expressions: each one's code followed
/// by a discard.
pub open spec fn compile_program(nodes: Seq<Node>) -> Seq<u8>
    decreases nodes.len(),
{
    if nodes.len() == 0 {
        Seq::empty()
    } else {
        compile_program(nodes.drop_last()) + compile_node(nodes.last()) + OpCode::OpPop.spec_bytes()
    }
}

impl Bytecode {
    /// An empty stream.
    pub fn new() -> (r: Self)
        ensures
            r.instructions@ == Seq::<u8>::empty(),
    {
        Self { instructions: Vec::new() }
    }

    /// The constant stored in the eight bytes from `position` on, and the
    /// position just past them.
    pub fn bytes_to_constants(&self, position: usize) -> (r: (u64, usize))
        requires
            position + 8 <= self.instructions@.len(),
        ensures
            r.0 == read_be(self.instructions@, position as int),
            r.1 == position + 8,
    {
        let n: usize = self.instructions.len();
        assert(position + 8 <= n);
        let v = crate::opcode::decode_be(&self.instructions, position);
        (v, position + 8)
    }
}

/// Compiles expression trees into a byte stream.
#[derive(Debug)]
pub struct Interpreter {
    bytecode: Bytecode,
}

impl Interpreter {
    /// The bytes emitted so far.
    pub closed spec fn emitted(&self) -> Seq<u8> {
        self.bytecode.instructions@
    }

    /// A compiler that has emitted nothing.
    pub fn new() -> (r: Self)
        ensures
            r.emitted() == Seq::<u8>::empty(),
    {
        Self { bytecode: Bytecode::new() }
    }

    fn add_instructions(&mut self, opcode: OpCode)
        ensures
            final(self).emitted() == old(self).emitted() + opcode.spec_bytes(),
    {
        let mut b = opcode.bytes();
        self.bytecode.instructions.append(&mut b);
    }

    fn eval_node(&mut self, n: &Node)
        ensures
            final(self).emitted() == old(self).emitted() + compile_node(*n),
        decreases n,
    {
        match n {
            Node::Number(v) => self.add_instructions(OpCode::OpConstant(*v)),
            Node::UnaryExpr { op, child } => {
                self.eval_node(child);
                match op {
                    Sign::Positive => self.add_instructions(OpCode::OpPlus),
                    Sign::Negative => self.add_instructions(OpCode::OpMinus),
                }
            },
            Node::BinaryExpr { op, lhs, rhs } => {
                self.eval_node(lhs);
                self.eval_node(rhs);
                match op {
                    Operator::Add => self.add_instructions(OpCode::OpAdd),
                    Operator::Sub => self.add_instructions(OpCode::OpSub),
                    Operator::Mul => self.add_instructions(OpCode::OpMul),
                    Operator::Div => self.add_instructions(OpCode::OpDiv),
                }
            },
        }
        assert(final(self).emitted() =~= old(self).emitted() + compile_node(*n));
    }

    /// Compiles each tree in order, ending each one's code with a discard.
    pub fn from_ast(ast: &Vec<Node>) -> (r: Bytecode)
        ensures
            r.instructions@ == compile_program(ast@),
    {
        let mut interpreter = Interpreter::new();
        let mut i: usize = 0;
        while i < ast.len()
            invariant
                i <= ast@.len(),
                interpreter.emitted() == compile_program(ast@.subrange(0, i as int)),
            decreases ast@.len() - i,
        {
            interpreter.eval_node(&ast[i]);
            interpreter.add_instructions(OpCode::OpPop);
            proof {
                let next = ast@.subrange(0, i + 1);
                assert(next.drop_last() =~= ast@.subrange(0, i as int));
            }
            i = i + 1;
        }
        assert(ast@.subrange(0, ast@.len() as int) =~= ast@);
        interpreter.bytecode
    }

    /// Parses the source and compiles its expressions.
    pub fn from_source<L: Fn(Vec<u8>) -> u64>(source: &str, lit: &L) -> (r: Result<Bytecode, ParseError>)
        requires
            literal_functional(*lit),
        ensures
            match parse_spec(source.spec_bytes(), literal_meaning(*lit)) {
                Ok(nodes) => r is Ok && r->Ok_0.instructions@ == compile_program(nodes),
                Err(e) => r == Err::<Bytecode, ParseError>(e),
            },
    {
        match parse(source, lit) {
            Ok(ast) => Ok(Interpreter::from_ast(&ast)),
            Err(e) => Err(e),
        }
    }
}

} // verus!
