use vstd::prelude::*;

use crate::arith::{apply, functional, meaning, negate, negate_bits};
use crate::ast::{Node, Operator, Sign};
use crate::parser::{literal_functional, literal_meaning, parse, parse_spec, ParseError};
use vstd::string::StringSliceAdditionalSpecFns;

verus! {

/// The value of a tree, with `f` giving the binary operations on bit patterns.
pub open spec fn eval(n: Node, f: spec_fn(Operator, u64, u64) -> u64) -> u64
    decreases n,
{
    match n {
        Node::Number(v) => v,
        Node::UnaryExpr { op, child } => match op {
            Sign::Positive => eval(*child, f),
            Sign::Negative => negate(eval(*child, f)),
        },
        Node::BinaryExpr { op, lhs, rhs } => f(op, eval(*lhs, f), eval(*rhs, f)),
    }
}

/// The sum, under `f`'s addition and starting from positive zero, of the
/// values of the trees in order.
pub open spec fn eval_sum(nodes: Seq<Node>, f: spec_fn(Operator, u64, u64) -> u64) -> u64
    decreases nodes.len(),
{
    if nodes.len() == 0 {
        0
    } else {
        f(Operator::Add, eval_sum(nodes.drop_last(), f), eval(nodes.last(), f))
    }
}

/// Evaluates a tree directly, by recursion over it.
pub struct Eval;

impl Eval {
    pub fn new() -> (r: Self) {
        Self
    }

    /// The value of the tree, left operand before right.
    pub fn eval<F: Fn(Operator, u64, u64) -> u64>(&self, node: &Node, alu: &F) -> (r: u64)
        requires
            functional(*alu),
        ensures
            r == eval(*node, meaning(*alu)),
        decreases node,
    {
        match node {
            Node::Number(n) => *n,
            Node::UnaryExpr { op, child } => {
                let child = self.eval(child, alu);
                match op {
                    Sign::Positive => child,
                    Sign::Negative => negate_bits(child),
                }
            },
            Node::BinaryExpr { op, lhs, rhs } => {
                let lhs_ret = self.eval(lhs, alu);
                let rhs_ret = self.eval(rhs, alu);
                apply(alu, *op, lhs_ret, rhs_ret)
            },
        }
    }
}

/// Evaluates a program by walking its trees.
pub struct Interpreter;

impl Interpreter {
    /// The sum of the values of the trees, starting from positive zero.
    pub fn from_ast<F: Fn(Operator, u64, u64) -> u64>(ast: &Vec<Node>, alu: &F) -> (r: u64)
        requires
            functional(*alu),
        ensures
            r == eval_sum(ast@, meaning(*alu)),
    {
        let mut ret: u64 = 0;
        let evaluator = Eval::new();
        let mut i: usize = 0;
        while i < ast.len()
            invariant
                functional(*alu),
                i <= ast@.len(),
                ret == eval_sum(ast@.subrange(0, i as int), meaning(*alu)),
            decreases ast@.len() - i,
        {
            let v = evaluator.eval(&ast[i], alu);
            ret = apply(alu, Operator::Add, ret, v);
            proof {
                assert(ast@.subrange(0, i + 1).drop_last() =~= ast@.subrange(0, i as int));
            }
            i = i + 1;
        }
        assert(ast@.subrange(0, ast@.len() as int) =~= ast@);
        ret
    }

    /// Parses the source and evaluates its expressions, returning the sum of
    /// their values.
    pub fn from_source<L: Fn(Vec<u8>) -> u64, F: Fn(Operator, u64, u64) -> u64>(
        source: &str,
        lit: &L,
        alu: &F,
    ) -> (r: Result<u64, ParseError>)
        requires
            literal_functional(*lit),
            functional(*alu),
        ensures
            match parse_spec(source.spec_bytes(), literal_meaning(*lit)) {
                Ok(nodes) => r == Ok::<u64, ParseError>(eval_sum(nodes, meaning(*alu))),
                Err(e) => r == Err::<u64, ParseError>(e),
            },
    {
        match parse(source, lit) {
            Ok(ast) => Ok(Interpreter::from_ast(&ast, alu)),
            Err(e) => Err(e),
        }
    }
}

} // verus!
