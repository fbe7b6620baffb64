use vstd::prelude::*;

use crate::ast::Operator;

verus! {

/// Bit pattern of the sign bit of an IEEE-754 binary64 value.
pub const SIGN_BIT: u64 = 0x8000_0000_0000_0000;

/// Negation of a binary64 value given by its bits: the sign bit flips and
/// nothing else changes (this is what IEEE-754 negation does, NaN included).
pub open spec fn negate(bits: u64) -> u64 {
    bits ^ SIGN_BIT
}

/// Executable negation of a binary64 bit pattern.
pub fn negate_bits(bits: u64) -> (r: u64)
    ensures
        r == negate(bits),
{
    bits ^ SIGN_BIT
}

/// A caller-supplied binary arithmetic function on bit patterns is usable when
/// it accepts every input and returns one value for each input.
pub open spec fn functional<F: Fn(Operator, u64, u64) -> u64>(alu: F) -> bool {
    &&& forall|op: Operator, lhs: u64, rhs: u64| #[trigger] alu.requires((op, lhs, rhs))
    &&& forall|op: Operator, lhs: u64, rhs: u64, r1: u64, r2: u64|
        #[trigger] alu.ensures((op, lhs, rhs), r1) && #[trigger] alu.ensures((op, lhs, rhs), r2)
            ==> r1 == r2
}

/// The mathematical function that a functional arithmetic closure computes.
pub open spec fn meaning<F: Fn(Operator, u64, u64) -> u64>(alu: F) -> spec_fn(Operator, u64, u64) -> u64 {
    |op: Operator, lhs: u64, rhs: u64| choose|r: u64| alu.ensures((op, lhs, rhs), r)
}

/// A result returned by a functional closure is the value of its meaning.
pub proof fn lemma_meaning<F: Fn(Operator, u64, u64) -> u64>(alu: F, op: Operator, lhs: u64, rhs: u64, r: u64)
    requires
        functional(alu),
        alu.ensures((op, lhs, rhs), r),
    ensures
        meaning(alu)(op, lhs, rhs) == r,
{
    let c = choose|c: u64| alu.ensures((op, lhs, rhs), c);
    assert(alu.ensures((op, lhs, rhs), c));
}

/// Applies the caller's arithmetic, returning the value of its meaning.
pub fn apply<F: Fn(Operator, u64, u64) -> u64>(alu: &F, op: Operator, lhs: u64, rhs: u64) -> (r: u64)
    requires
        functional(*alu),
    ensures
        r == meaning(*alu)(op, lhs, rhs),
{
    let r = alu(op, lhs, rhs);
    proof {
        lemma_meaning(*alu, op, lhs, rhs, r);
    }
    r
}

} // verus!
