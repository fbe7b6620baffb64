use vstd::prelude::*;

verus! {

/// A binary arithmetic operator.
#[derive(Debug, Copy, Clone, PartialEq, Eq, Structural)]
pub enum Operator {
    Add,
    Sub,
    Mul,
    Div,
}

/// The sign of a unary prefix expression.
#[derive(Debug, Copy, Clone, PartialEq, Eq, Structural)]
pub enum Sign {
    Positive,
    Negative,
}

impl Operator {
    pub open spec fn spec_symbol(self) -> char {
        match self {
            Operator::Add => '+',
            Operator::Sub => '-',
            Operator::Mul => '*',
            Operator::Div => '/',
        }
    }

    /// The character that writes this operator in source text.
    pub fn symbol(&self) -> (r: char)
        ensures
            r == self.spec_symbol(),
    {
        match self {
            Operator::Add => '+',
            Operator::Sub => '-',
            Operator::Mul => '*',
            Operator::Div => '/',
        }
    }
}

impl Sign {
    pub open spec fn spec_symbol(self) -> char {
        match self {
            Sign::Positive => '+',
            Sign::Negative => '-',
        }
    }

    /// The character that writes this sign in source text.
    pub fn symbol(&self) -> (r: char)
        ensures
            r == self.spec_symbol(),
    {
        match self {
            Sign::Positive => '+',
            Sign::Negative => '-',
        }
    }
}

/// An expression tree. A literal holds the IEEE-754 binary64 bit pattern of
/// its value.
#[derive(Debug, PartialEq)]
pub enum Node {
    Number(u64),
    UnaryExpr { op: Sign, child: Box<Node> },
    BinaryExpr { op: Operator, lhs: Box<Node>, rhs: Box<Node> },
}

impl Node {
    /// Number of literals in the tree.
    pub open spec fn literals(self) -> nat
        decreases self,
    {
        match self {
            Node::Number(_) => 1,
            Node::UnaryExpr { child, .. } => child.literals(),
            Node::BinaryExpr { lhs, rhs, .. } => lhs.literals() + rhs.literals(),
        }
    }

    /// Number of operator nodes (unary and binary) in the tree.
    pub open spec fn operators(self) -> nat
        decreases self,
    {
        match self {
            Node::Number(_) => 0,
            Node::UnaryExpr { child, .. } => 1 + child.operators(),
            Node::BinaryExpr { lhs, rhs, .. } => 1 + lhs.operators() + rhs.operators(),
        }
    }

    /// Depth of the tree: a literal has depth one.
    pub open spec fn depth(self) -> nat
        decreases self,
    {
        match self {
            Node::Number(_) => 1,
            Node::UnaryExpr { child, .. } => 1 + child.depth(),
            Node::BinaryExpr { lhs, rhs, .. } => 1 + if lhs.depth() >= rhs.depth() {
                lhs.depth()
            } else {
                rhs.depth()
            },
        }
    }

    /// Most evaluation-stack slots that evaluating the tree in post-order
    /// occupies at once.
    pub open spec fn stack_need(self) -> nat
        decreases self,
    {
        match self {
            Node::Number(_) => 1,
            Node::UnaryExpr { child, .. } => child.stack_need(),
            Node::BinaryExpr { lhs, rhs, .. } => if lhs.stack_need() >= 1 + rhs.stack_need() {
                lhs.stack_need()
            } else {
                1 + rhs.stack_need()
            },
        }
    }
}

/// A tree never needs more stack slots than its depth.
pub proof fn lemma_stack_need_le_depth(n: Node)
    ensures
        1 <= n.stack_need() <= n.depth(),
    decreases n,
{
    match n {
        Node::Number(_) => {},
        Node::UnaryExpr { child, .. } => lemma_stack_need_le_depth(*child),
        Node::BinaryExpr { lhs, rhs, .. } => {
            lemma_stack_need_le_depth(*lhs);
            lemma_stack_need_le_depth(*rhs);
        },
    }
}

} // verus!
