use vstd::prelude::*;

use crate::arith::negate;
use crate::ast::{Node, Operator, Sign};
use crate::bytecode::{binary_op, compile_node, compile_program, unary_op};
use crate::interpreter::eval;
use crate::opcode::{lemma_decode_encoded, OpCode};
use crate::vm::{empty_slots, exec_op, run_from, run_spec, STACK_SIZE};

verus! {

/// The stack storage after evaluating `n` with the stack pointer at `sp`.
pub open spec fn slots_after(
    n: Node,
    slots: Seq<u64>,
    sp: int,
    f: spec_fn(Operator, u64, u64) -> u64,
) -> Seq<u64>
    decreases n,
{
    match n {
        Node::Number(v) => slots.update(sp, v),
        Node::UnaryExpr { op, child } => {
            let s = slots_after(*child, slots, sp, f);
            match op {
                Sign::Positive => s,
                Sign::Negative => s.update(sp, negate(s[sp])),
            }
        },
        Node::BinaryExpr { op, lhs, rhs } => {
            let s1 = slots_after(*lhs, slots, sp, f);
            let s2 = slots_after(*rhs, s1, sp + 1, f);
            s2.update(sp, f(op, s2[sp], s2[sp + 1]))
        },
    }
}

proof fn lemma_split(code: Seq<u8>, at: int, a: Seq<u8>, b: Seq<u8>)
    requires
        0 <= at,
        at + a.len() + b.len() <= code.len(),
        code.subrange(at, at + a.len() + b.len()) == a + b,
    ensures
        code.subrange(at, at + a.len()) == a,
        code.subrange(at + a.len(), at + a.len() + b.len()) == b,
{
    let ab = a + b;
    assert forall|i: int| 0 <= i < a.len() implies code[at + i] == a[i] by {
        assert(code[at + i] == code.subrange(at, at + a.len() + b.len())[i]);
        assert(ab[i] == a[i]);
    }
    assert forall|i: int| 0 <= i < b.len() implies code[at + a.len() + i] == b[i] by {
        assert(code[at + a.len() + i] == code.subrange(at, at + a.len() + b.len())[a.len() + i]);
        assert(ab[a.len() + i] == b[i]);
    }
    assert(code.subrange(at, at + a.len()) =~= a);
    assert(code.subrange(at + a.len(), at + a.len() + b.len()) =~= b);
}

proof fn lemma_width(op: OpCode)
    ensures
        op.spec_bytes().len() == op.width(),
{
}

/// Running the code of one tree, wherever it stands in a stream, pushes the
/// tree's value and leaves the slots beneath untouched.
proof fn lemma_run_node(
    code: Seq<u8>,
    ip: int,
    n: Node,
    slots: Seq<u64>,
    sp: int,
    f: spec_fn(Operator, u64, u64) -> u64,
)
    requires
        0 <= ip,
        ip + compile_node(n).len() <= code.len(),
        code.subrange(ip, ip + compile_node(n).len()) == compile_node(n),
        0 <= sp,
        sp + n.stack_need() <= slots.len(),
    ensures
        run_from(code, ip, slots, sp, f) == run_from(
            code,
            ip + compile_node(n).len(),
            slots_after(n, slots, sp, f),
            sp + 1,
            f,
        ),
        slots_after(n, slots, sp, f).len() == slots.len(),
        slots_after(n, slots, sp, f)[sp] == eval(n, f),
        forall|i: int| 0 <= i < sp ==> slots_after(n, slots, sp, f)[i] == slots[i],
    decreases n,
{
    match n {
        Node::Number(v) => {
            let op = OpCode::OpConstant(v);
            lemma_width(op);
            lemma_decode_encoded(code, ip, op);
            assert(n.stack_need() == 1);
            assert(slots_after(n, slots, sp, f) == slots.update(sp, v));
        },
        Node::UnaryExpr { op, child } => {
            let c = compile_node(*child);
            let u = unary_op(op);
            lemma_width(u);
            lemma_split(code, ip, c, u.spec_bytes());
            lemma_run_node(code, ip, *child, slots, sp, f);
            crate::ast::lemma_stack_need_le_depth(*child);
            let s = slots_after(*child, slots, sp, f);
            lemma_decode_encoded(code, ip + c.len(), u);
            if op == Sign::Positive {
                assert(exec_op(u, s, sp + 1, f) == Ok::<(Seq<u64>, int), crate::vm::VmError>((s, sp + 1)));
            }
        },
        Node::BinaryExpr { op, lhs, rhs } => {
            let cl = compile_node(*lhs);
            let cr = compile_node(*rhs);
            let b = binary_op(op);
            lemma_width(b);
            lemma_split(code, ip, cl + cr, b.spec_bytes());
            lemma_split(code, ip, cl, cr);
            lemma_run_node(code, ip, *lhs, slots, sp, f);
            let s1 = slots_after(*lhs, slots, sp, f);
            lemma_run_node(code, ip + cl.len(), *rhs, s1, sp + 1, f);
            let s2 = slots_after(*rhs, s1, sp + 1, f);
            lemma_decode_encoded(code, ip + cl.len() + cr.len(), b);
            assert(s2[sp] == s1[sp]);
        },
    }
}

/// Running the code of a sequence of trees from an empty stack leaves the
/// stack empty and, if there was a tree, the last tree's value in the bottom
/// slot.
proof fn lemma_run_program(
    code: Seq<u8>,
    nodes: Seq<Node>,
    slots: Seq<u64>,
    f: spec_fn(Operator, u64, u64) -> u64,
) -> (end: Seq<u64>)
    requires
        compile_program(nodes).len() <= code.len(),
        code.subrange(0, compile_program(nodes).len() as int) == compile_program(nodes),
        slots.len() >= 1,
        forall|i: int| 0 <= i < nodes.len() ==> #[trigger] nodes[i].stack_need() <= slots.len(),
    ensures
        run_from(code, 0, slots, 0, f) == run_from(code, compile_program(nodes).len() as int, end, 0, f),
        end.len() == slots.len(),
        nodes.len() > 0 ==> end[0] == eval(nodes.last(), f),
    decreases nodes.len(),
{
    if nodes.len() == 0 {
        slots
    } else {
        let init = nodes.drop_last();
        let last = nodes.last();
        let p = compile_program(init);
        let c = compile_node(last);
        let pop = OpCode::OpPop;
        lemma_width(pop);
        lemma_split(code, 0, p + c, pop.spec_bytes());
        lemma_split(code, 0, p, c);
        assert forall|i: int| 0 <= i < init.len() implies #[trigger] init[i].stack_need() <= slots.len() by {
            assert(init[i] == nodes[i]);
        }
        let mid = lemma_run_program(code, init, slots, f);
        assert(last == nodes[nodes.len() - 1]);
        lemma_run_node(code, p.len() as int, last, mid, 0, f);
        let s = slots_after(last, mid, 0, f);
        lemma_decode_encoded(code, (p.len() + c.len()) as int, pop);
        s
    }
}

/// Executing the compiled code of a tree yields the value that evaluating the
/// tree directly gives, when the tree fits the stack (any tree no deeper than
/// the stack has slots does).
pub proof fn vm_agrees_with_eval(n: Node, f: spec_fn(Operator, u64, u64) -> u64)
    requires
        n.stack_need() <= STACK_SIZE,
    ensures
        run_spec(compile_program(seq![n]), f) is Ok,
        run_spec(compile_program(seq![n]), f)->Ok_0.1 == 0,
        run_spec(compile_program(seq![n]), f)->Ok_0.0[0] == eval(n, f),
{
    program_leaves_last_value(seq![n], f);
}

/// Executing the compiled code of a sequence of trees runs each in turn: the
/// stack ends empty, with the last tree's value in the slot a result is read
/// from.
pub proof fn program_leaves_last_value(nodes: Seq<Node>, f: spec_fn(Operator, u64, u64) -> u64)
    requires
        nodes.len() > 0,
        forall|i: int| 0 <= i < nodes.len() ==> #[trigger] nodes[i].stack_need() <= STACK_SIZE,
    ensures
        run_spec(compile_program(nodes), f) is Ok,
        run_spec(compile_program(nodes), f)->Ok_0.1 == 0,
        run_spec(compile_program(nodes), f)->Ok_0.0[0] == eval(nodes.last(), f),
{
    let code = compile_program(nodes);
    assert(code.subrange(0, code.len() as int) =~= code);
    lemma_run_program(code, nodes, empty_slots(), f);
}

/// A tree no deeper than the stack has slots fits it.
pub proof fn shallow_tree_fits_stack(n: Node)
    requires
        n.depth() <= STACK_SIZE,
    ensures
        n.stack_need() <= STACK_SIZE,
{
    crate::ast::lemma_stack_need_le_depth(n);
}

/// Compiling the same trees twice gives the same bytes.
pub proof fn compile_is_deterministic(a: Seq<Node>, b: Seq<Node>)
    requires
        a == b,
    ensures
        compile_program(a) == compile_program(b),
{
}

/// The code of a sequence of trees is the code of its first part followed by
/// the code of the rest: each expression keeps its own discard-terminated
/// group.
pub proof fn program_code_concatenates(a: Seq<Node>, b: Seq<Node>)
    ensures
        compile_program(a + b) == compile_program(a) + compile_program(b),
    decreases b.len(),
{
    if b.len() == 0 {
        assert(a + b =~= a);
        assert(compile_program(a) + compile_program(b) =~= compile_program(a));
    } else {
        program_code_concatenates(a, b.drop_last());
        assert((a + b).drop_last() =~= a + b.drop_last());
        assert((a + b).last() == b.last());
        let pa = compile_program(a);
        let pb = compile_program(b.drop_last());
        assert(pa + pb + compile_node(b.last()) + OpCode::OpPop.spec_bytes() =~= pa + (pb
            + compile_node(b.last()) + OpCode::OpPop.spec_bytes()));
    }
}

/// A tree's code takes nine bytes per literal and one per operator.
pub proof fn compiled_length(n: Node)
    ensures
        compile_node(n).len() == 9 * n.literals() + n.operators(),
    decreases n,
{
    match n {
        Node::Number(v) => {},
        Node::UnaryExpr { op, child } => {
            compiled_length(*child);
            lemma_width(unary_op(op));
        },
        Node::BinaryExpr { op, lhs, rhs } => {
            compiled_length(*lhs);
            compiled_length(*rhs);
            lemma_width(binary_op(op));
        },
    }
}

/// A program's code is its trees' code plus one discard byte per tree.
pub proof fn program_length(nodes: Seq<Node>)
    ensures
        compile_program(nodes).len() == nodes.len() + nodes.fold_left(
            0int,
            |acc: int, n: Node| acc + compile_node(n).len(),
        ),
    decreases nodes.len(),
{
    if nodes.len() > 0 {
        program_length(nodes.drop_last());
    }
}

} // verus!
