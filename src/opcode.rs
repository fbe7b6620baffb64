use vstd::prelude::*;

verus! {

/// One instruction of the virtual machine. A constant holds the IEEE-754
/// binary64 bit pattern of the value it loads.
#[derive(Debug, Copy, Clone, PartialEq, Eq, Structural)]
pub enum OpCode {
    OpConstant(u64),
    OpPop,
    OpAdd,
    OpSub,
    OpMul,
    OpDiv,
    OpPlus,
    OpMinus,
}

pub const TAG_CONSTANT: u8 = 0x01;
pub const TAG_POP: u8 = 0x02;
pub const TAG_ADD: u8 = 0x03;
pub const TAG_SUB: u8 = 0x04;
pub const TAG_MUL: u8 = 0x05;
pub const TAG_DIV: u8 = 0x06;
pub const TAG_PLUS: u8 = 0x0A;
pub const TAG_MINUS: u8 = 0x0B;

/// The eight bytes of `v`, most significant first.
pub open spec fn be_bytes(v: u64) -> Seq<u8> {
    seq![
        (v >> 56u64) as u8,
        (v >> 48u64) as u8,
        (v >> 40u64) as u8,
        (v >> 32u64) as u8,
        (v >> 24u64) as u8,
        (v >> 16u64) as u8,
        (v >> 8u64) as u8,
        v as u8,
    ]
}

/// The integer whose big-endian bytes are `b0` (most significant) to `b7`.
pub open spec fn from_be(b0: u8, b1: u8, b2: u8, b3: u8, b4: u8, b5: u8, b6: u8, b7: u8) -> u64 {
    (b0 as u64) << 56u64 | (b1 as u64) << 48u64 | (b2 as u64) << 40u64 | (b3 as u64) << 32u64
        | (b4 as u64) << 24u64 | (b5 as u64) << 16u64 | (b6 as u64) << 8u64 | (b7 as u64)
}

/// The integer stored big-endian in the eight bytes of `s` from `at` on.
pub open spec fn read_be(s: Seq<u8>, at: int) -> u64 {
    from_be(s[at], s[at + 1], s[at + 2], s[at + 3], s[at + 4], s[at + 5], s[at + 6], s[at + 7])
}

/// Reading back the eight bytes of a value gives the value.
pub proof fn lemma_be_round_trip(v: u64)
    ensures
        read_be(be_bytes(v), 0) == v,
{
    let b = be_bytes(v);
    assert(from_be(
        (v >> 56u64) as u8,
        (v >> 48u64) as u8,
        (v >> 40u64) as u8,
        (v >> 32u64) as u8,
        (v >> 24u64) as u8,
        (v >> 16u64) as u8,
        (v >> 8u64) as u8,
        v as u8,
    ) == v) by (bit_vector);
}

/// Decodes eight bytes, most significant first.
pub fn decode_be(s: &Vec<u8>, at: usize) -> (r: u64)
    requires
        at + 8 <= s@.len(),
    ensures
        r == read_be(s@, at as int),
{
    let n: usize = s.len();
    assert(at + 8 <= n);
    let b0 = s[at];
    let b1 = s[at + 1];
    let b2 = s[at + 2];
    let b3 = s[at + 3];
    let b4 = s[at + 4];
    let b5 = s[at + 5];
    let b6 = s[at + 6];
    let b7 = s[at + 7];
    let r = b0 as u64 * 0x0100_0000_0000_0000 + b1 as u64 * 0x0001_0000_0000_0000
        + b2 as u64 * 0x0000_0100_0000_0000 + b3 as u64 * 0x0000_0001_0000_0000
        + b4 as u64 * 0x0000_0000_0100_0000 + b5 as u64 * 0x0000_0000_0001_0000
        + b6 as u64 * 0x0000_0000_0000_0100 + b7 as u64;
    assert(r == from_be(b0, b1, b2, b3, b4, b5, b6, b7)) by (bit_vector)
        requires
            r == b0 as u64 * 0x0100_0000_0000_0000 + b1 as u64 * 0x0001_0000_0000_0000
                + b2 as u64 * 0x0000_0100_0000_0000 + b3 as u64 * 0x0000_0001_0000_0000
                + b4 as u64 * 0x0000_0000_0100_0000 + b5 as u64 * 0x0000_0000_0001_0000
                + b6 as u64 * 0x0000_0000_0000_0100 + b7 as u64,
    ;
    r
}

impl OpCode {
    /// The one-byte tag that starts this instruction.
    pub open spec fn tag(self) -> u8 {
        match self {
            OpCode::OpConstant(_) => TAG_CONSTANT,
            OpCode::OpPop => TAG_POP,
            OpCode::OpAdd => TAG_ADD,
            OpCode::OpSub => TAG_SUB,
            OpCode::OpMul => TAG_MUL,
            OpCode::OpDiv => TAG_DIV,
            OpCode::OpPlus => TAG_PLUS,
            OpCode::OpMinus => TAG_MINUS,
        }
    }

    /// Number of bytes the instruction occupies.
    pub open spec fn width(self) -> nat {
        match self {
            OpCode::OpConstant(_) => 9,
            _ => 1,
        }
    }

    /// The encoding of the instruction: its tag, then for a constant the
    /// eight big-endian bytes of its bit pattern.
    pub open spec fn spec_bytes(self) -> Seq<u8> {
        match self {
            OpCode::OpConstant(v) => seq![TAG_CONSTANT] + be_bytes(v),
            _ => seq![self.tag()],
        }
    }

    /// Encodes the instruction.
    pub fn bytes(self) -> (r: Vec<u8>)
        ensures
            r@ == self.spec_bytes(),
    {
        match self {
            OpCode::OpConstant(arg) => make_const_byte_op(TAG_CONSTANT, arg),
            OpCode::OpPop => vec![TAG_POP],
            OpCode::OpAdd => vec![TAG_ADD],
            OpCode::OpSub => vec![TAG_SUB],
            OpCode::OpMul => vec![TAG_MUL],
            OpCode::OpDiv => vec![TAG_DIV],
            OpCode::OpPlus => vec![TAG_PLUS],
            OpCode::OpMinus => vec![TAG_MINUS],
        }
    }
}

/// A tag followed by the eight big-endian bytes of `data`.
fn make_const_byte_op(code: u8, data: u64) -> (r: Vec<u8>)
    ensures
        r@ == seq![code] + be_bytes(data),
{
    let output = vec![
        code,
        #[verifier::truncate] ((data >> 56u64) as u8),
        #[verifier::truncate] ((data >> 48u64) as u8),
        #[verifier::truncate] ((data >> 40u64) as u8),
        #[verifier::truncate] ((data >> 32u64) as u8),
        #[verifier::truncate] ((data >> 24u64) as u8),
        #[verifier::truncate] ((data >> 16u64) as u8),
        #[verifier::truncate] ((data >> 8u64) as u8),
        #[verifier::truncate] (data as u8),
    ];
    assert(output@ =~= seq![code] + be_bytes(data));
    output
}

/// The instruction whose encoding starts at `at` in `s`, if a whole one does.
pub open spec fn decode_spec(s: Seq<u8>, at: int) -> Option<OpCode> {
    if at < 0 || at >= s.len() {
        None
    } else {
        let t = s[at];
        if t == TAG_CONSTANT {
            if at + 9 <= s.len() {
                Some(OpCode::OpConstant(read_be(s, at + 1)))
            } else {
                None
            }
        } else if t == TAG_POP {
            Some(OpCode::OpPop)
        } else if t == TAG_ADD {
            Some(OpCode::OpAdd)
        } else if t == TAG_SUB {
            Some(OpCode::OpSub)
        } else if t == TAG_MUL {
            Some(OpCode::OpMul)
        } else if t == TAG_DIV {
            Some(OpCode::OpDiv)
        } else if t == TAG_PLUS {
            Some(OpCode::OpPlus)
        } else if t == TAG_MINUS {
            Some(OpCode::OpMinus)
        } else {
            None
        }
    }
}

/// Decodes the instruction that starts at `at`; `None` for an unknown tag or
/// a constant whose operand runs past the end.
pub fn decode(s: &Vec<u8>, at: usize) -> (r: Option<OpCode>)
    ensures
        r == decode_spec(s@, at as int),
{
    if at >= s.len() {
        return None;
    }
    let t = s[at];
    if t == TAG_CONSTANT {
        if s.len() >= 9 && at <= s.len() - 9 {
            Some(OpCode::OpConstant(decode_be(s, at + 1)))
        } else {
            None
        }
    } else if t == TAG_POP {
        Some(OpCode::OpPop)
    } else if t == TAG_ADD {
        Some(OpCode::OpAdd)
    } else if t == TAG_SUB {
        Some(OpCode::OpSub)
    } else if t == TAG_MUL {
        Some(OpCode::OpMul)
    } else if t == TAG_DIV {
        Some(OpCode::OpDiv)
    } else if t == TAG_PLUS {
        Some(OpCode::OpPlus)
    } else if t == TAG_MINUS {
        Some(OpCode::OpMinus)
    } else {
        None
    }
}

/// An instruction's encoding, found anywhere in a stream, decodes back to
/// that instruction.
pub proof fn lemma_decode_encoded(s: Seq<u8>, at: int, op: OpCode)
    requires
        0 <= at,
        at + op.width() <= s.len(),
        s.subrange(at, at + op.width()) == op.spec_bytes(),
    ensures
        decode_spec(s, at) == Some(op),
{
    let w = op.width() as int;
    assert(op.spec_bytes().len() == w);
    assert(s[at] == s.subrange(at, at + w)[0]);
    if let OpCode::OpConstant(v) = op {
        lemma_be_round_trip(v);
        let b = be_bytes(v);
        assert forall|i: int| 0 <= i < 8 implies s[at + 1 + i] == b[i] by {
            assert(s[at + 1 + i] == s.subrange(at, at + w)[1 + i]);
        }
        assert(read_be(s, at + 1) == read_be(b, 0));
    }
}

} // verus!
