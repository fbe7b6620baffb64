use calculator::bytecode::{Bytecode, Interpreter};
use calculator::vm::VM;
use calculator::{parse, Node, OpCode, Operator, Sign, VmError};

fn lit(digits: Vec<u8>) -> u64 {
    std::str::from_utf8(&digits).unwrap().parse::<f64>().unwrap().to_bits()
}

fn alu(op: Operator, lhs: u64, rhs: u64) -> u64 {
    let (l, r) = (f64::from_bits(lhs), f64::from_bits(rhs));
    let v = match op {
        Operator::Add => l + r,
        Operator::Sub => l - r,
        Operator::Mul => l * r,
        Operator::Div => l / r,
    };
    v.to_bits()
}

fn encode(ops: Vec<OpCode>) -> Vec<u8> {
    ops.into_iter().flat_map(|a| a.bytes()).collect()
}

fn run_source(source: &str) -> f64 {
    let bytecode = Interpreter::from_source(source, &lit).unwrap();
    let mut vm = VM::new(bytecode);
    vm.run(&alu).unwrap();
    f64::from_bits(vm.get_result().unwrap())
}

fn infix_template(infix_str: &str, op_code: OpCode) {
    let input = format!("1 {} 2;", infix_str);
    let bytecode = Interpreter::from_source(&input, &lit).unwrap();
    let expected_instructions = encode(vec![
        OpCode::OpConstant(1.0f64.to_bits()),
        OpCode::OpConstant(2.0f64.to_bits()),
        op_code,
        OpCode::OpPop,
    ]);
    assert_eq!(Bytecode { instructions: expected_instructions }, bytecode);
}

#[test]
fn bytecode_basics() {
    infix_template("+", OpCode::OpAdd);
    infix_template("-", OpCode::OpSub);
}

#[test]
fn make_op_constant() {
    assert_eq!(vec![0x01, 64, 239, 255, 192, 0, 0, 0, 0], OpCode::OpConstant(65534.0f64.to_bits()).bytes());
}

#[test]
fn make_op_pop() {
    assert_eq!(vec![0x02], OpCode::OpPop.bytes());
}

#[test]
fn make_op_add() {
    assert_eq!(vec![0x03], OpCode::OpAdd.bytes());
}

#[test]
fn every_tag_byte() {
    let ops = vec![
        OpCode::OpPop,
        OpCode::OpAdd,
        OpCode::OpSub,
        OpCode::OpMul,
        OpCode::OpDiv,
        OpCode::OpPlus,
        OpCode::OpMinus,
    ];
    assert_eq!(encode(ops), vec![0x02, 0x03, 0x04, 0x05, 0x06, 0x0A, 0x0B]);
    let mut expected = vec![0x01];
    expected.extend(65534.0f64.to_be_bytes());
    assert_eq!(OpCode::OpConstant(65534.0f64.to_bits()).bytes(), expected);
}

fn assert_pop_last(source: &str, node: Node) {
    let byte_code = Interpreter::from_source(source, &lit).unwrap();
    let mut vm = VM::new(byte_code);
    vm.run(&alu).unwrap();
    match node {
        Node::Number(bits) => assert_eq!(Some(&bits), vm.pop_last()),
        _ => panic!("expected a number"),
    }
}

#[test]
fn unary() {
    assert_pop_last("+1", Node::Number(1.0f64.to_bits()));
    assert_pop_last("-2", Node::Number((-2.0f64).to_bits()));
}

#[test]
fn binary() {
    assert_pop_last("1 + 2;", Node::Number(3.0f64.to_bits()));
    assert_pop_last("1 - 2;", Node::Number((-1.0f64).to_bits()));
}

#[test]
fn compiler_basics() {
    assert_eq!(run_source("1 + 2"), 3.0);
    assert_eq!(run_source("2.5 + (2.1 - 1.8)"), 2.8);
    assert_eq!(run_source("(2.6 + 3.9) - 1.2"), 5.3);
    assert_eq!(run_source("1.7 + ((2.3 + 3.1) - (2.9 + 3.5))"), 0.7);
    assert_eq!(run_source("1.2 * (1.9 + 2.9)"), 5.76);
    assert_eq!(run_source("(7.8+2.4)/(1.3+2.5)"), 2.6842105263157894);
}

#[test]
fn left_associative_sum() {
    let ast = parse("1+2+3", &lit).unwrap();
    let one = Node::Number(1.0f64.to_bits());
    let two = Node::Number(2.0f64.to_bits());
    let three = Node::Number(3.0f64.to_bits());
    assert_eq!(
        ast,
        vec![Node::BinaryExpr {
            op: Operator::Add,
            lhs: Box::new(Node::BinaryExpr { op: Operator::Add, lhs: Box::new(one), rhs: Box::new(two) }),
            rhs: Box::new(three),
        }]
    );
    assert_eq!(run_source("1+2+3"), 6.0);
}

#[test]
fn unary_code_and_value() {
    let plus = Interpreter::from_source("+1", &lit).unwrap();
    assert_eq!(plus.instructions, encode(vec![OpCode::OpConstant(1.0f64.to_bits()), OpCode::OpPlus, OpCode::OpPop]));
    assert_eq!(run_source("+1"), 1.0);
    let minus = Interpreter::from_source("-2", &lit).unwrap();
    assert_eq!(minus.instructions, encode(vec![OpCode::OpConstant(2.0f64.to_bits()), OpCode::OpMinus, OpCode::OpPop]));
    assert_eq!(run_source("-2"), -2.0);
}

#[test]
fn two_expression_stream() {
    let first = Interpreter::from_source("1+2", &lit).unwrap();
    let second = Interpreter::from_source("3*4", &lit).unwrap();
    let both = Interpreter::from_source("1+2; 3*4", &lit).unwrap();
    let mut joined = first.instructions.clone();
    joined.extend(second.instructions.iter());
    assert_eq!(both.instructions, joined);
    assert_eq!(run_source("1+2"), 3.0);
    assert_eq!(run_source("1+2; 3*4"), 12.0);
    let ast = parse("1+2; 3*4", &lit).unwrap();
    assert_eq!(ast.len(), 2);
    let mut after_first = VM::new(Interpreter::from_ast(&ast[..1].iter().map(|n| copy(n)).collect()));
    after_first.run(&alu).unwrap();
    assert_eq!(f64::from_bits(after_first.get_result().unwrap()), 3.0);
}

fn copy(n: &Node) -> Node {
    match n {
        Node::Number(b) => Node::Number(*b),
        Node::UnaryExpr { op, child } => Node::UnaryExpr { op: *op, child: Box::new(copy(child)) },
        Node::BinaryExpr { op, lhs, rhs } => Node::BinaryExpr { op: *op, lhs: Box::new(copy(lhs)), rhs: Box::new(copy(rhs)) },
    }
}

#[test]
fn float_division() {
    assert_eq!(run_source("7/2"), 3.5);
}

#[test]
fn division_by_zero_follows_ieee() {
    assert_eq!(run_source("1/0"), f64::INFINITY);
    assert_eq!(run_source("-1/0"), f64::NEG_INFINITY);
    assert!(run_source("0/0").is_nan());
}

#[test]
fn compiling_twice_is_identical() {
    let a = Interpreter::from_source("1.5 * (2 - -3) / 4", &lit).unwrap();
    let b = Interpreter::from_source("1.5 * (2 - -3) / 4", &lit).unwrap();
    assert_eq!(a, b);
    assert_eq!(a.instructions.len(), 9 * 4 + 4 + 1);
}

#[test]
fn constant_operand_decoding() {
    let code = Interpreter::from_source("65534", &lit).unwrap();
    assert_eq!(code.bytes_to_constants(1), (65534.0f64.to_bits(), 9));
}

#[test]
fn empty_stream_leaves_fresh_stack() {
    let mut vm = VM::new(Bytecode::new());
    assert_eq!(vm.run(&alu), Ok(()));
    assert_eq!(vm.get_result(), Some(0));
}

#[test]
fn machine_errors() {
    let mut bad_tag = VM::new(Bytecode { instructions: vec![0x07] });
    assert_eq!(bad_tag.run(&alu), Err(VmError::UnknownInstruction));
    let mut short = VM::new(Bytecode { instructions: vec![0x01, 0, 0] });
    assert_eq!(short.run(&alu), Err(VmError::UnknownInstruction));
    let mut underflow = VM::new(Bytecode { instructions: vec![0x02] });
    assert_eq!(underflow.run(&alu), Err(VmError::StackUnderflow));
    let mut one_operand = VM::new(Bytecode { instructions: encode(vec![OpCode::OpConstant(0), OpCode::OpAdd]) });
    assert_eq!(one_operand.run(&alu), Err(VmError::StackUnderflow));
    let mut full = VM::new(Bytecode { instructions: encode(vec![OpCode::OpConstant(0); 513]) });
    assert_eq!(full.run(&alu), Err(VmError::StackOverflow));
    let mut exactly_full = VM::new(Bytecode { instructions: encode(vec![OpCode::OpConstant(0); 512]) });
    assert_eq!(exactly_full.run(&alu), Ok(()));
    assert_eq!(exactly_full.get_result(), None);
}

#[test]
fn negation_flips_sign_bit_only() {
    assert_eq!(run_source("-(1-1)").to_bits(), (-0.0f64).to_bits());
    assert_eq!(run_source("--2.5"), 2.5);
    let _ = Sign::Negative;
}
