use calculator::interpreter::{Eval, Interpreter};
use calculator::{parse, Operator};

fn lit(digits: Vec<u8>) -> u64 {
    std::str::from_utf8(&digits).unwrap().parse::<f64>().unwrap().to_bits()
}

fn alu(op: Operator, lhs: u64, rhs: u64) -> u64 {
    let (l, r) = (f64::from_bits(lhs), f64::from_bits(rhs));
    let v = match op {
        Operator::Add => l + r,
        Operator::Sub => l - r,
        Operator::Mul => l * r,
        Operator::Div => l / r,
    };
    v.to_bits()
}

fn from_source(source: &str) -> Result<f64, calculator::ParseError> {
    Interpreter::from_source(source, &lit, &alu).map(f64::from_bits)
}

fn vm_value(source: &str) -> f64 {
    let bytecode = calculator::bytecode::Interpreter::from_source(source, &lit).unwrap();
    let mut vm = calculator::VM::new(bytecode);
    vm.run(&alu).unwrap();
    f64::from_bits(vm.get_result().unwrap())
}

#[test]
fn interpreter_basics() {
    assert_eq!(from_source("1 + 2").unwrap().to_string(), "3");
    assert_eq!(from_source("2 + (2 - 1)").unwrap().to_string(), "3");
    assert_eq!(from_source("(2 + 3) - 1").unwrap().to_string(), "4");
    assert_eq!(from_source("1 + ((2 + 3) - (2 + 3))").unwrap().to_string(), "1");
    assert_eq!(from_source("0.5 + 0.3").unwrap().to_string(), "0.8");
    assert_eq!(from_source("0.5 + 0.3 + 1").unwrap().to_string(), "1.8");
}

#[test]
fn multiply() {
    assert_eq!(from_source("0.5 * 0.3").unwrap().to_string(), "0.15");
    assert_eq!(from_source("1 + 0.5 * 0.3").unwrap().to_string(), "1.15");
    assert_eq!(from_source("0.7*0.8 + 0.5* (0.3 - 4 + 5)").unwrap().to_string(), "1.21");
    assert_eq!(from_source("5/(3+7*1)").unwrap(), 0.50);
}

#[test]
fn sum_of_several_expressions() {
    assert_eq!(from_source("1 + 2; 3 * 4").unwrap(), 15.0);
    assert_eq!(from_source("").unwrap().to_bits(), 0);
}

#[test]
fn eval_of_single_tree() {
    let ast = parse("-(3 - 5) * 2", &lit).unwrap();
    assert_eq!(f64::from_bits(Eval::new().eval(&ast[0], &alu)), 4.0);
}

#[test]
fn vm_matches_tree_evaluation() {
    let sources = [
        "1 + 2 * 3 - 4 / 5",
        "-(1.5 - 2.25) * (3 + -4) / 7",
        "((((((1 + 2) * 3) - 4) / 5) + 6) * 7)",
        "0.1 + 0.2 - 0.3",
        "+-+-9.75 / (2 - 2)",
        "1e0",
    ];
    for s in sources.iter() {
        match parse(s, &lit) {
            Ok(ast) => {
                let direct = f64::from_bits(Eval::new().eval(&ast[0], &alu));
                assert_eq!(direct.to_bits(), vm_value(s).to_bits());
            }
            Err(e) => assert_eq!(e, calculator::ParseError::InvalidCharacter),
        }
    }
}
