use calculator::ast::{Node, Operator, Sign};
use calculator::parse;

fn lit(digits: Vec<u8>) -> u64 {
    std::str::from_utf8(&digits).unwrap().parse::<f64>().unwrap().to_bits()
}

fn num(v: f64) -> Node {
    Node::Number(v.to_bits())
}

fn show(n: &Node) -> String {
    match n {
        Node::Number(bits) => format!("{}", f64::from_bits(*bits)),
        Node::UnaryExpr { op, child } => format!("{}{}", op.symbol(), show(child)),
        Node::BinaryExpr { op, lhs, rhs } => format!("{} {} {}", show(lhs), op.symbol(), show(rhs)),
    }
}

#[test]
#[should_panic]
fn parser_basics() {
    let _ = parse("b", &lit).unwrap();
}

#[test]
fn unary_expr() {
    let plus_one = parse("+1", &lit);
    assert!(plus_one.is_ok());
    let plus_one = plus_one.unwrap();
    assert_eq!(plus_one, vec![Node::UnaryExpr { op: Sign::Positive, child: Box::new(num(1.0)) }]);
    assert_eq!(show(&plus_one[0]), "+1");

    let neg_two = parse("-2", &lit);
    assert!(neg_two.is_ok());
    let neg_two = neg_two.unwrap();
    assert_eq!(neg_two, vec![Node::UnaryExpr { op: Sign::Negative, child: Box::new(num(2.0)) }]);
    assert_eq!(show(&neg_two[0]), "-2");
}

#[test]
fn parse_float_unary_expr() {
    let positive = parse("+1.235", &lit);
    assert!(positive.is_ok());
    let positive = positive.unwrap();
    assert_eq!(positive, vec![Node::UnaryExpr { op: Sign::Positive, child: Box::new(num(1.235)) }]);
    assert_eq!(show(&positive[0]), "+1.235");

    let negative = parse("-0.78", &lit);
    assert!(negative.is_ok());
    let negative = negative.unwrap();
    assert_eq!(negative, vec![Node::UnaryExpr { op: Sign::Negative, child: Box::new(num(0.78)) }]);
    assert_eq!(show(&negative[0]), "-0.78");
}

fn binary(op: Operator, lhs: Node, rhs: Node) -> Node {
    Node::BinaryExpr { op, lhs: Box::new(lhs), rhs: Box::new(rhs) }
}

#[test]
fn binary_expr() {
    let sum = parse("1.7 + 2", &lit);
    assert!(sum.is_ok());
    let sum = sum.unwrap();
    assert_eq!(sum, vec![binary(Operator::Add, num(1.7), num(2.0))]);
    assert_eq!(show(&sum[0]), "1.7 + 2");

    let minus = parse("1.7   -  \t  2", &lit);
    assert!(minus.is_ok());
    let minus = minus.unwrap();
    assert_eq!(minus, vec![binary(Operator::Sub, num(1.7), num(2.0))]);
    assert_eq!(show(&minus[0]), "1.7 - 2");

    let mul = parse("3.56 * 4", &lit);
    assert!(mul.is_ok());
    let mul = mul.unwrap();
    assert_eq!(mul, vec![binary(Operator::Mul, num(3.56), num(4.0))]);
    assert_eq!(show(&mul[0]), "3.56 * 4");

    let div = parse("3/4", &lit);
    assert!(div.is_ok());
    let div = div.unwrap();
    assert_eq!(div, vec![binary(Operator::Div, num(3.0), num(4.0))]);
    assert_eq!(show(&div[0]), "3 / 4");
}

fn check_expr(expected: &str, src: &str) {
    assert_eq!(
        expected,
        parse(src, &lit).unwrap().iter().fold(String::new(), |acc, arg| acc + &show(arg))
    );
}

#[test]
fn nested_expr() {
    check_expr("1 + 2 + 3", "(1 + 2) + 3");
    check_expr("1 + 2 + 3", "1 + (2 + 3)");
    check_expr("1 + 2 + 3 + 4", "1 + (2 + (3 + 4))");
    check_expr("1 + 2 + 3 - 4", "(1 + 2) + (3 - 4)");
    check_expr("1 + 0.5 * 0.3", "1 + (0.5 * 0.3)")
}

#[test]
fn mixed_mul_add() {
    assert_eq!(
        parse("1 + 0.5 * 0.3", &lit).unwrap(),
        vec![binary(Operator::Add, num(1.0), binary(Operator::Mul, num(0.5), num(0.3)))]
    )
}

#[test]
fn multiple_operators() {
    assert_eq!(
        parse("1+2+3", &lit).unwrap(),
        vec![binary(Operator::Add, binary(Operator::Add, num(1.0), num(2.0)), num(3.0))]
    )
}

#[test]
fn unary_binds_tighter_than_binary() {
    assert_eq!(
        parse("-2+3", &lit).unwrap(),
        vec![binary(Operator::Add, Node::UnaryExpr { op: Sign::Negative, child: Box::new(num(2.0)) }, num(3.0))]
    );
}

#[test]
fn left_grouping_of_mixed_levels() {
    assert_eq!(
        parse("8/4/2", &lit).unwrap(),
        vec![binary(Operator::Div, binary(Operator::Div, num(8.0), num(4.0)), num(2.0))]
    );
    assert_eq!(
        parse("1-2*3-4", &lit).unwrap(),
        vec![binary(
            Operator::Sub,
            binary(Operator::Sub, num(1.0), binary(Operator::Mul, num(2.0), num(3.0))),
            num(4.0)
        )]
    );
}

#[test]
fn several_expressions_and_empty_source() {
    assert_eq!(parse("1+2; 3*4;", &lit).unwrap().len(), 2);
    assert_eq!(parse("", &lit).unwrap().len(), 0);
    assert_eq!(parse("  \n", &lit).unwrap().len(), 0);
}

#[test]
fn parse_errors() {
    assert_eq!(parse("b", &lit), Err(calculator::ParseError::InvalidCharacter));
    assert_eq!(parse("1.", &lit), Err(calculator::ParseError::InvalidCharacter));
    assert_eq!(parse("1 +", &lit), Err(calculator::ParseError::InvalidSyntax));
    assert_eq!(parse("(1 + 2", &lit), Err(calculator::ParseError::InvalidSyntax));
    assert_eq!(parse("1 2", &lit), Err(calculator::ParseError::InvalidSyntax));
    assert_eq!(parse(";", &lit), Err(calculator::ParseError::InvalidSyntax));
}
