use atom_engine::atom_script::ast::{BinaryOp, Expr};
use atom_engine::atom_script::lexer::Token;
use atom_engine::atom_script::parser::{
    infix_binding_power, Callee, ParseError, Parser, Stray, TokenKind,
};
use atom_engine::scalar::Scalar;

fn parse(input: &str) -> Result<Expr, String> {
    Parser::new(input).parse()
}

fn lit(x: f64) -> Expr {
    Expr::Literal(Scalar::from_bits(x.to_bits()))
}

fn dim(name: &str) -> Expr {
    Expr::DimensionRef(name.to_string())
}

fn bin(op: BinaryOp, lhs: Expr, rhs: Expr) -> Expr {
    Expr::Binary { op, lhs: Box::new(lhs), rhs: Box::new(rhs) }
}

fn shift(lhs: Expr, rhs: Expr) -> Expr {
    Expr::TimeTravel { lhs: Box::new(lhs), rhs: Box::new(rhs) }
}

fn call(name: &str, args: Vec<Expr>) -> Expr {
    Expr::FunctionCall { name: name.to_string(), args }
}

fn err(text: &str) -> Result<Expr, String> {
    Err(text.to_string())
}

#[test]
fn operands() {
    assert_eq!(parse("42"), Ok(lit(42.0)));
    assert_eq!(parse("[Region]"), Ok(dim("Region")));
    assert_eq!(parse("Revenue"), Ok(Expr::Identifier("Revenue".to_string())));
    assert_eq!(parse("(7)"), Ok(lit(7.0)));
    assert_eq!(parse("((x))"), Ok(Expr::Identifier("x".to_string())));
}

#[test]
fn multiplication_binds_tighter_than_addition() {
    assert_eq!(
        parse("1 + 2 * 3"),
        Ok(bin(BinaryOp::Add, lit(1.0), bin(BinaryOp::Mul, lit(2.0), lit(3.0))))
    );
    assert_eq!(
        parse("1 * 2 + 3"),
        Ok(bin(BinaryOp::Add, bin(BinaryOp::Mul, lit(1.0), lit(2.0)), lit(3.0)))
    );
    assert_eq!(
        parse("1 - 2 / 3"),
        Ok(bin(BinaryOp::Sub, lit(1.0), bin(BinaryOp::Div, lit(2.0), lit(3.0))))
    );
    assert_eq!(
        parse("(1 + 2) * 3"),
        Ok(bin(BinaryOp::Mul, bin(BinaryOp::Add, lit(1.0), lit(2.0)), lit(3.0)))
    );
}

#[test]
fn operators_of_one_level_group_from_the_left() {
    assert_eq!(
        parse("8 - 4 - 2"),
        Ok(bin(BinaryOp::Sub, bin(BinaryOp::Sub, lit(8.0), lit(4.0)), lit(2.0)))
    );
    assert_eq!(
        parse("8 / 4 * 2"),
        Ok(bin(BinaryOp::Mul, bin(BinaryOp::Div, lit(8.0), lit(4.0)), lit(2.0)))
    );
    assert_eq!(
        parse("1 + 2 - 3"),
        Ok(bin(BinaryOp::Sub, bin(BinaryOp::Add, lit(1.0), lit(2.0)), lit(3.0)))
    );
}

#[test]
fn time_travel_binds_tightest() {
    assert_eq!(parse("[Revenue] -> [PrevMonth]"), Ok(shift(dim("Revenue"), dim("PrevMonth"))));
    assert_eq!(
        parse("[A] -> [B] * 2"),
        Ok(bin(BinaryOp::Mul, shift(dim("A"), dim("B")), lit(2.0)))
    );
    assert_eq!(
        parse("2 * [A] -> [B]"),
        Ok(bin(BinaryOp::Mul, lit(2.0), shift(dim("A"), dim("B"))))
    );
    assert_eq!(
        parse("1 + [A] -> [B] + 3"),
        Ok(bin(BinaryOp::Add, bin(BinaryOp::Add, lit(1.0), shift(dim("A"), dim("B"))), lit(3.0)))
    );
    assert_eq!(
        parse("[A] -> [B] -> [C]"),
        Ok(shift(shift(dim("A"), dim("B")), dim("C")))
    );
}

#[test]
fn calls() {
    assert_eq!(parse("SUM(1, 2, 3)"), Ok(call("SUM", vec![lit(1.0), lit(2.0), lit(3.0)])));
    assert_eq!(parse("AVG(2,4)"), Ok(call("AVG", vec![lit(2.0), lit(4.0)])));
    assert_eq!(parse("MIN()"), Ok(call("MIN", vec![])));
    assert_eq!(parse("MAX(1 + 2)"), Ok(call("MAX", vec![bin(BinaryOp::Add, lit(1.0), lit(2.0))])));
    assert_eq!(
        parse("LOOKUP(10, [Range], [Return])"),
        Ok(call("LOOKUP", vec![lit(10.0), dim("Range"), dim("Return")]))
    );
    assert_eq!(parse("XLOOKUP([A])"), Ok(call("XLOOKUP", vec![dim("A")])));
    assert_eq!(parse("foo(1, bar())"), Ok(call("foo", vec![lit(1.0), call("bar", vec![])])));
    assert_eq!(
        parse("@Children([Region], [North America])"),
        Ok(Expr::HierarchyCall {
            name: "Children".to_string(),
            args: vec![dim("Region"), dim("North America")]
        })
    );
    assert_eq!(
        parse("SUM(@Children([Region],[Europe])) * 2"),
        Ok(bin(
            BinaryOp::Mul,
            call(
                "SUM",
                vec![Expr::HierarchyCall {
                    name: "Children".to_string(),
                    args: vec![dim("Region"), dim("Europe")]
                }]
            ),
            lit(2.0)
        ))
    );
}

#[test]
fn a_formula_is_one_expression() {
    assert_eq!(parse("1 2"), err("Unexpected token after expression: Number"));
    assert_eq!(parse("1 )"), err("Unexpected token after expression: RParen"));
    assert_eq!(parse("x $"), err("Unexpected token after expression: Error"));
    assert_eq!(parse("1 + 2 x"), err("Unexpected token after expression: Identifier"));
    assert_eq!(parse("[A] [B]"), err("Unexpected token after expression: DimensionRef"));
    assert_eq!(parse("1 @Children([A],[B])"), err("Unexpected token after expression: AtIdentifier"));
    assert_eq!(parse("SUM(1) SUM(2)"), err("Unexpected token after expression: Sum"));
    assert_eq!(parse("1 (2)"), err("Unexpected token after expression: LParen"));
    assert_eq!(parse("1, 2"), err("Unexpected token after expression: Comma"));
    assert_eq!(parse("1 IF"), err("Unexpected token after expression: If"));
    assert_eq!(parse("x LOOKUP"), err("Unexpected token after expression: Lookup"));
    assert_eq!(parse("1 + 2 "), Ok(bin(BinaryOp::Add, lit(1.0), lit(2.0))));
}

#[test]
fn an_operand_is_required() {
    assert_eq!(parse(""), err("Unexpected token: None"));
    assert_eq!(parse("   "), err("Unexpected token: None"));
    assert_eq!(parse("+"), err("Unexpected token: Some(Plus)"));
    assert_eq!(parse("-1"), err("Unexpected token: Some(Minus)"));
    assert_eq!(parse("*"), err("Unexpected token: Some(Mul)"));
    assert_eq!(parse("/"), err("Unexpected token: Some(Div)"));
    assert_eq!(parse(")"), err("Unexpected token: Some(RParen)"));
    assert_eq!(parse(","), err("Unexpected token: Some(Comma)"));
    assert_eq!(parse("IF"), err("Unexpected token: Some(If)"));
    assert_eq!(parse("->"), err("Unexpected token: Some(Arrow)"));
    assert_eq!(parse("$"), err("Unexpected token: Some(Error)"));
    assert_eq!(parse("1 +"), err("Unexpected token: None"));
    assert_eq!(parse("1 + * 2"), err("Unexpected token: Some(Mul)"));
    assert_eq!(parse("SUM(1,)"), err("Unexpected token: Some(RParen)"));
    assert_eq!(parse("SUM(,1)"), err("Unexpected token: Some(Comma)"));
    assert_eq!(parse("()"), err("Unexpected token: Some(RParen)"));
    assert_eq!(parse("[A] -> "), err("Unexpected token: None"));
}

#[test]
fn calls_need_their_parentheses() {
    assert_eq!(parse("@Children"), err("Expected '(' after hierarchy function"));
    assert_eq!(parse("@Children [A]"), err("Expected '(' after hierarchy function"));
    assert_eq!(parse("LOOKUP 1"), err("Expected '(' after LOOKUP"));
    assert_eq!(parse("XLOOKUP"), err("Expected '(' after XLOOKUP"));
    assert_eq!(parse("SUM 1"), err("Expected '(' after SUM"));
    assert_eq!(parse("AVG"), err("Expected '(' after AVG"));
    assert_eq!(parse("MIN + 1"), err("Expected '(' after MIN"));
    assert_eq!(parse("MAX)"), err("Expected '(' after MAX"));
    assert_eq!(parse("(1"), err("Expected ')'"));
    assert_eq!(parse("(1 2)"), err("Expected ')'"));
    assert_eq!(parse("SUM(1"), err("Expected ')'"));
    assert_eq!(parse("SUM(1 2)"), err("Expected ')'"));
    assert_eq!(parse("foo(1, 2"), err("Expected ')'"));
    assert_eq!(parse("SUM("), err("Unexpected token: None"));
}

#[test]
fn binding_powers() {
    assert_eq!(infix_binding_power(&BinaryOp::Add), (1, 2));
    assert_eq!(infix_binding_power(&BinaryOp::Sub), (1, 2));
    assert_eq!(infix_binding_power(&BinaryOp::Mul), (3, 4));
    assert_eq!(infix_binding_power(&BinaryOp::Div), (3, 4));
}

#[test]
fn error_texts() {
    assert_eq!(ParseError::ExpectedClose.to_message(), "Expected ')'");
    assert_eq!(
        ParseError::ExpectedOpen(Callee::Hierarchy).to_message(),
        "Expected '(' after hierarchy function"
    );
    assert_eq!(ParseError::ExpectedOpen(Callee::Sum).to_message(), "Expected '(' after SUM");
    assert_eq!(
        ParseError::UnexpectedToken(Stray::Whitespace).to_message(),
        "Unexpected token: Some(Whitespace)"
    );
    assert_eq!(ParseError::UnexpectedToken(Stray::End).to_message(), "Unexpected token: None");
    assert_eq!(
        ParseError::TrailingToken(TokenKind::Number).to_message(),
        "Unexpected token after expression: Number"
    );
    assert_eq!(TokenKind::of_token(&Token::Arrow), TokenKind::Arrow);
    assert_eq!(TokenKind::of_token(&Token::Identifier("x".to_string())), TokenKind::Identifier);
}
