use atom_engine::atom_script::chunk::OpCode;
use atom_engine::atom_script::ast::Expr;
use atom_engine::atom_script::compiler::Compiler;
use atom_engine::atom_script::evaluation::{evaluate, evaluate_with};
use atom_engine::atom_script::parser::Parser;
use atom_engine::atom_script::vm::{InterpretResult, VM};
use atom_engine::lattice::metadata::{HierarchyResolver, MockHierarchyResolver};
use atom_engine::scalar::Scalar;

fn run_formula(input: &str) -> InterpretResult {
    let mut parser = Parser::new(input);
    let expr = parser.parse().expect("Parse failed");
    let chunk = Compiler::new().compile(&expr);
    assert!(chunk.is_well_formed());
    VM::new(chunk).run()
}

fn number(input: &str) -> f64 {
    match run_formula(input) {
        InterpretResult::Success(value) => f64::from_bits(value.to_bits()),
        other => panic!("{:?} for {}", other, input),
    }
}

#[test]
fn test_hierarchy_children_expansion() {
    // @Children expands to members: USA, Canada, Mexico
    let input = "SUM(@Children([Region], [North America]))";
    let mut parser = Parser::new(input);
    let expr = parser.parse().expect("Parse failed");

    let compiler = Compiler::new();
    let chunk = compiler.compile(&expr);

    let has_sum_3 = chunk.code.iter().any(|op| *op == OpCode::Sum(3));
    assert!(has_sum_3, "Chunk should contain OpCode::Sum(3). Code: {:?}", chunk.code);

    assert!(chunk.constants.len() >= 3, "Should have at least 3 constants for the children");
}

#[test]
fn test_lookup_and_time_travel() {
    let input = "LOOKUP(10, [Range], [Return])";
    let mut parser = Parser::new(input);
    let expr = parser.parse().expect("Parse failed");
    let compiler = Compiler::new();
    let chunk = compiler.compile(&expr);
    assert!(chunk.code.contains(&OpCode::Lookup));

    let input = "[Revenue] -> [PrevMonth]";
    let mut parser = Parser::new(input);
    let expr = parser.parse().expect("Parse failed");
    let compiler = Compiler::new();
    let chunk = compiler.compile(&expr);
    assert!(chunk.code.contains(&OpCode::Shift));
}

#[test]
fn test_basic_arithmetic() {
    let input = "1 + 2";
    let mut parser = Parser::new(input);
    let expr = parser.parse().expect("Parse failed");

    let compiler = Compiler::new();
    let chunk = compiler.compile(&expr);

    // Constant folding reduces this to a single constant (3.0)
    assert!(chunk.code.contains(&OpCode::Constant(0)));
    assert_eq!(f64::from_bits(chunk.constants[0].to_bits()), 3.0);
}

#[test]
fn folded_sum_emits_no_add() {
    let mut parser = Parser::new("1 + 2");
    let expr = parser.parse().unwrap();
    let chunk = Compiler::new().compile(&expr);
    assert_eq!(chunk.code, vec![OpCode::Constant(0), OpCode::Return]);
    assert_eq!(chunk.constants.len(), 1);
}

#[test]
fn hierarchy_sum_program_is_exact() {
    let mut parser = Parser::new("SUM(@Children([Region],[North America]))");
    let expr = parser.parse().unwrap();
    let chunk = Compiler::new().compile(&expr);
    assert_eq!(
        chunk.code,
        vec![
            OpCode::Constant(0),
            OpCode::Constant(1),
            OpCode::Constant(2),
            OpCode::Sum(3),
            OpCode::Return
        ]
    );
    assert_eq!(chunk.constants.len(), 3);
}

#[test]
fn lookup_without_spaces_compiles_to_lookup() {
    let mut parser = Parser::new("LOOKUP(10,[Range],[Return])");
    let expr = parser.parse().unwrap();
    let chunk = Compiler::new().compile(&expr);
    assert_eq!(
        chunk.code,
        vec![
            OpCode::Constant(0),
            OpCode::Constant(1),
            OpCode::Constant(2),
            OpCode::Lookup,
            OpCode::Return
        ]
    );
    assert_eq!(number("LOOKUP(10,[Range],[Return])"), 42.0);
}

#[test]
fn time_travel_passes_the_value_through() {
    assert_eq!(number("5 -> 7"), 5.0);
    assert_eq!(number("[Revenue] -> [PrevMonth]"), 0.0);
}

#[test]
fn round_trip_aggregates() {
    assert_eq!(number("SUM(1,2,3)"), 6.0);
    assert_eq!(number("AVG(2,4)"), 3.0);
    assert_eq!(number("MAX(1,5,3)"), 5.0);
    assert_eq!(number("MIN(1,5,3)"), 1.0);
}

#[test]
fn arithmetic_follows_precedence_and_groups_from_the_left() {
    assert_eq!(number("1 + 2 * 3"), 7.0);
    assert_eq!(number("2 * 3 + 1"), 7.0);
    assert_eq!(number("(1 + 2) * 3"), 9.0);
    assert_eq!(number("10 - 4 - 3"), 3.0);
    assert_eq!(number("8 / 4 / 2"), 1.0);
    assert_eq!(number("10 / 4"), 2.5);
    assert_eq!(number("1 + 2 + 3 + 4"), 10.0);
    assert_eq!(number("2 * (3 + 4) - 6 / (1 + 2)"), 12.0);
    assert_eq!(number("0.1 + 0.2"), 0.1 + 0.2);
    assert_eq!(number("1.5 * 1.5 - 0.25"), 2.0);
}

#[test]
fn division_by_zero_is_not_an_error() {
    assert_eq!(number("1 / 0"), f64::INFINITY);
    assert!(number("0 / 0").is_nan());
    assert_eq!(number("(1 + 1) / (2 - 2)"), f64::INFINITY);
}

#[test]
fn aggregates_over_nothing() {
    assert_eq!(number("MIN()"), f64::MAX);
    assert_eq!(number("MAX()"), f64::MIN);
    assert_eq!(number("SUM()"), 0.0);
    assert!(number("AVG()").is_nan());
}

#[test]
fn nested_expansion_counts_every_pushed_value() {
    let mut parser = Parser::new("SUM(@Children([Region],[Europe]), 5, 1 + 1)");
    let expr = parser.parse().unwrap();
    let chunk = Compiler::new().compile(&expr);
    assert!(chunk.code.contains(&OpCode::Sum(5)));
    assert_eq!(number("SUM(@Children([Region],[Europe]), 5, 1 + 1)"), 7.0);
    assert_eq!(number("MAX(@Children([Region],[Nowhere]), 5)"), 5.0);
}

#[test]
fn missing_operands_are_reported() {
    // LOOKUP always takes three operands off the stack.
    assert_eq!(run_formula("LOOKUP(1)"), InterpretResult::RuntimeError);
    // An unknown function emits nothing; its arguments stay on the stack.
    assert_eq!(number("FOO(1, 2)"), 2.0);
    // A bare identifier emits nothing.
    assert_eq!(run_formula("x"), InterpretResult::RuntimeError);
    assert_eq!(run_formula("SUM(x)"), InterpretResult::RuntimeError);
}

#[test]
fn evaluating_text() {
    let success = |x: f64| InterpretResult::Success(Scalar::from_bits(x.to_bits()));
    assert_eq!(evaluate("SUM(1,2,3)"), success(6.0));
    assert_eq!(evaluate("AVG(2,4)"), success(3.0));
    assert_eq!(evaluate("MAX(1,5,3)"), success(5.0));
    assert_eq!(evaluate("MIN(1,5,3)"), success(1.0));
    assert_eq!(evaluate("1 + 2 * 3"), success(7.0));
    assert_eq!(evaluate("SUM(@Children([Region],[North America])) + 1"), success(1.0));
    assert_eq!(evaluate("1 +"), InterpretResult::CompileError);
    assert_eq!(evaluate("1 2"), InterpretResult::CompileError);
    assert_eq!(evaluate(""), InterpretResult::CompileError);
    assert_eq!(evaluate("SUM(1"), InterpretResult::CompileError);
    assert_eq!(evaluate("x"), InterpretResult::RuntimeError);
    assert_eq!(evaluate("LOOKUP(1, 2)"), InterpretResult::RuntimeError);
    assert_eq!(evaluate_with("MAX(1, 2)", MockHierarchyResolver), success(2.0));
}

#[test]
fn a_compiler_with_a_given_resolver() {
    let mut parser = Parser::new("AVG(@Children([Time],[Europe]), 10)");
    let expr = parser.parse().unwrap();
    let compiler = Compiler::with_resolver(MockHierarchyResolver);
    assert!(compiler.fits(&expr));
    let chunk = compiler.compile(&expr);
    assert!(chunk.code.contains(&OpCode::Avg(4)));
    assert_eq!(chunk.constants.len(), 4);
    assert_eq!(
        evaluate_with("AVG(@Children([Time],[Europe]), 10)", MockHierarchyResolver),
        InterpretResult::Success(Scalar::from_bits(2.5f64.to_bits()))
    );
    assert_eq!(MockHierarchyResolver.get_children("Time", "Europe").len(), 3);
}

#[test]
fn trees_can_be_copied() {
    let mut parser = Parser::new("SUM(@Children([A],[B]), x, 1 + 2) -> [P] * foo()");
    let expr = parser.parse().unwrap();
    let copy = expr.clone();
    assert_eq!(copy, expr);
    match copy {
        Expr::Binary { .. } => {}
        other => panic!("{:?}", other),
    }
}

#[test]
fn every_parsed_formula_fits() {
    let compiler = Compiler::new();
    for text in ["1", "SUM()", "SUM(1, x, [A], @Children([R],[Europe]))", "MAX(MIN(1, 2), 3) -> 4"].iter() {
        let expr = Parser::new(text).parse().unwrap();
        assert!(compiler.fits(&expr), "{}", text);
    }
}
