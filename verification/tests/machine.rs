use atom_engine::atom_script::ast::{BinaryOp, Expr};
use atom_engine::atom_script::chunk::{Chunk, OpCode};
use atom_engine::atom_script::compiler::Compiler;
use atom_engine::atom_script::vm::{InterpretResult, STACK_CAPACITY, VM};
use atom_engine::lattice::metadata::{HierarchyResolver, MockHierarchyResolver};
use atom_engine::scalar::Scalar;

fn num(x: f64) -> Scalar {
    Scalar::from_bits(x.to_bits())
}

fn program(constants: &[f64], code: &[OpCode]) -> Chunk {
    let mut chunk = Chunk::new();
    for &value in constants {
        chunk.add_constant(num(value));
    }
    for &op in code {
        chunk.write_chunk(op);
    }
    assert!(chunk.is_well_formed());
    chunk
}

fn run(constants: &[f64], code: &[OpCode]) -> InterpretResult {
    VM::new(program(constants, code)).run()
}

fn value(constants: &[f64], code: &[OpCode]) -> f64 {
    match run(constants, code) {
        InterpretResult::Success(v) => f64::from_bits(v.to_bits()),
        other => panic!("{:?}", other),
    }
}

fn push_all(n: usize) -> Vec<OpCode> {
    (0..n).map(OpCode::Constant).collect()
}

#[test]
fn chunk_bookkeeping() {
    let mut chunk = Chunk::new();
    assert!(chunk.code.is_empty() && chunk.constants.is_empty());
    assert_eq!(chunk.add_constant(num(1.5)), 0);
    assert_eq!(chunk.add_constant(num(2.5)), 1);
    chunk.write_chunk(OpCode::Constant(1));
    chunk.write_chunk(OpCode::Return);
    assert_eq!(chunk.code, vec![OpCode::Constant(1), OpCode::Return]);
    assert_eq!(chunk.constants, vec![num(1.5), num(2.5)]);
    assert!(chunk.is_well_formed());
    chunk.write_chunk(OpCode::Constant(2));
    assert!(!chunk.is_well_formed());
}

#[test]
fn return_yields_the_top_and_stops() {
    assert_eq!(value(&[1.0, 2.0], &[OpCode::Constant(0), OpCode::Constant(1), OpCode::Return]), 2.0);
    assert_eq!(
        value(&[1.0, 2.0], &[OpCode::Constant(0), OpCode::Return, OpCode::Constant(1), OpCode::Return]),
        1.0
    );
}

#[test]
fn binary_operators_take_the_first_pushed_as_left_operand() {
    let c = [7.0, 2.0];
    let load = [OpCode::Constant(0), OpCode::Constant(1)];
    let with = |op: OpCode| value(&c, &[load[0], load[1], op, OpCode::Return]);
    assert_eq!(with(OpCode::Add), 9.0);
    assert_eq!(with(OpCode::Sub), 5.0);
    assert_eq!(with(OpCode::Mul), 14.0);
    assert_eq!(with(OpCode::Div), 3.5);
    assert_eq!(with(OpCode::Shift), 7.0);
    assert_eq!(value(&c, &[OpCode::Constant(0), OpCode::Negate, OpCode::Return]), -7.0);
}

#[test]
fn aggregates_do_not_depend_on_the_push_order() {
    let forward = [4.0, -1.5, 9.0, 2.5];
    let backward = [2.5, 9.0, -1.5, 4.0];
    for c in [forward, backward] {
        let mut code = push_all(4);
        code.push(OpCode::Sum(4));
        code.push(OpCode::Return);
        assert_eq!(value(&c, &code), 14.0);
        code[4] = OpCode::Avg(4);
        assert_eq!(value(&c, &code), 3.5);
        code[4] = OpCode::Min(4);
        assert_eq!(value(&c, &code), -1.5);
        code[4] = OpCode::Max(4);
        assert_eq!(value(&c, &code), 9.0);
    }
}

#[test]
fn aggregates_take_only_their_operands() {
    let c = [100.0, 1.0, 2.0];
    let mut code = push_all(3);
    code.push(OpCode::Sum(2));
    code.push(OpCode::Add);
    code.push(OpCode::Return);
    assert_eq!(value(&c, &code), 103.0);
    code[3] = OpCode::Max(2);
    assert_eq!(value(&c, &code), 102.0);
    code[3] = OpCode::Min(1);
    code[4] = OpCode::Sum(3);
    assert_eq!(value(&c, &code), 103.0);
}

#[test]
fn aggregates_of_nothing_yield_their_starting_values() {
    assert_eq!(value(&[], &[OpCode::Min(0), OpCode::Return]), f64::MAX);
    assert_eq!(value(&[], &[OpCode::Max(0), OpCode::Return]), f64::MIN);
    assert_eq!(value(&[], &[OpCode::Sum(0), OpCode::Return]), 0.0);
    assert!(value(&[], &[OpCode::Avg(0), OpCode::Return]).is_nan());
}

#[test]
fn min_and_max_skip_what_is_not_a_number() {
    let c = [f64::NAN, 3.0, f64::NAN, -2.0];
    let mut code = push_all(4);
    code.push(OpCode::Min(4));
    code.push(OpCode::Return);
    assert_eq!(value(&c, &code), -2.0);
    code[4] = OpCode::Max(4);
    assert_eq!(value(&c, &code), 3.0);
    assert_eq!(value(&[f64::NAN], &[OpCode::Constant(0), OpCode::Min(1), OpCode::Return]), f64::MAX);
    assert_eq!(
        value(&[f64::INFINITY], &[OpCode::Constant(0), OpCode::Min(1), OpCode::Return]),
        f64::MAX
    );
    assert_eq!(
        value(&[f64::INFINITY], &[OpCode::Constant(0), OpCode::Max(1), OpCode::Return]),
        f64::INFINITY
    );
}

#[test]
fn lookups_yield_their_placeholders() {
    let c = [1.0, 2.0, 3.0];
    let mut code = push_all(3);
    code.push(OpCode::Lookup);
    code.push(OpCode::Return);
    assert_eq!(value(&c, &code), 42.0);
    code[3] = OpCode::XLookup(3);
    assert_eq!(value(&c, &code), 100.0);
    assert_eq!(value(&[], &[OpCode::XLookup(0), OpCode::Return]), 100.0);
    // The operands are gone afterwards.
    code[3] = OpCode::XLookup(2);
    code[4] = OpCode::Add;
    code.push(OpCode::Return);
    assert_eq!(value(&c, &code), 101.0);
}

#[test]
fn running_off_the_end_is_a_runtime_error() {
    assert_eq!(run(&[], &[]), InterpretResult::RuntimeError);
    assert_eq!(run(&[1.0], &[OpCode::Constant(0)]), InterpretResult::RuntimeError);
    assert_eq!(
        run(&[1.0, 2.0], &[OpCode::Constant(0), OpCode::Constant(1), OpCode::Add]),
        InterpretResult::RuntimeError
    );
}

#[test]
fn the_stack_holds_256_values_and_no_more() {
    assert_eq!(STACK_CAPACITY, 256);
    let constants = vec![1.0; 257];
    let mut fits = push_all(256);
    fits.push(OpCode::Sum(256));
    fits.push(OpCode::Return);
    assert_eq!(value(&constants, &fits), 256.0);
    let mut overflows = push_all(257);
    overflows.push(OpCode::Return);
    assert_eq!(run(&constants, &overflows), InterpretResult::RuntimeError);
    let mut full = push_all(256);
    full.push(OpCode::Min(0));
    full.push(OpCode::Return);
    assert_eq!(run(&constants, &full), InterpretResult::RuntimeError);
}

#[test]
fn missing_operands_are_a_runtime_error() {
    assert_eq!(run(&[], &[OpCode::Return]), InterpretResult::RuntimeError);
    assert_eq!(run(&[1.0], &[OpCode::Constant(0), OpCode::Add, OpCode::Return]), InterpretResult::RuntimeError);
    assert_eq!(run(&[], &[OpCode::Negate, OpCode::Return]), InterpretResult::RuntimeError);
    assert_eq!(run(&[1.0], &[OpCode::Constant(0), OpCode::Sum(2), OpCode::Return]), InterpretResult::RuntimeError);
    assert_eq!(
        run(&[1.0, 2.0], &[OpCode::Constant(0), OpCode::Constant(1), OpCode::Lookup, OpCode::Return]),
        InterpretResult::RuntimeError
    );
    assert_eq!(run(&[1.0], &[OpCode::Constant(0), OpCode::Shift, OpCode::Return]), InterpretResult::RuntimeError);
}

#[test]
fn a_machine_can_be_run_again_from_where_it_stopped() {
    let chunk = program(&[1.0, 2.0], &[OpCode::Constant(0), OpCode::Return, OpCode::Constant(1), OpCode::Return]);
    let mut vm = VM::new(chunk);
    assert_eq!(vm.run(), InterpretResult::Success(num(1.0)));
    assert_eq!(vm.run(), InterpretResult::Success(num(2.0)));
    assert_eq!(vm.run(), InterpretResult::RuntimeError);
}

#[test]
fn compiling_a_tree_by_hand() {
    let tree = Expr::Binary {
        op: BinaryOp::Sub,
        lhs: Box::new(Expr::Binary {
            op: BinaryOp::Mul,
            lhs: Box::new(Expr::Literal(num(2.0))),
            rhs: Box::new(Expr::Literal(num(3.0))),
        }),
        rhs: Box::new(Expr::DimensionRef("Cost".to_string())),
    };
    let chunk = Compiler::new().compile(&tree);
    assert_eq!(
        chunk.code,
        vec![OpCode::Constant(0), OpCode::Constant(1), OpCode::Sub, OpCode::Return]
    );
    assert_eq!(chunk.constants, vec![num(6.0), num(0.0)]);
    assert_eq!(VM::new(chunk).run(), InterpretResult::Success(num(6.0)));
}

#[test]
fn each_operator_folds_to_its_result() {
    let fold = |op: BinaryOp| {
        let tree = Expr::Binary {
            op,
            lhs: Box::new(Expr::Literal(num(7.0))),
            rhs: Box::new(Expr::Literal(num(2.0))),
        };
        let chunk = Compiler::new().compile(&tree);
        assert_eq!(chunk.code, vec![OpCode::Constant(0), OpCode::Return]);
        f64::from_bits(chunk.constants[0].to_bits())
    };
    assert_eq!(fold(BinaryOp::Add), 9.0);
    assert_eq!(fold(BinaryOp::Sub), 5.0);
    assert_eq!(fold(BinaryOp::Mul), 14.0);
    assert_eq!(fold(BinaryOp::Div), 3.5);
    assert_eq!(f64::from_bits(BinaryOp::Div.eval(num(1.0), num(4.0)).to_bits()), 0.25);
}

#[test]
fn only_children_of_two_coordinates_expand() {
    let compile = |tree: &Expr| Compiler::new().compile(tree);
    let hierarchy = |name: &str, args: Vec<Expr>| Expr::HierarchyCall { name: name.to_string(), args };
    let dim = |name: &str| Expr::DimensionRef(name.to_string());
    let expanded = compile(&hierarchy("Children", vec![dim("Region"), dim("Europe")]));
    assert_eq!(
        expanded.code,
        vec![OpCode::Constant(0), OpCode::Constant(1), OpCode::Constant(2), OpCode::Return]
    );
    assert_eq!(expanded.constants, vec![num(0.0); 3]);
    let only_return = vec![OpCode::Return];
    assert_eq!(compile(&hierarchy("Children", vec![dim("Region"), dim("Mars")])).code, only_return);
    assert_eq!(compile(&hierarchy("Parents", vec![dim("Region"), dim("Europe")])).code, only_return);
    assert_eq!(compile(&hierarchy("Children", vec![dim("Europe")])).code, only_return);
    assert_eq!(
        compile(&hierarchy("Children", vec![dim("Region"), Expr::Literal(num(1.0))])).code,
        only_return
    );
    assert_eq!(
        compile(&hierarchy("Children", vec![dim("a"), dim("Europe"), dim("c")])).code,
        only_return
    );
}

#[test]
fn members_become_placeholder_loads() {
    let mut compiler = Compiler::with_resolver(MockHierarchyResolver);
    let members = vec!["a".to_string(), "b".to_string()];
    assert_eq!(compiler.compile_members(&members), 2);
    assert_eq!(compiler.compile_members(&Vec::new()), 0);
    let chunk = compiler.compile(&Expr::Literal(num(9.0)));
    assert_eq!(
        chunk.code,
        vec![OpCode::Constant(0), OpCode::Constant(1), OpCode::Constant(2), OpCode::Return]
    );
    assert_eq!(chunk.constants, vec![num(0.0), num(0.0), num(9.0)]);
}

#[test]
fn the_mock_hierarchy() {
    let mock = MockHierarchyResolver;
    assert_eq!(mock.get_children("Region", "North America"), vec!["USA", "Canada", "Mexico"]);
    assert_eq!(mock.get_children("Anything", "Europe"), vec!["UK", "France", "Germany"]);
    assert!(mock.get_children("Region", "Asia").is_empty());
    assert_eq!(mock.get_parent("Region", "USA"), Some("North America".to_string()));
    assert_eq!(mock.get_parent("Region", "Canada"), None);
    assert_eq!(mock.get_descendants("Region", "Europe"), vec!["UK", "France", "Germany"]);
    assert!(mock.get_descendants("Region", "USA").is_empty());
}
