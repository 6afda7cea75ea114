//! From formula text to a number, what formulas mean, and proofs that the
//! machine computes it.
use crate::atom_script::ast::Ast;
use crate::atom_script::chunk::OpCode;
use crate::atom_script::compiler::{arities_fit, compiled, Children, Compiler};
use crate::atom_script::lexer::Lexeme;
use crate::atom_script::parser::{parse_formula, tokens, ParseError, Parser};
use crate::atom_script::vm::VM;
use crate::lattice::metadata::{HierarchyResolver, MockHierarchyResolver};
use crate::atom_script::ast::BinaryOp;
use crate::atom_script::precedence::{
    flat, is_operator_tree, lemma_flat_formula_parses_to_standard_tree,
    lemma_parenthesised_formula_parses_back, lemma_root_is_last_weakest, parenthesised, root,
    standard_tree, strength,
};
use crate::atom_script::semantics::{
    is_operand, lemma_compiled_formula_evaluates, stack_need, values,
};
use crate::atom_script::vm::{
    max_of, max_step, min_of, min_step, operand_count, popped, pushed_value, sum_of,
    InterpretResult, Machine, STACK_CAPACITY,
};
use crate::scalar::Scalar;
use vstd::prelude::*;

verus! {

/// What evaluating a formula gives: `CompileError` for text that is no
/// formula or has a call with more operands than an instruction can count,
/// otherwise what running the compiled program gives.
pub open spec fn evaluation(text: Seq<char>, children: Children) -> InterpretResult {
    match parse_formula(tokens(text)).0 {
        Ok(tree) => if arities_fit(tree, children) {
            Machine::start(compiled(tree, children)).run().0
        } else {
            InterpretResult::CompileError
        },
        Err(_) => InterpretResult::CompileError,
    }
}

/// Parses, compiles and runs a formula, expanding hierarchy calls with
/// `resolver`.
pub fn evaluate_with<R: HierarchyResolver>(source: &str, resolver: R) -> (result: InterpretResult)
    ensures
        result == evaluation(
            source@,
            |dimension: Seq<char>, member: Seq<char>| resolver.children(dimension, member),
        ),
{
    let mut parser = Parser::new(source);
    let expr = match parser.parse() {
        Ok(expr) => expr,
        Err(_) => {
            return InterpretResult::CompileError;
        },
    };
    let compiler = Compiler::with_resolver(resolver);
    if !compiler.fits(&expr) {
        return InterpretResult::CompileError;
    }
    let chunk = compiler.compile(&expr);
    let mut vm = VM::new(chunk);
    vm.run()
}

/// Parses, compiles and runs a formula with the mock hierarchy.
pub fn evaluate(source: &str) -> (result: InterpretResult)
    ensures
        result == evaluation(
            source@,
            |dimension: Seq<char>, member: Seq<char>|
                MockHierarchyResolver.children(dimension, member),
        ),
{
    evaluate_with(source, MockHierarchyResolver)
}

/// Whether a tree is built from literals and the four operators alone.
pub open spec fn is_arithmetic(expr: Ast) -> bool
    decreases expr,
{
    match expr {
        Ast::Literal(_) => true,
        Ast::Binary { op, lhs, rhs } => is_arithmetic(*lhs) && is_arithmetic(*rhs),
        _ => false,
    }
}

/// The value of an arithmetic tree: each operator applied to the values of
/// its operands, left operand first.
pub open spec fn value(expr: Ast) -> Scalar
    recommends
        is_arithmetic(expr),
    decreases expr,
{
    match expr {
        Ast::Literal(v) => v,
        Ast::Binary { op, lhs, rhs } => op.apply(value(*lhs), value(*rhs)),
        _ => Scalar::zero(),
    }
}

/// An arithmetic tree is evaluable, leaves one number, and that number is
/// its value.
pub proof fn lemma_arithmetic_is_evaluable(expr: Ast, children: Children)
    requires
        is_arithmetic(expr),
    ensures
        is_operand(expr, children),
        values(expr, children) == seq![value(expr)],
    decreases expr,
{
    match expr {
        Ast::Binary { op, lhs, rhs } => {
            lemma_arithmetic_is_evaluable(*lhs, children);
            lemma_arithmetic_is_evaluable(*rhs, children);
        },
        _ => {},
    }
}

/// A compiled arithmetic formula evaluates to the value of its tree: each
/// operator applied to its operands' values, left operand first. This holds
/// whenever the formula's operands fit on the stack and its constants can be
/// indexed.
pub proof fn lemma_compiled_arithmetic_evaluates(expr: Ast, children: Children)
    requires
        is_arithmetic(expr),
        stack_need(expr, children) <= STACK_CAPACITY,
        compiled(expr, children).constants.len() <= usize::MAX,
    ensures
        Machine::start(compiled(expr, children)).run().0 == InterpretResult::Success(value(expr)),
{
    lemma_arithmetic_is_evaluable(expr, children);
    lemma_compiled_formula_evaluates(expr, children);
}

/// An arithmetic tree is an operator tree.
proof fn lemma_arithmetic_is_operator_tree(expr: Ast)
    requires
        is_arithmetic(expr),
    ensures
        is_operator_tree(expr),
    decreases expr,
{
    match expr {
        Ast::Binary { op, lhs, rhs } => {
            lemma_arithmetic_is_operator_tree(*lhs);
            lemma_arithmetic_is_operator_tree(*rhs);
        },
        _ => {},
    }
}

/// From spelling to number: the parenthesised spelling of an arithmetic
/// tree parses to the tree, and the tree's compiled program evaluates to
/// the tree's value.
pub proof fn lemma_arithmetic_formula_round_trip(expr: Ast, children: Children)
    requires
        is_arithmetic(expr),
        stack_need(expr, children) <= STACK_CAPACITY,
        compiled(expr, children).constants.len() <= usize::MAX,
    ensures
        parse_formula(parenthesised(expr)) == (Ok::<Ast, ParseError>(expr), Seq::<Lexeme>::empty()),
        Machine::start(compiled(expr, children)).run().0 == InterpretResult::Success(value(expr)),
{
    lemma_arithmetic_is_operator_tree(expr);
    lemma_parenthesised_formula_parses_back(expr);
    lemma_compiled_arithmetic_evaluates(expr, children);
}

/// The standard tree of a formula without parentheses is arithmetic, and
/// its code never has more than three numbers on the stack, nor more than
/// two where every operator is `*` or `/`.
proof fn lemma_standard_tree_is_shallow(
    nums: Seq<Scalar>,
    ops: Seq<BinaryOp>,
    lo: int,
    hi: int,
    children: Children,
)
    requires
        nums.len() == ops.len() + 1,
        0 <= lo <= hi <= ops.len(),
    ensures
        is_arithmetic(standard_tree(nums, ops, lo, hi)),
        stack_need(standard_tree(nums, ops, lo, hi), children) <= 3,
        (forall|j: int| lo <= j < hi ==> strength(#[trigger] ops[j]) >= 3) ==> stack_need(
            standard_tree(nums, ops, lo, hi),
            children,
        ) <= 2,
    decreases hi - lo,
{
    if lo < hi {
        let k = root(ops, lo, hi);
        lemma_root_is_last_weakest(ops, lo, hi);
        lemma_standard_tree_is_shallow(nums, ops, lo, k, children);
        lemma_standard_tree_is_shallow(nums, ops, k + 1, hi, children);
        if k + 1 < hi {
            // What follows the root binds tighter than it: the root is
            // `+` or `-`, and only `*` and `/` follow.
            assert(strength(ops[k + 1]) > strength(ops[k]));
            assert forall|j: int| k + 1 <= j < hi implies strength(#[trigger] ops[j]) >= 3 by {
                assert(strength(ops[j]) > strength(ops[k]));
            }
        }
    }
}

/// A formula of numbers and arithmetic operators without parentheses is
/// evaluated as arithmetic is commonly read: it parses to its standard
/// tree, in which `*` and `/` bind tighter than `+` and `-` and operators of
/// one strength group from the left, and its compiled program yields the
/// value of that tree. The stack never runs full on such a formula.
pub proof fn lemma_flat_formula_evaluates(
    nums: Seq<Scalar>,
    ops: Seq<BinaryOp>,
    children: Children,
)
    requires
        nums.len() == ops.len() + 1,
        compiled(standard_tree(nums, ops, 0, ops.len() as int), children).constants.len()
            <= usize::MAX,
    ensures
        parse_formula(flat(nums, ops)) == (
            Ok::<Ast, ParseError>(standard_tree(nums, ops, 0, ops.len() as int)),
            Seq::<Lexeme>::empty(),
        ),
        Machine::start(
            compiled(standard_tree(nums, ops, 0, ops.len() as int), children),
        ).run().0 == InterpretResult::Success(
            value(standard_tree(nums, ops, 0, ops.len() as int)),
        ),
{
    lemma_flat_formula_parses_to_standard_tree(nums, ops);
    lemma_standard_tree_is_shallow(nums, ops, 0, ops.len() as int, children);
    lemma_compiled_arithmetic_evaluates(standard_tree(nums, ops, 0, ops.len() as int), children);
}

/// A program that holds no `Return` from the next instruction on ends in
/// `RuntimeError`: by an error on the way, or by running off its end.
pub proof fn lemma_no_return_is_runtime_error(machine: Machine)
    requires
        forall|i: int|
            machine.ip <= i < machine.program.code.len() ==> machine.program.code[i]
                != OpCode::Return,
    ensures
        machine.run().0 == InterpretResult::RuntimeError,
    decreases machine.program.code.len() - machine.ip,
{
    let (halt, next) = machine.step();
    if halt is None {
        lemma_no_return_is_runtime_error(next);
    }
}

/// On a full stack, an instruction that pushes without popping ends the run
/// in `RuntimeError`: the stack never holds more than `STACK_CAPACITY`
/// numbers.
pub proof fn lemma_push_on_full_stack_is_runtime_error(machine: Machine)
    requires
        machine.ip < machine.program.code.len(),
        operand_count(machine.program.code[machine.ip as int]) == 0,
        machine.stack.len() >= STACK_CAPACITY,
    ensures
        machine.run().0 == InterpretResult::RuntimeError,
{
    assert(machine.stack.take(machine.stack.len() - 0) =~= machine.stack);
}

/// Whether `op` is one of the four aggregates over `n` operands.
pub open spec fn is_aggregate(op: OpCode, n: nat) -> bool {
    ||| op == OpCode::Sum(n as usize)
    ||| op == OpCode::Avg(n as usize)
    ||| op == OpCode::Min(n as usize)
    ||| op == OpCode::Max(n as usize)
}

/// An aggregate over a stack that holds exactly its operands, followed by
/// `Return`, yields the aggregate of the operands taken from the top down:
/// their sum from zero, that sum divided by their number, their minimum
/// from the largest finite number, or their maximum from the most negative
/// one. With no operand at all, `Min` and `Max` yield those starting values.
pub proof fn lemma_aggregate_of_whole_stack(machine: Machine)
    requires
        machine.ip + 1 < machine.program.code.len(),
        machine.stack.len() <= STACK_CAPACITY,
        machine.stack.len() <= usize::MAX,
        is_aggregate(machine.program.code[machine.ip as int], machine.stack.len()),
        machine.program.code[machine.ip as int + 1] == OpCode::Return,
    ensures
        machine.run().0 == InterpretResult::Success(
            pushed_value(
                machine.program.code[machine.ip as int],
                machine.stack.reverse(),
                machine.program.constants,
            ),
        ),
        min_of(Seq::empty()) == Scalar::max_finite(),
        max_of(Seq::empty()) == Scalar::min_finite(),
        sum_of(Seq::empty()) == Scalar::zero(),
{
    let op = machine.program.code[machine.ip as int];
    let n = machine.stack.len();
    assert(popped(machine.stack, n) =~= machine.stack.reverse());
    let rest = machine.stack.take(0);
    assert(rest =~= Seq::<Scalar>::empty());
    let value = pushed_value(op, machine.stack.reverse(), machine.program.constants);
    let (halt, next) = machine.step();
    assert(halt is None);
    assert(next.stack =~= seq![value]);
    let (halt2, last) = next.step();
    assert(popped(next.stack, 1)[0] == value);
    assert(halt2 == Some(InterpretResult::Success(value)));
    assert(next.run().0 == InterpretResult::Success(value));
}

/// The minimum of a sequence is a number, is at most the starting value and
/// at most every member, and is the starting value or a member.
pub proof fn lemma_min_is_least(values: Seq<Scalar>)
    ensures
        !min_of(values).is_nan(),
        !Scalar::max_finite().less_than(min_of(values)),
        forall|i: int| 0 <= i < values.len() ==> !(#[trigger] values[i]).less_than(min_of(values)),
        min_of(values) == Scalar::max_finite() || values.contains(min_of(values)),
    decreases values.len(),
{
    if values.len() > 0 {
        let front = values.drop_last();
        lemma_min_is_least(front);
        assert(min_of(values) == min_step(min_of(front), values.last()));
        assert forall|i: int| 0 <= i < values.len() implies !(#[trigger] values[i]).less_than(
            min_of(values),
        ) by {
            if i < values.len() - 1 {
                assert(values[i] == front[i]);
            }
        }
        if min_of(values) != Scalar::max_finite() {
            if min_of(values) == values.last() {
                assert(values[values.len() - 1] == min_of(values));
            } else {
                let i = choose|i: int| 0 <= i < front.len() && front[i] == min_of(front);
                assert(values[i] == min_of(values));
            }
        }
    }
}

/// The maximum of a sequence is a number, is at least the starting value and
/// at least every member, and is the starting value or a member.
pub proof fn lemma_max_is_greatest(values: Seq<Scalar>)
    ensures
        !max_of(values).is_nan(),
        !max_of(values).less_than(Scalar::min_finite()),
        forall|i: int| 0 <= i < values.len() ==> !max_of(values).less_than(#[trigger] values[i]),
        max_of(values) == Scalar::min_finite() || values.contains(max_of(values)),
    decreases values.len(),
{
    if values.len() > 0 {
        let front = values.drop_last();
        lemma_max_is_greatest(front);
        assert(max_of(values) == max_step(max_of(front), values.last()));
        assert forall|i: int| 0 <= i < values.len() implies !max_of(values).less_than(
            #[trigger] values[i],
        ) by {
            if i < values.len() - 1 {
                assert(values[i] == front[i]);
            }
        }
        if max_of(values) != Scalar::min_finite() {
            if max_of(values) == values.last() {
                assert(values[values.len() - 1] == max_of(values));
            } else {
                let i = choose|i: int| 0 <= i < front.len() && front[i] == max_of(front);
                assert(values[i] == max_of(values));
            }
        }
    }
}

/// `Min` and `Max` do not depend on the order of their operands: two
/// arrangements of the same numbers give results at the same place on the
/// number line. (The results can differ in the sign of a zero, which the
/// order of two zeros of opposite sign decides.)
pub proof fn lemma_min_max_ignore_order(a: Seq<Scalar>, b: Seq<Scalar>)
    requires
        a.to_multiset() == b.to_multiset(),
    ensures
        min_of(a).rank() == min_of(b).rank(),
        max_of(a).rank() == max_of(b).rank(),
{
    a.to_multiset_ensures();
    b.to_multiset_ensures();
    lemma_min_is_least(a);
    lemma_min_is_least(b);
    lemma_max_is_greatest(a);
    lemma_max_is_greatest(b);
    let (min_a, min_b) = (min_of(a), min_of(b));
    if min_a != Scalar::max_finite() {
        assert(a.to_multiset().count(min_a) > 0);
        assert(b.to_multiset().count(min_a) > 0);
        assert(b.contains(min_a));
        let i = choose|i: int| 0 <= i < b.len() && b[i] == min_a;
        assert(!b[i].less_than(min_b));
    }
    if min_b != Scalar::max_finite() {
        assert(b.to_multiset().count(min_b) > 0);
        assert(a.to_multiset().count(min_b) > 0);
        assert(a.contains(min_b));
        let i = choose|i: int| 0 <= i < a.len() && a[i] == min_b;
        assert(!a[i].less_than(min_a));
    }
    let (max_a, max_b) = (max_of(a), max_of(b));
    if max_a != Scalar::min_finite() {
        assert(a.to_multiset().count(max_a) > 0);
        assert(b.to_multiset().count(max_a) > 0);
        assert(b.contains(max_a));
        let i = choose|i: int| 0 <= i < b.len() && b[i] == max_a;
        assert(!max_b.less_than(b[i]));
    }
    if max_b != Scalar::min_finite() {
        assert(b.to_multiset().count(max_b) > 0);
        assert(a.to_multiset().count(max_b) > 0);
        assert(a.contains(max_b));
        let i = choose|i: int| 0 <= i < a.len() && a[i] == max_b;
        assert(!max_a.less_than(a[i]));
    }
}

} // verus!
