//! What compiled code does to the operand stack, and the proof that the
//! machine does it.
use crate::atom_script::ast::Ast;
use crate::atom_script::chunk::{OpCode, Program};
use crate::atom_script::compiler::{
    binary_opcode, call_opcode, compiled, emit, emit_all, emit_members, is_children_call,
    lemma_emit_extends, lemma_emit_members_shape, pushed_count, total_pushed, Children,
};
use crate::atom_script::vm::{
    operand_count, popped, pushed_value, InterpretResult, Machine, STACK_CAPACITY,
};
use crate::scalar::Scalar;
use vstd::prelude::*;

verus! {

/// `count` zeros.
pub open spec fn zeros(count: nat) -> Seq<Scalar> {
    Seq::new(count, |i: int| Scalar::zero())
}

/// The numbers the code for `expr` leaves on the stack, first pushed first.
///
/// A coordinate stands for zero until coordinates are read from cell
/// storage. A shifted value is the value itself. A function takes the
/// numbers its arguments leave, last pushed first, and leaves its result.
pub open spec fn values(expr: Ast, children: Children) -> Seq<Scalar>
    decreases expr,
{
    match expr {
        Ast::Literal(value) => seq![value],
        Ast::Identifier(_) => Seq::empty(),
        Ast::DimensionRef(_) => seq![Scalar::zero()],
        Ast::Binary { op, lhs, rhs } => seq![
            op.apply(values(*lhs, children)[0], values(*rhs, children)[0]),
        ],
        Ast::FunctionCall { name, args } => {
            let operands = all_values(args, children);
            match call_opcode(name, operands.len()) {
                Some(op) => seq![pushed_value(op, operands.reverse(), Seq::empty())],
                None => operands,
            }
        },
        Ast::HierarchyCall { name, args } => zeros(pushed_count(expr, children)),
        Ast::TimeTravel { lhs, rhs } => seq![values(*lhs, children)[0]],
    }
}

/// The numbers the code for all of `exprs` leaves on the stack.
pub open spec fn all_values(exprs: Seq<Ast>, children: Children) -> Seq<Scalar>
    decreases exprs,
{
    if exprs.len() == 0 {
        Seq::empty()
    } else {
        all_values(exprs.drop_last(), children) + values(exprs.last(), children)
    }
}

/// Whether `expr` can stand as an operand: its code runs without finding
/// the stack short and leaves exactly one number.
pub open spec fn is_operand(expr: Ast, children: Children) -> bool
    decreases expr, 1int,
{
    evaluable(expr, children) && pushed_count(expr, children) == 1
}

/// Whether the code for `expr` runs without finding the stack short and
/// leaves as many numbers as the compiler counts for it.
///
/// A bare name and a call of an unknown function are not evaluable, nor is
/// a `LOOKUP` whose arguments do not leave exactly three numbers.
pub open spec fn evaluable(expr: Ast, children: Children) -> bool
    decreases expr, 0int,
{
    match expr {
        Ast::Literal(_) => true,
        Ast::Identifier(_) => false,
        Ast::DimensionRef(_) => true,
        Ast::Binary { op, lhs, rhs } => match (*lhs, *rhs) {
            (Ast::Literal(_), Ast::Literal(_)) => true,
            _ => is_operand(*lhs, children) && is_operand(*rhs, children),
        },
        Ast::FunctionCall { name, args } => {
            &&& call_opcode(name, 0) is Some
            &&& total_pushed(args, children) <= usize::MAX
            &&& name == "LOOKUP"@ ==> total_pushed(args, children) == 3
            &&& forall|i: int| 0 <= i < args.len() ==> evaluable(#[trigger] args[i], children)
        },
        Ast::HierarchyCall { name, args } => true,
        Ast::TimeTravel { lhs, rhs } => is_operand(*lhs, children) && is_operand(*rhs, children),
    }
}

/// The larger of two numbers.
pub open spec fn larger(a: nat, b: nat) -> nat {
    if a >= b {
        a
    } else {
        b
    }
}

/// The deepest the operand stack gets while the code for `expr` runs,
/// counted from where it started.
pub open spec fn stack_need(expr: Ast, children: Children) -> nat
    decreases expr,
{
    match expr {
        Ast::Literal(_) => 1,
        Ast::Identifier(_) => 0,
        Ast::DimensionRef(_) => 1,
        Ast::Binary { op, lhs, rhs } => match (*lhs, *rhs) {
            (Ast::Literal(_), Ast::Literal(_)) => 1,
            _ => larger(stack_need(*lhs, children), 1 + stack_need(*rhs, children)),
        },
        Ast::FunctionCall { name, args } => larger(all_stack_need(args, children), 1),
        Ast::HierarchyCall { name, args } => pushed_count(expr, children),
        Ast::TimeTravel { lhs, rhs } => larger(
            stack_need(*lhs, children),
            1 + stack_need(*rhs, children),
        ),
    }
}

/// The deepest the operand stack gets while the code for all of `exprs`
/// runs.
pub open spec fn all_stack_need(exprs: Seq<Ast>, children: Children) -> nat
    decreases exprs,
{
    if exprs.len() == 0 {
        0
    } else {
        larger(
            all_stack_need(exprs.drop_last(), children),
            total_pushed(exprs.drop_last(), children) + stack_need(exprs.last(), children),
        )
    }
}

/// An evaluable expression leaves as many numbers as the compiler counts.
pub proof fn lemma_values_len(expr: Ast, children: Children)
    requires
        evaluable(expr, children),
    ensures
        values(expr, children).len() == pushed_count(expr, children),
    decreases expr,
{
    match expr {
        Ast::FunctionCall { name, args } => {
            lemma_all_values_len(args, children);
        },
        _ => {},
    }
}

/// Evaluable expressions together leave as many numbers as the compiler
/// counts.
pub proof fn lemma_all_values_len(exprs: Seq<Ast>, children: Children)
    requires
        forall|i: int| 0 <= i < exprs.len() ==> evaluable(#[trigger] exprs[i], children),
    ensures
        all_values(exprs, children).len() == total_pushed(exprs, children),
    decreases exprs,
{
    if exprs.len() > 0 {
        let front = exprs.drop_last();
        assert forall|i: int| 0 <= i < front.len() implies evaluable(
            #[trigger] front[i],
            children,
        ) by {
            assert(front[i] == exprs[i]);
        }
        lemma_all_values_len(front, children);
        assert(exprs.last() == exprs[exprs.len() - 1]);
        lemma_values_len(exprs.last(), children);
    }
}

/// A prefix agrees with the whole sequence at each of its indices.
proof fn lemma_prefix_index<A>(prefix: Seq<A>, whole: Seq<A>, i: int)
    requires
        prefix.is_prefix_of(whole),
        0 <= i < prefix.len(),
    ensures
        prefix[i] == whole[i],
{
    assert(prefix[i] == whole.subrange(0, prefix.len() as int)[i]);
}

/// A prefix of a prefix is a prefix.
proof fn lemma_prefix_transitive<A>(a: Seq<A>, b: Seq<A>, c: Seq<A>)
    requires
        a.is_prefix_of(b),
        b.is_prefix_of(c),
    ensures
        a.is_prefix_of(c),
{
    assert forall|i: int| 0 <= i < a.len() implies a[i] == c[i] by {
        lemma_prefix_index(a, b, i);
        lemma_prefix_index(b, c, i);
    }
    assert(a =~= c.subrange(0, a.len() as int));
}

/// A machine whose next instruction loads a constant continues as the
/// machine that has pushed it.
proof fn lemma_step_constant(program: Program, stack: Seq<Scalar>, ip: nat, index: usize)
    requires
        ip < program.code.len(),
        program.code[ip as int] == OpCode::Constant(index),
        index < program.constants.len(),
        stack.len() < STACK_CAPACITY,
    ensures
        (Machine { program, stack, ip }).run() == (Machine {
            program,
            stack: stack.push(program.constants[index as int]),
            ip: ip + 1,
        }).run(),
{
    assert(popped(stack, 0) =~= Seq::<Scalar>::empty());
    assert(stack.take(stack.len() - 0) =~= stack);
}

/// A machine whose next instruction takes the operands on top of its stack
/// continues as the machine that has replaced them by the instruction's
/// result.
proof fn lemma_step_operation(
    program: Program,
    base: Seq<Scalar>,
    operands: Seq<Scalar>,
    ip: nat,
    op: OpCode,
)
    requires
        ip < program.code.len(),
        program.code[ip as int] == op,
        op != OpCode::Return,
        !(op is Constant),
        operand_count(op) == operands.len(),
        base.len() < STACK_CAPACITY,
    ensures
        (Machine { program, stack: base + operands, ip }).run() == (Machine {
            program,
            stack: base.push(pushed_value(op, operands.reverse(), Seq::empty())),
            ip: ip + 1,
        }).run(),
{
    let stack = base + operands;
    let n = operands.len();
    assert(popped(stack, n) =~= operands.reverse());
    assert(stack.take(stack.len() - n) =~= base);
    assert(pushed_value(op, operands.reverse(), program.constants) == pushed_value(
        op,
        operands.reverse(),
        Seq::empty(),
    ));
}

/// The loads of expanded members push one zero each.
proof fn lemma_members_push_zeros(
    whole: Program,
    before: Program,
    members: Seq<Seq<char>>,
    stack: Seq<Scalar>,
)
    requires
        emit_members(before, members).code.is_prefix_of(whole.code),
        emit_members(before, members).constants.is_prefix_of(whole.constants),
        before.constants.len() + members.len() <= usize::MAX,
        stack.len() + members.len() <= STACK_CAPACITY,
    ensures
        (Machine { program: whole, stack, ip: before.code.len() }).run() == (Machine {
            program: whole,
            stack: stack + zeros(members.len()),
            ip: emit_members(before, members).code.len(),
        }).run(),
    decreases members.len(),
{
    let after = emit_members(before, members);
    if members.len() == 0 {
        assert(stack + zeros(0) =~= stack);
    } else {
        let front = members.drop_last();
        let middle = emit_members(before, front);
        lemma_emit_members_shape(before, front);
        lemma_emit_members_shape(before, members);
        assert(middle.code.is_prefix_of(after.code));
        assert(middle.constants.is_prefix_of(after.constants));
        lemma_prefix_transitive(middle.code, after.code, whole.code);
        lemma_prefix_transitive(middle.constants, after.constants, whole.constants);
        lemma_members_push_zeros(whole, before, front, stack);
        let ip = middle.code.len();
        let index = middle.constants.len() as usize;
        lemma_prefix_index(after.code, whole.code, ip as int);
        lemma_prefix_index(after.constants, whole.constants, index as int);
        lemma_step_constant(whole, stack + zeros(front.len()), ip, index);
        assert((stack + zeros(front.len())).push(Scalar::zero()) =~= stack + zeros(members.len()));
    }
}

/// Running the code of an evaluable expression, wherever it stands in a
/// larger program, pushes the expression's values and continues after the
/// code.
pub proof fn lemma_code_pushes_values(
    whole: Program,
    before: Program,
    expr: Ast,
    children: Children,
    stack: Seq<Scalar>,
)
    requires
        evaluable(expr, children),
        emit(before, expr, children).code.is_prefix_of(whole.code),
        emit(before, expr, children).constants.is_prefix_of(whole.constants),
        emit(before, expr, children).constants.len() <= usize::MAX,
        stack.len() + stack_need(expr, children) <= STACK_CAPACITY,
    ensures
        (Machine { program: whole, stack, ip: before.code.len() }).run() == (Machine {
            program: whole,
            stack: stack + values(expr, children),
            ip: emit(before, expr, children).code.len(),
        }).run(),
    decreases expr, 1int,
{
    let after = emit(before, expr, children);
    let ip = before.code.len();
    match expr {
        Ast::Literal(v) => {
            let index = before.constants.len() as usize;
            lemma_prefix_index(after.code, whole.code, ip as int);
            lemma_prefix_index(after.constants, whole.constants, index as int);
            lemma_step_constant(whole, stack, ip, index);
            assert(stack.push(v) =~= stack + values(expr, children));
        },
        Ast::DimensionRef(_) => {
            let index = before.constants.len() as usize;
            lemma_prefix_index(after.code, whole.code, ip as int);
            lemma_prefix_index(after.constants, whole.constants, index as int);
            lemma_step_constant(whole, stack, ip, index);
            assert(stack.push(Scalar::zero()) =~= stack + values(expr, children));
        },
        Ast::Identifier(_) => {},
        Ast::Binary { op, lhs, rhs } => match (*lhs, *rhs) {
            (Ast::Literal(l), Ast::Literal(r)) => {
                assert(values(*lhs, children)[0] == l && values(*rhs, children)[0] == r);
                let index = before.constants.len() as usize;
                lemma_prefix_index(after.code, whole.code, ip as int);
                lemma_prefix_index(after.constants, whole.constants, index as int);
                lemma_step_constant(whole, stack, ip, index);
                assert(stack.push(op.apply(l, r)) =~= stack + values(expr, children));
            },
            _ => {
                lemma_pair_pushes_values(
                    whole,
                    before,
                    expr,
                    *lhs,
                    *rhs,
                    binary_opcode(op),
                    children,
                    stack,
                );
                let (l, r) = (values(*lhs, children)[0], values(*rhs, children)[0]);
                assert(pushed_value(binary_opcode(op), seq![l, r].reverse(), Seq::empty())
                    == op.apply(l, r));
                assert(stack.push(op.apply(l, r)) =~= stack + values(expr, children));
            },
        },
        Ast::TimeTravel { lhs, rhs } => {
            lemma_pair_pushes_values(
                whole,
                before,
                expr,
                *lhs,
                *rhs,
                OpCode::Shift,
                children,
                stack,
            );
            let (l, r) = (values(*lhs, children)[0], values(*rhs, children)[0]);
            assert(pushed_value(OpCode::Shift, seq![l, r].reverse(), Seq::empty()) == l);
            assert(stack.push(l) =~= stack + values(expr, children));
        },
        Ast::FunctionCall { name, args } => {
            let after_args = emit_all(before, args, children);
            let operands = all_values(args, children);
            let op = call_opcode(name, total_pushed(args, children))->0;
            lemma_all_values_len(args, children);
            assert(after == after_args.emit(op));
            assert(after_args.code.is_prefix_of(after.code));
            lemma_prefix_transitive(after_args.code, after.code, whole.code);
            lemma_codes_push_values(whole, before, args, children, stack);
            let at_op = after_args.code.len();
            lemma_prefix_index(after.code, whole.code, at_op as int);
            lemma_step_operation(whole, stack, operands, at_op, op);
            assert(stack.push(pushed_value(op, operands.reverse(), Seq::empty())) =~= stack
                + values(expr, children));
        },
        Ast::HierarchyCall { name, args } => {
            if is_children_call(name, args) {
                let members = children(args[0]->DimensionRef_0, args[1]->DimensionRef_0);
                lemma_emit_members_shape_len(before, members);
                lemma_members_push_zeros(whole, before, members, stack);
            } else {
                assert(stack + zeros(0) =~= stack);
            }
        },
    }
}

/// Expanding members adds one constant per member.
proof fn lemma_emit_members_shape_len(program: Program, members: Seq<Seq<char>>)
    ensures
        emit_members(program, members).constants.len() == program.constants.len() + members.len(),
        emit_members(program, members).code.len() == program.code.len() + members.len(),
    decreases members.len(),
{
    if members.len() > 0 {
        lemma_emit_members_shape_len(program, members.drop_last());
    }
}

/// Two operands and the instruction that combines them: the code pushes the
/// instruction's result for the operands' values.
proof fn lemma_pair_pushes_values(
    whole: Program,
    before: Program,
    parent: Ast,
    lhs: Ast,
    rhs: Ast,
    op: OpCode,
    children: Children,
    stack: Seq<Scalar>,
)
    requires
        (parent matches Ast::Binary { lhs: l, rhs: r, .. } && *l == lhs && *r == rhs) || (
        parent matches Ast::TimeTravel { lhs: l, rhs: r } && *l == lhs && *r == rhs),
        is_operand(lhs, children),
        is_operand(rhs, children),
        op != OpCode::Return,
        !(op is Constant),
        operand_count(op) == 2,
        emit(emit(before, lhs, children), rhs, children).emit(op).code.is_prefix_of(whole.code),
        emit(emit(before, lhs, children), rhs, children).constants.is_prefix_of(whole.constants),
        emit(emit(before, lhs, children), rhs, children).constants.len() <= usize::MAX,
        stack.len() + larger(stack_need(lhs, children), 1 + stack_need(rhs, children))
            <= STACK_CAPACITY,
    ensures
        (Machine { program: whole, stack, ip: before.code.len() }).run() == (Machine {
            program: whole,
            stack: stack.push(
                pushed_value(
                    op,
                    seq![values(lhs, children)[0], values(rhs, children)[0]].reverse(),
                    Seq::empty(),
                ),
            ),
            ip: emit(emit(before, lhs, children), rhs, children).emit(op).code.len(),
        }).run(),
    decreases parent, 0int,
{
    let after_lhs = emit(before, lhs, children);
    let after_rhs = emit(after_lhs, rhs, children);
    let after = after_rhs.emit(op);
    lemma_emit_extends(before, lhs, children);
    lemma_emit_extends(after_lhs, rhs, children);
    lemma_values_len(lhs, children);
    lemma_values_len(rhs, children);
    assert(after_rhs.code.is_prefix_of(after.code));
    lemma_prefix_transitive(after_rhs.code, after.code, whole.code);
    lemma_prefix_transitive(after_lhs.code, after_rhs.code, whole.code);
    lemma_prefix_transitive(after_lhs.constants, after_rhs.constants, whole.constants);
    let (l, r) = (values(lhs, children)[0], values(rhs, children)[0]);
    lemma_code_pushes_values(whole, before, lhs, children, stack);
    assert(stack + values(lhs, children) =~= stack.push(l));
    lemma_code_pushes_values(whole, after_lhs, rhs, children, stack.push(l));
    assert(stack.push(l) + values(rhs, children) =~= stack + seq![l, r]);
    let at_op = after_rhs.code.len();
    lemma_prefix_index(after.code, whole.code, at_op as int);
    lemma_step_operation(whole, stack, seq![l, r], at_op, op);
}

/// Running the code of a list of evaluable expressions pushes their values
/// in order and continues after the code.
pub proof fn lemma_codes_push_values(
    whole: Program,
    before: Program,
    exprs: Seq<Ast>,
    children: Children,
    stack: Seq<Scalar>,
)
    requires
        forall|i: int| 0 <= i < exprs.len() ==> evaluable(#[trigger] exprs[i], children),
        emit_all(before, exprs, children).code.is_prefix_of(whole.code),
        emit_all(before, exprs, children).constants.is_prefix_of(whole.constants),
        emit_all(before, exprs, children).constants.len() <= usize::MAX,
        stack.len() + all_stack_need(exprs, children) <= STACK_CAPACITY,
    ensures
        (Machine { program: whole, stack, ip: before.code.len() }).run() == (Machine {
            program: whole,
            stack: stack + all_values(exprs, children),
            ip: emit_all(before, exprs, children).code.len(),
        }).run(),
    decreases exprs, 1int,
{
    if exprs.len() == 0 {
        assert(stack + all_values(exprs, children) =~= stack);
    } else {
        let front = exprs.drop_last();
        let last = exprs.last();
        let middle = emit_all(before, front, children);
        let after = emit(middle, last, children);
        assert forall|i: int| 0 <= i < front.len() implies evaluable(
            #[trigger] front[i],
            children,
        ) by {
            assert(front[i] == exprs[i]);
        }
        assert(last == exprs[exprs.len() - 1]);
        lemma_emit_extends(middle, last, children);
        lemma_prefix_transitive(middle.code, after.code, whole.code);
        lemma_prefix_transitive(middle.constants, after.constants, whole.constants);
        lemma_all_values_len(front, children);
        lemma_codes_push_values(whole, before, front, children, stack);
        lemma_code_pushes_values(whole, middle, last, children, stack + all_values(front, children));
        assert((stack + all_values(front, children)) + values(last, children) =~= stack
            + all_values(exprs, children));
    }
}

/// The compiler and the machine agree: the compiled program of an evaluable
/// formula that leaves one number yields that number. This holds whenever
/// the formula's operands fit on the stack and its constants can be
/// indexed.
pub proof fn lemma_compiled_formula_evaluates(expr: Ast, children: Children)
    requires
        is_operand(expr, children),
        stack_need(expr, children) <= STACK_CAPACITY,
        compiled(expr, children).constants.len() <= usize::MAX,
    ensures
        Machine::start(compiled(expr, children)).run().0 == InterpretResult::Success(
            values(expr, children)[0],
        ),
{
    let body = emit(Program::empty(), expr, children);
    let whole = compiled(expr, children);
    let stack = Seq::<Scalar>::empty();
    lemma_values_len(expr, children);
    lemma_code_pushes_values(whole, Program::empty(), expr, children, stack);
    let value = values(expr, children)[0];
    assert(stack + values(expr, children) =~= seq![value]);
    assert(whole.code[body.code.len() as int] == OpCode::Return);
    assert(popped(seq![value], 1)[0] == value);
}

/// The trees of a list of numbers.
pub open spec fn literals(numbers: Seq<Scalar>) -> Seq<Ast> {
    Seq::new(numbers.len(), |i: int| Ast::Literal(numbers[i]))
}

/// Literal arguments leave their numbers, need one stack slot each, and
/// add one constant each.
proof fn lemma_literal_arguments(before: Program, numbers: Seq<Scalar>, children: Children)
    ensures
        all_values(literals(numbers), children) == numbers,
        total_pushed(literals(numbers), children) == numbers.len(),
        all_stack_need(literals(numbers), children) == numbers.len(),
        emit_all(before, literals(numbers), children).constants.len() == before.constants.len()
            + numbers.len(),
    decreases numbers.len(),
{
    let trees = literals(numbers);
    if numbers.len() > 0 {
        let front = numbers.drop_last();
        assert(trees.drop_last() =~= literals(front));
        assert(trees.last() == Ast::Literal(numbers.last()));
        lemma_literal_arguments(before, front, children);
        assert(values(trees.last(), children) == seq![numbers.last()]);
        assert(stack_need(trees.last(), children) == 1);
        assert(pushed_count(trees.last(), children) == 1);
        assert(all_values(trees, children) == all_values(trees.drop_last(), children) + values(
            trees.last(),
            children,
        ));
        assert(front + seq![numbers.last()] =~= numbers);
        let middle = emit_all(before, trees.drop_last(), children);
        assert(emit_all(before, trees, children) == emit(middle, trees.last(), children));
        assert(emit(middle, trees.last(), children) == middle.emit_constant(numbers.last()));
    } else {
        assert(all_values(trees, children) =~= numbers);
    }
}

/// A built-in function applied to literal arguments evaluates to the
/// function's result for the arguments, last argument first: `SUM` to their
/// sum from zero, `AVG` to that sum divided by their number, `MIN` and `MAX`
/// to their minimum and maximum, the lookups to their placeholders.
pub proof fn lemma_call_on_literals_evaluates(
    name: Seq<char>,
    numbers: Seq<Scalar>,
    children: Children,
)
    requires
        call_opcode(name, 0) is Some,
        name == "LOOKUP"@ ==> numbers.len() == 3,
        numbers.len() <= STACK_CAPACITY,
    ensures
        Machine::start(
            compiled(Ast::FunctionCall { name, args: literals(numbers) }, children),
        ).run().0 == InterpretResult::Success(
            pushed_value(call_opcode(name, numbers.len())->0, numbers.reverse(), Seq::empty()),
        ),
{
    let call = Ast::FunctionCall { name, args: literals(numbers) };
    lemma_literal_arguments(Program::empty(), numbers, children);
    assert forall|i: int| 0 <= i < literals(numbers).len() implies evaluable(
        #[trigger] literals(numbers)[i],
        children,
    ) by {}
    assert(evaluable(call, children));
    lemma_compiled_formula_evaluates(call, children);
}

} // verus!
