//! Lowers expression trees to bytecode.
use crate::atom_script::ast::{Ast, BinaryOp, Expr};
use crate::atom_script::chunk::{Chunk, OpCode, Program};
use crate::lattice::metadata::{HierarchyResolver, MockHierarchyResolver};
use crate::scalar::Scalar;
use crate::text::same_text;
use vstd::prelude::*;

verus! {

/// A hierarchy as the compiler sees it: from a dimension and a member to the
/// member's children.
pub type Children = spec_fn(Seq<char>, Seq<char>) -> Seq<Seq<char>>;

/// The instruction that applies a binary operator to the top two numbers.
pub open spec fn binary_opcode(op: BinaryOp) -> OpCode {
    match op {
        BinaryOp::Add => OpCode::Add,
        BinaryOp::Sub => OpCode::Sub,
        BinaryOp::Mul => OpCode::Mul,
        BinaryOp::Div => OpCode::Div,
    }
}

/// The instruction a built-in function compiles to when its arguments push
/// `arity` numbers, or `None` for a name that is not a built-in.
pub open spec fn call_opcode(name: Seq<char>, arity: nat) -> Option<OpCode> {
    if name == "SUM"@ {
        Some(OpCode::Sum(arity as usize))
    } else if name == "AVG"@ {
        Some(OpCode::Avg(arity as usize))
    } else if name == "MIN"@ {
        Some(OpCode::Min(arity as usize))
    } else if name == "MAX"@ {
        Some(OpCode::Max(arity as usize))
    } else if name == "LOOKUP"@ {
        Some(OpCode::Lookup)
    } else if name == "XLOOKUP"@ {
        Some(OpCode::XLookup(arity as usize))
    } else {
        None
    }
}

/// Whether a hierarchy call has the one shape the compiler expands:
/// `Children` applied to two dimension references.
pub open spec fn is_children_call(name: Seq<char>, args: Seq<Ast>) -> bool {
    &&& name == "Children"@
    &&& args.len() == 2
    &&& args[0] is DimensionRef
    &&& args[1] is DimensionRef
}

/// `program` extended with one placeholder load per member.
pub open spec fn emit_members(program: Program, members: Seq<Seq<char>>) -> Program
    decreases members.len(),
{
    if members.len() == 0 {
        program
    } else {
        emit_members(program, members.drop_last()).emit_constant(Scalar::zero())
    }
}

/// The number of values the code for `expr` leaves on the stack: one per
/// member for an expanded hierarchy call, none for any other hierarchy call,
/// and one for everything else.
pub open spec fn pushed_count(expr: Ast, children: Children) -> nat {
    match expr {
        Ast::HierarchyCall { name, args } => if is_children_call(name, args) {
            children(args[0]->DimensionRef_0, args[1]->DimensionRef_0).len()
        } else {
            0
        },
        _ => 1,
    }
}

/// The number of values the code for all of `exprs` leaves on the stack.
pub open spec fn total_pushed(exprs: Seq<Ast>, children: Children) -> nat
    decreases exprs.len(),
{
    if exprs.len() == 0 {
        0
    } else {
        total_pushed(exprs.drop_last(), children) + pushed_count(exprs.last(), children)
    }
}

/// `program` extended with the code for `expr`.
///
/// A binary operator on two literals is folded into one constant. A bare
/// identifier and an unknown function emit nothing of their own.
pub open spec fn emit(program: Program, expr: Ast, children: Children) -> Program
    decreases expr,
{
    match expr {
        Ast::Literal(value) => program.emit_constant(value),
        Ast::Identifier(_) => program,
        Ast::DimensionRef(_) => program.emit_constant(Scalar::zero()),
        Ast::Binary { op, lhs, rhs } => match (*lhs, *rhs) {
            (Ast::Literal(l), Ast::Literal(r)) => program.emit_constant(op.apply(l, r)),
            _ => emit(emit(program, *lhs, children), *rhs, children).emit(binary_opcode(op)),
        },
        Ast::FunctionCall { name, args } => {
            let after_args = emit_all(program, args, children);
            match call_opcode(name, total_pushed(args, children)) {
                Some(op) => after_args.emit(op),
                None => after_args,
            }
        },
        Ast::HierarchyCall { name, args } => if is_children_call(name, args) {
            emit_members(program, children(args[0]->DimensionRef_0, args[1]->DimensionRef_0))
        } else {
            program
        },
        Ast::TimeTravel { lhs, rhs } => emit(emit(program, *lhs, children), *rhs, children).emit(
            OpCode::Shift,
        ),
    }
}

/// `program` extended with the code for each of `exprs` in order.
pub open spec fn emit_all(program: Program, exprs: Seq<Ast>, children: Children) -> Program
    decreases exprs,
{
    if exprs.len() == 0 {
        program
    } else {
        emit(emit_all(program, exprs.drop_last(), children), exprs.last(), children)
    }
}

/// The program a formula compiles to: its code followed by `Return`.
pub open spec fn compiled(expr: Ast, children: Children) -> Program {
    emit(Program::empty(), expr, children).emit(OpCode::Return)
}

/// Whether the operand count of every function call that `expr` compiles
/// fits the operand field of an instruction.
pub open spec fn arities_fit(expr: Ast, children: Children) -> bool
    decreases expr,
{
    match expr {
        Ast::Binary { op, lhs, rhs } => match (*lhs, *rhs) {
            (Ast::Literal(l), Ast::Literal(r)) => true,
            _ => arities_fit(*lhs, children) && arities_fit(*rhs, children),
        },
        Ast::FunctionCall { name, args } => {
            &&& total_pushed(args, children) <= usize::MAX
            &&& forall|i: int| 0 <= i < args.len() ==> arities_fit(#[trigger] args[i], children)
        },
        Ast::TimeTravel { lhs, rhs } => arities_fit(*lhs, children) && arities_fit(*rhs, children),
        _ => true,
    }
}

/// The operand count of a prefix of an argument list is at most that of the
/// whole list.
proof fn lemma_total_pushed_prefix(exprs: Seq<Ast>, children: Children, k: int)
    requires
        0 <= k <= exprs.len(),
    ensures
        total_pushed(exprs.take(k), children) <= total_pushed(exprs, children),
    decreases exprs.len(),
{
    if k == exprs.len() {
        assert(exprs.take(k) =~= exprs);
    } else {
        lemma_total_pushed_prefix(exprs.drop_last(), children, k);
        assert(exprs.drop_last().take(k) =~= exprs.take(k));
    }
}

/// Expanding members only appends to a program, and keeps a well-formed
/// program well-formed.
pub proof fn lemma_emit_members_extends(program: Program, members: Seq<Seq<char>>)
    ensures
        program.code.is_prefix_of(emit_members(program, members).code),
        program.constants.is_prefix_of(emit_members(program, members).constants),
        program.well_formed() ==> emit_members(program, members).well_formed(),
    decreases members.len(),
{
    if members.len() > 0 {
        lemma_emit_members_extends(program, members.drop_last());
    }
}

/// Expanding `count` members appends `count` loads of `count` new zeros.
pub proof fn lemma_emit_members_shape(program: Program, members: Seq<Seq<char>>)
    requires
        program.constants.len() + members.len() <= usize::MAX,
    ensures
        emit_members(program, members).code == program.code + Seq::new(
            members.len(),
            |i: int| OpCode::Constant((program.constants.len() + i) as usize),
        ),
        emit_members(program, members).constants == program.constants + Seq::new(
            members.len(),
            |i: int| Scalar::zero(),
        ),
    decreases members.len(),
{
    let after = emit_members(program, members);
    if members.len() > 0 {
        lemma_emit_members_shape(program, members.drop_last());
    }
    assert(after.code =~= program.code + Seq::new(
        members.len(),
        |i: int| OpCode::Constant((program.constants.len() + i) as usize),
    ));
    assert(after.constants =~= program.constants + Seq::new(
        members.len(),
        |i: int| Scalar::zero(),
    ));
}

/// The tree of `SUM(@Children([dimension],[member]))`.
pub open spec fn sum_of_children(dimension: Seq<char>, member: Seq<char>) -> Ast {
    Ast::FunctionCall {
        name: "SUM"@,
        args: seq![
            Ast::HierarchyCall {
                name: "Children"@,
                args: seq![Ast::DimensionRef(dimension), Ast::DimensionRef(member)],
            },
        ],
    }
}

/// The sum over a member's children is expanded while compiling: the
/// program loads one placeholder per child the hierarchy lists and adds up
/// that many numbers.
pub proof fn lemma_sum_of_children_is_expanded(
    dimension: Seq<char>,
    member: Seq<char>,
    children: Children,
)
    requires
        children(dimension, member).len() <= usize::MAX,
    ensures
        compiled(sum_of_children(dimension, member), children).code == Seq::new(
            children(dimension, member).len(),
            |i: int| OpCode::Constant(i as usize),
        ).push(OpCode::Sum(children(dimension, member).len() as usize)).push(OpCode::Return),
        compiled(sum_of_children(dimension, member), children).constants == Seq::new(
            children(dimension, member).len(),
            |i: int| Scalar::zero(),
        ),
{
    let members = children(dimension, member);
    let call = Ast::HierarchyCall {
        name: "Children"@,
        args: seq![Ast::DimensionRef(dimension), Ast::DimensionRef(member)],
    };
    let args = seq![call];
    let start = Program::empty();
    lemma_emit_members_shape(start, members);
    assert(is_children_call(call->HierarchyCall_name, call->HierarchyCall_args));
    assert(emit(start, call, children) == emit_members(start, members));
    assert(args.drop_last() =~= Seq::<Ast>::empty());
    assert(args.last() == call);
    assert(emit_all(start, args.drop_last(), children) == start);
    assert(emit_all(start, args, children) == emit_members(start, members));
    assert(total_pushed(args, children) == members.len()) by {
        assert(total_pushed(args.drop_last(), children) == 0);
        assert(pushed_count(call, children) == members.len());
    }
    let program = compiled(sum_of_children(dimension, member), children);
    assert(program.code =~= Seq::new(members.len(), |i: int| OpCode::Constant(i as usize)).push(
        OpCode::Sum(members.len() as usize),
    ).push(OpCode::Return));
    assert(program.constants =~= Seq::new(members.len(), |i: int| Scalar::zero()));
}

/// An operator between two literals compiles to one constant, the
/// operator's result, and to no instruction for the operator.
pub proof fn lemma_literal_pair_folds(op: BinaryOp, lhs: Scalar, rhs: Scalar, children: Children)
    ensures
        compiled(
            Ast::Binary {
                op,
                lhs: Box::new(Ast::Literal(lhs)),
                rhs: Box::new(Ast::Literal(rhs)),
            },
            children,
        ) == (Program {
            code: seq![OpCode::Constant(0), OpCode::Return],
            constants: seq![op.apply(lhs, rhs)],
        }),
{
    let program = compiled(
        Ast::Binary { op, lhs: Box::new(Ast::Literal(lhs)), rhs: Box::new(Ast::Literal(rhs)) },
        children,
    );
    assert(program.code =~= seq![OpCode::Constant(0), OpCode::Return]);
    assert(program.constants =~= seq![op.apply(lhs, rhs)]);
}

/// Compiling an expression only appends to a program: the instructions and
/// constants already there stay where they are. A well-formed program stays
/// well-formed.
pub proof fn lemma_emit_extends(program: Program, expr: Ast, children: Children)
    ensures
        program.code.is_prefix_of(emit(program, expr, children).code),
        program.constants.is_prefix_of(emit(program, expr, children).constants),
        program.well_formed() ==> emit(program, expr, children).well_formed(),
    decreases expr,
{
    match expr {
        Ast::Binary { op, lhs, rhs } => match (*lhs, *rhs) {
            (Ast::Literal(l), Ast::Literal(r)) => {},
            _ => {
                let after_lhs = emit(program, *lhs, children);
                lemma_emit_extends(program, *lhs, children);
                lemma_emit_extends(after_lhs, *rhs, children);
            },
        },
        Ast::FunctionCall { name, args } => {
            lemma_emit_all_extends(program, args, children);
        },
        Ast::HierarchyCall { name, args } => {
            if is_children_call(name, args) {
                lemma_emit_members_extends(
                    program,
                    children(args[0]->DimensionRef_0, args[1]->DimensionRef_0),
                );
            }
        },
        Ast::TimeTravel { lhs, rhs } => {
            let after_lhs = emit(program, *lhs, children);
            lemma_emit_extends(program, *lhs, children);
            lemma_emit_extends(after_lhs, *rhs, children);
        },
        _ => {},
    }
}

/// Compiling a list of expressions only appends to a program, and keeps a
/// well-formed program well-formed.
pub proof fn lemma_emit_all_extends(program: Program, exprs: Seq<Ast>, children: Children)
    ensures
        program.code.is_prefix_of(emit_all(program, exprs, children).code),
        program.constants.is_prefix_of(emit_all(program, exprs, children).constants),
        program.well_formed() ==> emit_all(program, exprs, children).well_formed(),
    decreases exprs,
{
    if exprs.len() > 0 {
        lemma_emit_all_extends(program, exprs.drop_last(), children);
        lemma_emit_extends(
            emit_all(program, exprs.drop_last(), children),
            exprs.last(),
            children,
        );
    }
}

/// Compiles one formula, expanding hierarchy calls with the resolver `R`.
pub struct Compiler<R: HierarchyResolver> {
    chunk: Chunk,
    resolver: R,
}

impl Compiler<MockHierarchyResolver> {
    /// A compiler with an empty program and the mock hierarchy.
    pub fn new() -> (compiler: Self)
        ensures
            compiler.program() == Program::empty(),
            compiler.resolver() == MockHierarchyResolver,
    {
        Compiler { chunk: Chunk::new(), resolver: MockHierarchyResolver }
    }
}

impl<R: HierarchyResolver> Compiler<R> {
    /// The resolver this compiler expands `@Children` calls with.
    pub closed spec fn resolver(&self) -> R {
        self.resolver
    }

    /// The hierarchy the resolver describes.
    pub open spec fn hierarchy(&self) -> Children {
        |dimension: Seq<char>, member: Seq<char>| self.resolver().children(dimension, member)
    }

    /// The program emitted so far.
    pub closed spec fn program(&self) -> Program {
        self.chunk@
    }

    /// A compiler with an empty program that resolves hierarchies with
    /// `resolver`.
    pub fn with_resolver(resolver: R) -> (compiler: Self)
        ensures
            compiler.program() == Program::empty(),
            compiler.resolver() == resolver,
    {
        Compiler { chunk: Chunk::new(), resolver }
    }

    /// The number of values the code for `expr` leaves on the stack.
    fn count_pushed(&self, expr: &Expr) -> (count: usize)
        ensures
            count == pushed_count(expr@, self.hierarchy()),
    {
        match expr {
            Expr::HierarchyCall { name, args } => {
                let ghost trees = Expr::ast_list(args@);
                assert(expr@ == Ast::HierarchyCall { name: name@, args: trees });
                if same_text(name.as_str(), "Children") && args.len() == 2 {
                    assert(trees[0] == args[0].ast());
                    assert(trees[1] == args[1].ast());
                    match (&args[0], &args[1]) {
                        (Expr::DimensionRef(dim), Expr::DimensionRef(member)) => {
                            let children = self.resolver.get_children(
                                dim.as_str(),
                                member.as_str(),
                            );
                            return children.len();
                        },
                        _ => {},
                    }
                }
                0
            },
            _ => 1,
        }
    }

    /// Checks that the operand count of every function call in `expr` fits
    /// the operand field of an instruction, as `compile` requires.
    pub fn fits(&self, expr: &Expr) -> (ok: bool)
        ensures
            ok == arities_fit(expr@, self.hierarchy()),
        decreases expr,
    {
        match expr {
            Expr::Binary { op, lhs, rhs } => {
                assert(expr@ == Ast::Binary {
                    op: *op,
                    lhs: Box::new((**lhs).ast()),
                    rhs: Box::new((**rhs).ast()),
                });
                match (&**lhs, &**rhs) {
                    (Expr::Literal(l), Expr::Literal(r)) => {
                        assert((**lhs).ast() == Ast::Literal(*l));
                        assert((**rhs).ast() == Ast::Literal(*r));
                        true
                    },
                    _ => {
                        assert(!((**lhs).ast() is Literal && (**rhs).ast() is Literal));
                        self.fits(lhs) && self.fits(rhs)
                    },
                }
            },
            Expr::FunctionCall { name, args } => {
                let ghost trees = Expr::ast_list(args@);
                assert(expr@ == Ast::FunctionCall { name: name@, args: trees });
                let mut total: usize = 0;
                let mut i: usize = 0;
                while i < args.len()
                    invariant
                        i <= args.len(),
                        trees == Expr::ast_list(args@),
                        expr@ == (Ast::FunctionCall { name: name@, args: trees }),
                        decreases_to!(expr => *args),
                        total == total_pushed(trees.take(i as int), self.hierarchy()),
                        forall|j: int|
                            0 <= j < i ==> arities_fit(#[trigger] trees[j], self.hierarchy()),
                    decreases args.len() - i,
                {
                    proof {
                        assert(trees[i as int] == args[i as int].ast());
                        assert(trees.take(i + 1).drop_last() =~= trees.take(i as int));
                        assert(trees.take(i + 1).last() == trees[i as int]);
                        lemma_total_pushed_prefix(trees, self.hierarchy(), i + 1);
                    }
                    if !self.fits(&args[i]) {
                        assert(!arities_fit(trees[i as int], self.hierarchy()));
                        return false;
                    }
                    let pushed = self.count_pushed(&args[i]);
                    assert(total_pushed(trees.take(i + 1), self.hierarchy()) == total + pushed);
                    match total.checked_add(pushed) {
                        Some(sum) => {
                            total = sum;
                        },
                        None => {
                            return false;
                        },
                    }
                    i += 1;
                }
                proof {
                    assert(trees.take(i as int) =~= trees);
                }
                true
            },
            Expr::TimeTravel { lhs, rhs } => self.fits(lhs) && self.fits(rhs),
            _ => true,
        }
    }

    /// Appends the code for `expr` and a final `Return` to the program and
    /// hands the program out. On a fresh compiler the result is
    /// `compiled(expr@, self.hierarchy())`.
    pub fn compile(self, expr: &Expr) -> (chunk: Chunk)
        requires
            arities_fit(expr@, self.hierarchy()),
        ensures
            chunk@ == emit(self.program(), expr@, self.hierarchy()).emit(OpCode::Return),
            self.program().well_formed() ==> chunk@.well_formed(),
    {
        proof {
            lemma_emit_extends(self.program(), expr@, self.hierarchy());
        }
        let mut compiler = self;
        compiler.compile_expr(expr);
        compiler.chunk.write_chunk(OpCode::Return);
        compiler.chunk
    }

    fn compile_expr(&mut self, expr: &Expr)
        requires
            arities_fit(expr@, old(self).hierarchy()),
        ensures
            final(self).resolver() == old(self).resolver(),
            final(self).program() == emit(old(self).program(), expr@, old(self).hierarchy()),
    {
        self.compile_expr_with_count(expr);
    }

    /// Appends a placeholder load for one coordinate.
    fn compile_dimension_ref(&mut self)
        ensures
            final(self).resolver() == old(self).resolver(),
            final(self).program() == old(self).program().emit_constant(Scalar::zero()),
    {
        let idx = self.chunk.add_constant(Scalar::new_zero());
        self.chunk.write_chunk(OpCode::Constant(idx));
    }

    /// Appends one placeholder load per member and returns their number.
    pub fn compile_members(&mut self, members: &Vec<String>) -> (count: usize)
        ensures
            final(self).resolver() == old(self).resolver(),
            final(self).program() == emit_members(old(self).program(), members.deep_view()),
            count == members.len(),
    {
        let mut i: usize = 0;
        while i < members.len()
            invariant
                i <= members.len(),
                self.resolver() == old(self).resolver(),
                self.program() == emit_members(
                    old(self).program(),
                    members.deep_view().take(i as int),
                ),
            decreases members.len() - i,
        {
            self.compile_dimension_ref();
            proof {
                let done = members.deep_view().take(i + 1);
                assert(done.drop_last() =~= members.deep_view().take(i as int));
            }
            i += 1;
        }
        proof {
            assert(members.deep_view().take(i as int) =~= members.deep_view());
        }
        members.len()
    }

    /// Compiles an expression and returns the number of values its code
    /// leaves on the stack: one, except for a hierarchy call, which leaves
    /// one per member.
    fn compile_expr_with_count(&mut self, expr: &Expr) -> (count: usize)
        requires
            arities_fit(expr@, old(self).hierarchy()),
        ensures
            final(self).resolver() == old(self).resolver(),
            final(self).program() == emit(old(self).program(), expr@, old(self).hierarchy()),
            count == pushed_count(expr@, old(self).hierarchy()),
        decreases expr,
    {
        match expr {
            Expr::Literal(val) => {
                let idx = self.chunk.add_constant(*val);
                self.chunk.write_chunk(OpCode::Constant(idx));
                1
            },
            Expr::Binary { op, lhs, rhs } => {
                assert(expr@ == Ast::Binary {
                    op: *op,
                    lhs: Box::new((**lhs).ast()),
                    rhs: Box::new((**rhs).ast()),
                });
                match (&**lhs, &**rhs) {
                    (Expr::Literal(l), Expr::Literal(r)) => {
                        assert((**lhs).ast() == Ast::Literal(*l));
                        assert((**rhs).ast() == Ast::Literal(*r));
                        let val = op.eval(*l, *r);
                        let idx = self.chunk.add_constant(val);
                        self.chunk.write_chunk(OpCode::Constant(idx));
                        return 1;
                    },
                    _ => {
                        assert(!((**lhs).ast() is Literal && (**rhs).ast() is Literal));
                    },
                }
                self.compile_expr_with_count(lhs);
                self.compile_expr_with_count(rhs);
                match op {
                    BinaryOp::Add => self.chunk.write_chunk(OpCode::Add),
                    BinaryOp::Sub => self.chunk.write_chunk(OpCode::Sub),
                    BinaryOp::Mul => self.chunk.write_chunk(OpCode::Mul),
                    BinaryOp::Div => self.chunk.write_chunk(OpCode::Div),
                }
                1
            },
            Expr::Identifier(_) => 1,
            Expr::DimensionRef(_) => {
                self.compile_dimension_ref();
                1
            },
            Expr::FunctionCall { name, args } => {
                let ghost trees = Expr::ast_list(args@);
                assert(expr@ == Ast::FunctionCall { name: name@, args: trees });
                let mut arg_count: usize = 0;
                let mut i: usize = 0;
                while i < args.len()
                    invariant
                        i <= args.len(),
                        trees == Expr::ast_list(args@),
                        decreases_to!(expr => *args),
                        total_pushed(trees, old(self).hierarchy()) <= usize::MAX,
                        forall|j: int|
                            0 <= j < trees.len() ==> arities_fit(
                                #[trigger] trees[j],
                                old(self).hierarchy(),
                            ),
                        self.resolver() == old(self).resolver(),
                        self.program() == emit_all(
                            old(self).program(),
                            trees.take(i as int),
                            old(self).hierarchy(),
                        ),
                        arg_count == total_pushed(trees.take(i as int), old(self).hierarchy()),
                    decreases args.len() - i,
                {
                    proof {
                        assert(trees[i as int] == args[i as int].ast());
                        assert(trees.take(i + 1).drop_last() =~= trees.take(i as int));
                        assert(trees.take(i + 1).last() == trees[i as int]);
                        lemma_total_pushed_prefix(trees, old(self).hierarchy(), i + 1);
                    }
                    let pushed = self.compile_expr_with_count(&args[i]);
                    arg_count += pushed;
                    i += 1;
                }
                proof {
                    assert(trees.take(i as int) =~= trees);
                }
                if same_text(name.as_str(), "SUM") {
                    self.chunk.write_chunk(OpCode::Sum(arg_count));
                } else if same_text(name.as_str(), "AVG") {
                    self.chunk.write_chunk(OpCode::Avg(arg_count));
                } else if same_text(name.as_str(), "MIN") {
                    self.chunk.write_chunk(OpCode::Min(arg_count));
                } else if same_text(name.as_str(), "MAX") {
                    self.chunk.write_chunk(OpCode::Max(arg_count));
                } else if same_text(name.as_str(), "LOOKUP") {
                    self.chunk.write_chunk(OpCode::Lookup);
                } else if same_text(name.as_str(), "XLOOKUP") {
                    self.chunk.write_chunk(OpCode::XLookup(arg_count));
                }
                1
            },
            Expr::HierarchyCall { name, args } => {
                let ghost trees = Expr::ast_list(args@);
                assert(expr@ == Ast::HierarchyCall { name: name@, args: trees });
                if same_text(name.as_str(), "Children") && args.len() == 2 {
                    assert(trees[0] == args[0].ast());
                    assert(trees[1] == args[1].ast());
                    match (&args[0], &args[1]) {
                        (Expr::DimensionRef(dim), Expr::DimensionRef(member)) => {
                            let children = self.resolver.get_children(
                                dim.as_str(),
                                member.as_str(),
                            );
                            return self.compile_members(&children);
                        },
                        _ => {},
                    }
                }
                0
            },
            Expr::TimeTravel { lhs, rhs } => {
                self.compile_expr_with_count(lhs);
                self.compile_expr_with_count(rhs);
                self.chunk.write_chunk(OpCode::Shift);
                1
            },
        }
    }
}

} // verus!
