//! Expression trees.
use crate::scalar::Scalar;
use vstd::prelude::*;

verus! {

/// The four arithmetic operators.
#[derive(Debug, PartialEq, Eq, Clone, Copy, Structural)]
pub enum BinaryOp {
    Add,
    Sub,
    Mul,
    Div,
}

impl BinaryOp {
    /// The operator applied to two numbers.
    pub open spec fn apply(self, lhs: Scalar, rhs: Scalar) -> Scalar {
        match self {
            BinaryOp::Add => lhs.sum(rhs),
            BinaryOp::Sub => lhs.difference(rhs),
            BinaryOp::Mul => lhs.product(rhs),
            BinaryOp::Div => lhs.quotient(rhs),
        }
    }

    /// Evaluates the operator on two numbers.
    pub fn eval(self, lhs: Scalar, rhs: Scalar) -> (r: Scalar)
        ensures
            r == self.apply(lhs, rhs),
    {
        match self {
            BinaryOp::Add => lhs.plus(rhs),
            BinaryOp::Sub => lhs.minus(rhs),
            BinaryOp::Mul => lhs.times(rhs),
            BinaryOp::Div => lhs.divided_by(rhs),
        }
    }
}

/// A parsed formula. Each node owns its children.
#[derive(Debug, PartialEq)]
pub enum Expr {
    Literal(Scalar),
    /// A bare name, not yet bound to storage.
    Identifier(String),
    /// A bracketed coordinate such as `[Region]`; the payload is the text
    /// between the brackets.
    DimensionRef(String),
    Binary { op: BinaryOp, lhs: Box<Expr>, rhs: Box<Expr> },
    FunctionCall { name: String, args: Vec<Expr> },
    /// A call written with a leading `@`, expanded while compiling.
    HierarchyCall { name: String, args: Vec<Expr> },
    /// `lhs -> rhs`: `lhs` under the coordinate shift that `rhs` describes.
    TimeTravel { lhs: Box<Expr>, rhs: Box<Expr> },
}

/// The mathematical value of an [`Expr`]: names are character sequences and
/// argument lists are sequences of trees.
pub enum Ast {
    Literal(Scalar),
    Identifier(Seq<char>),
    DimensionRef(Seq<char>),
    Binary { op: BinaryOp, lhs: Box<Ast>, rhs: Box<Ast> },
    FunctionCall { name: Seq<char>, args: Seq<Ast> },
    HierarchyCall { name: Seq<char>, args: Seq<Ast> },
    TimeTravel { lhs: Box<Ast>, rhs: Box<Ast> },
}

impl Expr {
    /// The tree this expression denotes.
    pub open spec fn ast(self) -> Ast
        decreases self,
    {
        match self {
            Expr::Literal(value) => Ast::Literal(value),
            Expr::Identifier(name) => Ast::Identifier(name@),
            Expr::DimensionRef(name) => Ast::DimensionRef(name@),
            Expr::Binary { op, lhs, rhs } => Ast::Binary {
                op,
                lhs: Box::new((*lhs).ast()),
                rhs: Box::new((*rhs).ast()),
            },
            Expr::FunctionCall { name, args } => Ast::FunctionCall {
                name: name@,
                args: Expr::ast_list(args@),
            },
            Expr::HierarchyCall { name, args } => Ast::HierarchyCall {
                name: name@,
                args: Expr::ast_list(args@),
            },
            Expr::TimeTravel { lhs, rhs } => Ast::TimeTravel {
                lhs: Box::new((*lhs).ast()),
                rhs: Box::new((*rhs).ast()),
            },
        }
    }

    /// The trees of a list of expressions, in order.
    pub open spec fn ast_list(exprs: Seq<Expr>) -> Seq<Ast>
        decreases exprs,
    {
        Seq::new(
            exprs.len(),
            |i: int|
                if 0 <= i < exprs.len() {
                    exprs[i].ast()
                } else {
                    Ast::Literal(Scalar::zero())
                },
        )
    }
}

impl View for Expr {
    type V = Ast;

    open spec fn view(&self) -> Ast {
        self.ast()
    }
}

impl Clone for Expr {
    /// A copy of the whole tree.
    fn clone(&self) -> (copy: Expr)
        ensures
            copy@ == self@,
        decreases self,
    {
        match self {
            Expr::Literal(value) => Expr::Literal(*value),
            Expr::Identifier(name) => Expr::Identifier(name.clone()),
            Expr::DimensionRef(name) => Expr::DimensionRef(name.clone()),
            Expr::Binary { op, lhs, rhs } => Expr::Binary {
                op: *op,
                lhs: Box::new((**lhs).clone()),
                rhs: Box::new((**rhs).clone()),
            },
            Expr::FunctionCall { name, args } => Expr::FunctionCall {
                name: name.clone(),
                args: Expr::clone_list(args),
            },
            Expr::HierarchyCall { name, args } => Expr::HierarchyCall {
                name: name.clone(),
                args: Expr::clone_list(args),
            },
            Expr::TimeTravel { lhs, rhs } => Expr::TimeTravel {
                lhs: Box::new((**lhs).clone()),
                rhs: Box::new((**rhs).clone()),
            },
        }
    }
}

impl Expr {
    /// Copies of a list of trees.
    fn clone_list(exprs: &Vec<Expr>) -> (copies: Vec<Expr>)
        ensures
            Expr::ast_list(copies@) == Expr::ast_list(exprs@),
        decreases exprs,
    {
        let mut copies: Vec<Expr> = Vec::new();
        let mut i: usize = 0;
        while i < exprs.len()
            invariant
                i <= exprs.len(),
                copies@.len() == i,
                forall|j: int| 0 <= j < i ==> (#[trigger] copies@[j]).ast() == exprs@[j].ast(),
            decreases exprs.len() - i,
        {
            copies.push(exprs[i].clone());
            i += 1;
        }
        assert(Expr::ast_list(copies@) =~= Expr::ast_list(exprs@));
        copies
    }
}

} // verus!
