//! What the grammar does with operators and parentheses.
use crate::atom_script::ast::{Ast, BinaryOp};
use crate::atom_script::lexer::Lexeme;
use crate::atom_script::parser::{
    binding_power, closes, opens, parse_args, parse_call_args, parse_expr, parse_formula,
    parse_infix, parse_keyword_call, parse_more_args, parse_primary, Callee, Infix, ParseError,
};
use crate::scalar::Scalar;
use vstd::prelude::*;

verus! {

/// The token that spells an arithmetic operator.
pub open spec fn operator_token(op: BinaryOp) -> Lexeme {
    match op {
        BinaryOp::Add => Lexeme::Plus,
        BinaryOp::Sub => Lexeme::Minus,
        BinaryOp::Mul => Lexeme::Mul,
        BinaryOp::Div => Lexeme::Div,
    }
}

/// Whether a tree is built from numbers, coordinates, names and infix
/// operators alone.
pub open spec fn is_operator_tree(expr: Ast) -> bool
    decreases expr,
{
    match expr {
        Ast::Literal(_) => true,
        Ast::DimensionRef(_) => true,
        Ast::Identifier(_) => true,
        Ast::Binary { op, lhs, rhs } => is_operator_tree(*lhs) && is_operator_tree(*rhs),
        Ast::TimeTravel { lhs, rhs } => is_operator_tree(*lhs) && is_operator_tree(*rhs),
        _ => false,
    }
}

/// The spelling of an operator tree with every operator application in
/// parentheses.
pub open spec fn parenthesised(expr: Ast) -> Seq<Lexeme>
    decreases expr,
{
    match expr {
        Ast::Literal(value) => seq![Lexeme::Number(value)],
        Ast::DimensionRef(name) => seq![Lexeme::DimensionRef(name)],
        Ast::Identifier(name) => seq![Lexeme::Identifier(name)],
        Ast::Binary { op, lhs, rhs } => seq![Lexeme::LParen] + parenthesised(*lhs)
            + seq![operator_token(op)] + parenthesised(*rhs) + seq![Lexeme::RParen],
        Ast::TimeTravel { lhs, rhs } => seq![Lexeme::LParen] + parenthesised(*lhs)
            + seq![Lexeme::Arrow] + parenthesised(*rhs) + seq![Lexeme::RParen],
        _ => Seq::empty(),
    }
}

/// An operand followed by something that is no infix operator is an
/// expression by itself.
proof fn lemma_operand_then_no_operator(lhs: Ast, ts: Seq<Lexeme>, min_bp: u8)
    requires
        ts.len() == 0 || Infix::of(ts[0]) is None,
    ensures
        parse_infix(lhs, ts, min_bp) == (Ok::<Ast, ParseError>(lhs), ts),
{
}

/// The two operands of an operator in parentheses, each parsing back to
/// itself as an operand, make the operator's tree.
proof fn lemma_parenthesised_pair(
    infix: Infix,
    token: Lexeme,
    lhs: Ast,
    rhs: Ast,
    left: Seq<Lexeme>,
    right: Seq<Lexeme>,
    rest: Seq<Lexeme>,
)
    requires
        Infix::of(token) == Some(infix),
        parse_primary(left + (seq![token] + right + seq![Lexeme::RParen] + rest)) == (
            Ok::<Ast, ParseError>(lhs),
            seq![token] + right + seq![Lexeme::RParen] + rest,
        ),
        parse_primary(right + (seq![Lexeme::RParen] + rest)) == (
            Ok::<Ast, ParseError>(rhs),
            seq![Lexeme::RParen] + rest,
        ),
    ensures
        parse_primary(seq![Lexeme::LParen] + left + seq![token] + right + seq![Lexeme::RParen] + rest)
            == (Ok::<Ast, ParseError>(infix.join(lhs, rhs)), rest),
{
    let whole = seq![Lexeme::LParen] + left + seq![token] + right + seq![Lexeme::RParen] + rest;
    let after_open = left + (seq![token] + right + seq![Lexeme::RParen] + rest);
    let after_left = seq![token] + right + seq![Lexeme::RParen] + rest;
    let after_token = right + (seq![Lexeme::RParen] + rest);
    let after_right = seq![Lexeme::RParen] + rest;
    assert(whole[0] == Lexeme::LParen);
    assert(whole.drop_first() =~= after_open);
    assert(after_left[0] == token);
    assert(after_left.drop_first() =~= after_token);
    assert(after_right[0] == Lexeme::RParen);
    assert(after_right.drop_first() =~= rest);
    // The right operand ends at the closing parenthesis.
    lemma_operand_then_no_operator(rhs, after_right, infix.power().1);
    assert(parse_expr(after_token, infix.power().1) == (Ok::<Ast, ParseError>(rhs), after_right));
    // So does the operator application.
    lemma_operand_then_no_operator(infix.join(lhs, rhs), after_right, 0);
    assert(parse_infix(lhs, after_left, 0) == (
        Ok::<Ast, ParseError>(infix.join(lhs, rhs)),
        after_right,
    ));
    assert(parse_expr(after_open, 0) == (Ok::<Ast, ParseError>(infix.join(lhs, rhs)), after_right));
    assert(closes(after_right));
}

/// The parenthesised spelling of an operator tree is parsed as an operand,
/// back to the tree, whatever follows it, unless that is an opening
/// parenthesis.
pub proof fn lemma_parenthesised_operand(expr: Ast, rest: Seq<Lexeme>)
    requires
        is_operator_tree(expr),
        !opens(rest),
    ensures
        parse_primary(parenthesised(expr) + rest) == (Ok::<Ast, ParseError>(expr), rest),
    decreases expr,
{
    let ts = parenthesised(expr) + rest;
    match expr {
        Ast::Literal(value) => {
            assert(ts[0] == Lexeme::Number(value));
            assert(ts.drop_first() =~= rest);
        },
        Ast::DimensionRef(name) => {
            assert(ts[0] == Lexeme::DimensionRef(name));
            assert(ts.drop_first() =~= rest);
        },
        Ast::Identifier(name) => {
            assert(ts[0] == Lexeme::Identifier(name));
            assert(ts.drop_first() =~= rest);
        },
        Ast::Binary { op, lhs, rhs } => {
            let token = operator_token(op);
            let left = parenthesised(*lhs);
            let right = parenthesised(*rhs);
            let after_left = seq![token] + right + seq![Lexeme::RParen] + rest;
            let after_right = seq![Lexeme::RParen] + rest;
            assert(after_left[0] == token);
            assert(after_right[0] == Lexeme::RParen);
            lemma_parenthesised_operand(*lhs, after_left);
            lemma_parenthesised_operand(*rhs, after_right);
            lemma_parenthesised_pair(
                Infix::Arithmetic(op),
                token,
                *lhs,
                *rhs,
                left,
                right,
                rest,
            );
            assert(ts =~= seq![Lexeme::LParen] + left + seq![token] + right + seq![Lexeme::RParen]
                + rest);
        },
        Ast::TimeTravel { lhs, rhs } => {
            let token = Lexeme::Arrow;
            let left = parenthesised(*lhs);
            let right = parenthesised(*rhs);
            let after_left = seq![token] + right + seq![Lexeme::RParen] + rest;
            let after_right = seq![Lexeme::RParen] + rest;
            assert(after_left[0] == token);
            assert(after_right[0] == Lexeme::RParen);
            lemma_parenthesised_operand(*lhs, after_left);
            lemma_parenthesised_operand(*rhs, after_right);
            lemma_parenthesised_pair(Infix::Shift, token, *lhs, *rhs, left, right, rest);
            assert(ts =~= seq![Lexeme::LParen] + left + seq![token] + right + seq![Lexeme::RParen]
                + rest);
        },
        _ => {},
    }
}

/// Every operator tree can be written down: its parenthesised spelling is
/// a formula that parses back to the tree and leaves no token over.
pub proof fn lemma_parenthesised_formula_parses_back(expr: Ast)
    requires
        is_operator_tree(expr),
    ensures
        parse_formula(parenthesised(expr)) == (Ok::<Ast, ParseError>(expr), Seq::<Lexeme>::empty()),
{
    let rest = Seq::<Lexeme>::empty();
    lemma_parenthesised_operand(expr, rest);
    assert(parenthesised(expr) + rest =~= parenthesised(expr));
    lemma_operand_then_no_operator(expr, rest, 0);
}

/// The tree of `a p b q c` without parentheses: `q` takes `b` where it binds
/// tighter than `p`; otherwise `p` takes it and the operators group from
/// the left.
pub open spec fn grouped(a: Scalar, p: BinaryOp, b: Scalar, q: BinaryOp, c: Scalar) -> Ast {
    if binding_power(p).0 < binding_power(q).0 {
        Ast::Binary {
            op: p,
            lhs: Box::new(Ast::Literal(a)),
            rhs: Box::new(
                Ast::Binary { op: q, lhs: Box::new(Ast::Literal(b)), rhs: Box::new(Ast::Literal(c)) },
            ),
        }
    } else {
        Ast::Binary {
            op: q,
            lhs: Box::new(
                Ast::Binary { op: p, lhs: Box::new(Ast::Literal(a)), rhs: Box::new(Ast::Literal(b)) },
            ),
            rhs: Box::new(Ast::Literal(c)),
        }
    }
}

/// In a formula of three numbers and two operators, `*` and `/` bind
/// tighter than `+` and `-`, and operators of one level group from the
/// left.
pub proof fn lemma_two_operators_group_by_precedence(
    a: Scalar,
    p: BinaryOp,
    b: Scalar,
    q: BinaryOp,
    c: Scalar,
)
    ensures
        parse_formula(
            seq![
                Lexeme::Number(a),
                operator_token(p),
                Lexeme::Number(b),
                operator_token(q),
                Lexeme::Number(c),
            ],
        ) == (Ok::<Ast, ParseError>(grouped(a, p, b, q, c)), Seq::<Lexeme>::empty()),
{
    let (na, nb, nc) = (Lexeme::Number(a), Lexeme::Number(b), Lexeme::Number(c));
    let (la, lb, lc) = (Ast::Literal(a), Ast::Literal(b), Ast::Literal(c));
    let (tp, tq) = (operator_token(p), operator_token(q));
    let (ip, iq) = (Infix::Arithmetic(p), Infix::Arithmetic(q));
    let none = Seq::<Lexeme>::empty();
    let t5 = seq![na, tp, nb, tq, nc];
    let t4 = seq![tp, nb, tq, nc];
    let t3 = seq![nb, tq, nc];
    let t2 = seq![tq, nc];
    let t1 = seq![nc];
    assert(t5.drop_first() =~= t4);
    assert(t4.drop_first() =~= t3);
    assert(t3.drop_first() =~= t2);
    assert(t2.drop_first() =~= t1);
    assert(t1.drop_first() =~= none);
    assert(Infix::of(tp) == Some(ip));
    assert(Infix::of(tq) == Some(iq));
    assert(parse_primary(t5) == (Ok::<Ast, ParseError>(la), t4));
    assert(parse_primary(t3) == (Ok::<Ast, ParseError>(lb), t2));
    assert(parse_primary(t1) == (Ok::<Ast, ParseError>(lc), none));
    // The last operand stands alone at either binding power.
    lemma_operand_then_no_operator(lc, none, iq.power().1);
    assert(parse_expr(t1, iq.power().1) == (Ok::<Ast, ParseError>(lc), none));
    if binding_power(p).0 < binding_power(q).0 {
        let bc = iq.join(lb, lc);
        lemma_operand_then_no_operator(bc, none, ip.power().1);
        assert(parse_infix(lb, t2, ip.power().1) == (Ok::<Ast, ParseError>(bc), none));
        assert(parse_expr(t3, ip.power().1) == (Ok::<Ast, ParseError>(bc), none));
        lemma_operand_then_no_operator(ip.join(la, bc), none, 0);
        assert(parse_infix(la, t4, 0) == (Ok::<Ast, ParseError>(ip.join(la, bc)), none));
    } else {
        let ab = ip.join(la, lb);
        assert(parse_infix(lb, t2, ip.power().1) == (Ok::<Ast, ParseError>(lb), t2));
        assert(parse_expr(t3, ip.power().1) == (Ok::<Ast, ParseError>(lb), t2));
        lemma_operand_then_no_operator(iq.join(ab, lc), none, 0);
        assert(parse_infix(ab, t2, 0) == (Ok::<Ast, ParseError>(iq.join(ab, lc)), none));
        assert(parse_infix(la, t4, 0) == (Ok::<Ast, ParseError>(iq.join(ab, lc)), none));
    }
}

/// Parsing consumes tokens from the front: what an expression leaves is no
/// longer than what it was given, and shorter where an expression was
/// found.
pub proof fn lemma_expr_consumes(ts: Seq<Lexeme>, min_bp: u8)
    ensures
        parse_expr(ts, min_bp).1.len() <= ts.len(),
        parse_expr(ts, min_bp).0 is Ok ==> parse_expr(ts, min_bp).1.len() < ts.len(),
    decreases ts.len(), 3int,
{
    lemma_primary_consumes(ts);
    match parse_primary(ts) {
        (Ok(lhs), rest) => {
            lemma_infix_consumes(lhs, rest, min_bp);
        },
        _ => {},
    }
}

/// An operand leaves fewer tokens than it was given.
pub proof fn lemma_primary_consumes(ts: Seq<Lexeme>)
    ensures
        parse_primary(ts).1.len() <= ts.len(),
        parse_primary(ts).0 is Ok ==> parse_primary(ts).1.len() < ts.len(),
    decreases ts.len(), 2int,
{
    if ts.len() > 0 {
        let after = ts.drop_first();
        match ts[0] {
            Lexeme::Identifier(_) => {
                if opens(after) {
                    lemma_args_consumes(after.drop_first());
                }
            },
            Lexeme::AtIdentifier(_) => {
                lemma_call_args_consumes(Callee::Hierarchy, after);
            },
            Lexeme::Lookup => {
                lemma_keyword_call_consumes(Callee::Lookup, ts);
            },
            Lexeme::XLookup => {
                lemma_keyword_call_consumes(Callee::XLookup, ts);
            },
            Lexeme::Sum => {
                lemma_keyword_call_consumes(Callee::Sum, ts);
            },
            Lexeme::Avg => {
                lemma_keyword_call_consumes(Callee::Avg, ts);
            },
            Lexeme::Min => {
                lemma_keyword_call_consumes(Callee::Min, ts);
            },
            Lexeme::Max => {
                lemma_keyword_call_consumes(Callee::Max, ts);
            },
            Lexeme::LParen => {
                lemma_expr_consumes(after, 0);
            },
            _ => {},
        }
    }
}

/// A keyword call leaves fewer tokens than it was given.
pub proof fn lemma_keyword_call_consumes(callee: Callee, ts: Seq<Lexeme>)
    requires
        ts.len() > 0,
    ensures
        parse_keyword_call(callee, ts).1.len() <= ts.len(),
        parse_keyword_call(callee, ts).0 is Ok ==> parse_keyword_call(callee, ts).1.len()
            < ts.len(),
    decreases ts.len(), 1int,
{
    lemma_call_args_consumes(callee, ts.drop_first());
}

/// The operators after an operand leave no more tokens than they were
/// given.
pub proof fn lemma_infix_consumes(lhs: Ast, ts: Seq<Lexeme>, min_bp: u8)
    ensures
        parse_infix(lhs, ts, min_bp).1.len() <= ts.len(),
    decreases ts.len(), 1int,
{
    if ts.len() > 0 {
        match Infix::of(ts[0]) {
            Some(infix) => {
                if infix.power().0 >= min_bp {
                    lemma_expr_consumes(ts.drop_first(), infix.power().1);
                    match parse_expr(ts.drop_first(), infix.power().1) {
                        (Ok(rhs), rest) => {
                            lemma_infix_consumes(infix.join(lhs, rhs), rest, min_bp);
                        },
                        _ => {},
                    }
                }
            },
            None => {},
        }
    }
}

/// A parenthesised argument list leaves no more tokens than it was given.
pub proof fn lemma_call_args_consumes(callee: Callee, ts: Seq<Lexeme>)
    ensures
        parse_call_args(callee, ts).1.len() <= ts.len(),
    decreases ts.len(), 5int,
{
    if opens(ts) {
        lemma_args_consumes(ts.drop_first());
    }
}

/// An argument list leaves no more tokens than it was given.
pub proof fn lemma_args_consumes(ts: Seq<Lexeme>)
    ensures
        parse_args(ts).1.len() <= ts.len(),
    decreases ts.len(), 5int,
{
    if !closes(ts) {
        lemma_more_args_consumes(Seq::empty(), ts);
    }
}

/// The rest of an argument list leaves no more tokens than it was given.
pub proof fn lemma_more_args_consumes(done: Seq<Ast>, ts: Seq<Lexeme>)
    ensures
        parse_more_args(done, ts).1.len() <= ts.len(),
    decreases ts.len(), 4int,
{
    lemma_expr_consumes(ts, 0);
    match parse_expr(ts, 0) {
        (Ok(arg), rest) => {
            if rest.len() > 0 && rest[0] is Comma {
                lemma_more_args_consumes(done.push(arg), rest.drop_first());
            }
        },
        _ => {},
    }
}

/// How tightly an arithmetic operator binds: its left binding power. Its
/// right binding power is one more.
pub open spec fn strength(op: BinaryOp) -> int {
    binding_power(op).0 as int
}

/// The operator applied last among `ops[lo..hi]`: the last of the weakest.
pub open spec fn root(ops: Seq<BinaryOp>, lo: int, hi: int) -> int
    decreases hi - lo,
{
    if hi - lo <= 1 {
        lo
    } else {
        let before = root(ops, lo, hi - 1);
        if strength(ops[hi - 1]) <= strength(ops[before]) {
            hi - 1
        } else {
            before
        }
    }
}

/// The tree of `nums[lo] ops[lo] nums[lo + 1] ... ops[hi - 1] nums[hi]` as
/// arithmetic is commonly read: the last of the weakest operators is
/// applied last, to what stands on its left and what stands on its right.
/// So `*` and `/` bind tighter than `+` and `-`, and operators of one
/// strength group from the left.
pub open spec fn standard_tree(nums: Seq<Scalar>, ops: Seq<BinaryOp>, lo: int, hi: int) -> Ast
    decreases hi - lo,
{
    if hi <= lo {
        Ast::Literal(nums[lo])
    } else {
        let k = root(ops, lo, hi);
        if lo <= k < hi {
            Ast::Binary {
                op: ops[k],
                lhs: Box::new(standard_tree(nums, ops, lo, k)),
                rhs: Box::new(standard_tree(nums, ops, k + 1, hi)),
            }
        } else {
            Ast::Literal(nums[lo])
        }
    }
}

/// The tokens of a formula without parentheses from its operator `at` on:
/// `ops[at] nums[at + 1] ops[at + 1] ...`.
pub open spec fn flat_from(nums: Seq<Scalar>, ops: Seq<BinaryOp>, at: int) -> Seq<Lexeme>
    decreases ops.len() - at,
{
    if at < 0 || at >= ops.len() {
        Seq::empty()
    } else {
        seq![operator_token(ops[at]), Lexeme::Number(nums[at + 1])] + flat_from(nums, ops, at + 1)
    }
}

/// The tokens of the formula `nums[0] ops[0] nums[1] ... nums[ops.len()]`.
pub open spec fn flat(nums: Seq<Scalar>, ops: Seq<BinaryOp>) -> Seq<Lexeme> {
    seq![Lexeme::Number(nums[0])] + flat_from(nums, ops, 0)
}

/// The first operator from `from` on that binds weaker than `min_bp`, or
/// the number of operators where there is none.
pub open spec fn first_weaker(ops: Seq<BinaryOp>, from: int, min_bp: int) -> int
    decreases ops.len() - from,
{
    if from < 0 || from >= ops.len() || strength(ops[from]) < min_bp {
        from
    } else {
        first_weaker(ops, from + 1, min_bp)
    }
}

/// Where `first_weaker` stops: at the end or at a weaker operator, after
/// operators that all bind at least as tightly as asked.
proof fn lemma_first_weaker(ops: Seq<BinaryOp>, from: int, min_bp: int)
    requires
        0 <= from <= ops.len(),
    ensures
        from <= first_weaker(ops, from, min_bp) <= ops.len(),
        first_weaker(ops, from, min_bp) < ops.len() ==> strength(
            ops[first_weaker(ops, from, min_bp)],
        ) < min_bp,
        forall|j: int|
            from <= j < first_weaker(ops, from, min_bp) ==> strength(#[trigger] ops[j]) >= min_bp,
    decreases ops.len() - from,
{
    if from < ops.len() && strength(ops[from]) >= min_bp {
        lemma_first_weaker(ops, from + 1, min_bp);
    }
}

/// Skipping operators that bind tightly enough does not change where the
/// first weaker one is.
proof fn lemma_first_weaker_skips(ops: Seq<BinaryOp>, from: int, to: int, min_bp: int)
    requires
        0 <= from <= to <= ops.len(),
        forall|j: int| from <= j < to ==> strength(#[trigger] ops[j]) >= min_bp,
    ensures
        first_weaker(ops, from, min_bp) == first_weaker(ops, to, min_bp),
    decreases to - from,
{
    if from < to {
        assert(strength(ops[from]) >= min_bp);
        lemma_first_weaker_skips(ops, from + 1, to, min_bp);
    }
}

/// The root lies within its range, binds no tighter than any operator of
/// the range, and strictly weaker than those after it.
pub proof fn lemma_root_is_last_weakest(ops: Seq<BinaryOp>, lo: int, hi: int)
    requires
        0 <= lo < hi <= ops.len(),
    ensures
        lo <= root(ops, lo, hi) < hi,
        forall|j: int| lo <= j < hi ==> strength(ops[root(ops, lo, hi)]) <= strength(#[trigger] ops[j]),
        forall|j: int|
            root(ops, lo, hi) < j < hi ==> strength(ops[root(ops, lo, hi)]) < strength(
                #[trigger] ops[j],
            ),
    decreases hi - lo,
{
    if hi - lo > 1 {
        lemma_root_is_last_weakest(ops, lo, hi - 1);
    }
}

/// An operator that binds no tighter than those before it and strictly
/// weaker than those after it is the root.
proof fn lemma_root_found(ops: Seq<BinaryOp>, lo: int, at: int, hi: int)
    requires
        0 <= lo <= at < hi <= ops.len(),
        forall|j: int| lo <= j < at ==> strength(#[trigger] ops[j]) >= strength(ops[at]),
        forall|j: int| at < j < hi ==> strength(#[trigger] ops[j]) > strength(ops[at]),
    ensures
        root(ops, lo, hi) == at,
    decreases hi - lo,
{
    if hi - lo > 1 {
        if at == hi - 1 {
            lemma_root_is_last_weakest(ops, lo, hi - 1);
        } else {
            lemma_root_found(ops, lo, at, hi - 1);
            assert(strength(ops[hi - 1]) > strength(ops[at]));
        }
    }
}

/// The tokens from an operator on are two per operator.
proof fn lemma_flat_from_len(nums: Seq<Scalar>, ops: Seq<BinaryOp>, at: int)
    requires
        0 <= at <= ops.len(),
    ensures
        flat_from(nums, ops, at).len() == 2 * (ops.len() - at),
    decreases ops.len() - at,
{
    if at < ops.len() {
        lemma_flat_from_len(nums, ops, at + 1);
    }
}

/// Parsing a formula without parentheses from one of its numbers on, at a
/// given binding power, takes the operators up to the first weaker one and
/// gives their standard tree.
proof fn lemma_flat_expr(nums: Seq<Scalar>, ops: Seq<BinaryOp>, at: int, min_bp: u8)
    requires
        nums.len() == ops.len() + 1,
        0 <= at <= ops.len(),
    ensures
        parse_expr(seq![Lexeme::Number(nums[at])] + flat_from(nums, ops, at), min_bp) == (
            Ok::<Ast, ParseError>(
                standard_tree(nums, ops, at, first_weaker(ops, at, min_bp as int)),
            ),
            flat_from(nums, ops, first_weaker(ops, at, min_bp as int)),
        ),
    decreases ops.len() - at, 1int,
{
    let rest = flat_from(nums, ops, at);
    let ts = seq![Lexeme::Number(nums[at])] + rest;
    assert(ts[0] == Lexeme::Number(nums[at]));
    assert(ts.drop_first() =~= rest);
    assert(parse_primary(ts) == (Ok::<Ast, ParseError>(Ast::Literal(nums[at])), rest));
    lemma_flat_infix(nums, ops, at, at, min_bp);
}

/// The operators after an operand that is the standard tree of what has
/// been read so far: they are taken up to the first weaker one, and the
/// operand grows into the standard tree of all that was read.
proof fn lemma_flat_infix(nums: Seq<Scalar>, ops: Seq<BinaryOp>, lo: int, at: int, min_bp: u8)
    requires
        nums.len() == ops.len() + 1,
        0 <= lo <= at <= ops.len(),
        at < ops.len() ==> forall|j: int|
            lo <= j < at ==> strength(#[trigger] ops[j]) >= strength(ops[at]),
    ensures
        parse_infix(standard_tree(nums, ops, lo, at), flat_from(nums, ops, at), min_bp) == (
            Ok::<Ast, ParseError>(
                standard_tree(nums, ops, lo, first_weaker(ops, at, min_bp as int)),
            ),
            flat_from(nums, ops, first_weaker(ops, at, min_bp as int)),
        ),
    decreases ops.len() - at, 0int,
{
    let lhs = standard_tree(nums, ops, lo, at);
    let ts = flat_from(nums, ops, at);
    if at < ops.len() {
        let op = ops[at];
        let infix = Infix::Arithmetic(op);
        let after = seq![Lexeme::Number(nums[at + 1])] + flat_from(nums, ops, at + 1);
        assert(ts[0] == operator_token(op));
        assert(ts.drop_first() =~= after);
        assert(Infix::of(ts[0]) == Some(infix));
        if strength(op) >= min_bp {
            let right_bp = infix.power().1;
            assert(right_bp == strength(op) + 1);
            let next = first_weaker(ops, at + 1, right_bp as int);
            lemma_first_weaker(ops, at + 1, right_bp as int);
            lemma_flat_expr(nums, ops, at + 1, right_bp);
            let rhs = standard_tree(nums, ops, at + 1, next);
            let rest = flat_from(nums, ops, next);
            lemma_flat_from_len(nums, ops, next);
            lemma_flat_from_len(nums, ops, at);
            // The operator just taken is the root of all that was read.
            lemma_root_found(ops, lo, at, next);
            assert(standard_tree(nums, ops, lo, next) == infix.join(lhs, rhs));
            // What comes next binds no tighter than anything read so far.
            assert(next < ops.len() ==> forall|j: int|
                lo <= j < next ==> strength(#[trigger] ops[j]) >= strength(ops[next]));
            lemma_flat_infix(nums, ops, lo, next, min_bp);
            lemma_first_weaker_skips(ops, at, next, min_bp as int);
        }
    }
}

/// A formula of numbers and arithmetic operators without parentheses
/// parses to its standard tree: the tree in which `*` and `/` bind tighter
/// than `+` and `-` and operators of one strength group from the left.
pub proof fn lemma_flat_formula_parses_to_standard_tree(nums: Seq<Scalar>, ops: Seq<BinaryOp>)
    requires
        nums.len() == ops.len() + 1,
    ensures
        parse_formula(flat(nums, ops)) == (
            Ok::<Ast, ParseError>(standard_tree(nums, ops, 0, ops.len() as int)),
            Seq::<Lexeme>::empty(),
        ),
{
    lemma_flat_expr(nums, ops, 0, 0);
    lemma_first_weaker(ops, 0, 0);
    let end = first_weaker(ops, 0, 0);
    if end < ops.len() {
        assert(strength(ops[end]) >= 1);
    }
}

} // verus!
