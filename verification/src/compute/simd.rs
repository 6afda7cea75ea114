//! Arithmetic on whole vectors, spread over the cores of the machine.
//!
//! The work is handed out by `rayon`. Element-wise results do not depend on
//! how the work is split. A total does: rounded addition is not
//! associative, and the grouping of the additions follows the split.
use crate::atom_script::ast::BinaryOp;
use crate::scalar::Scalar;
use rayon::iter::{IndexedParallelIterator, IntoParallelRefIterator, ParallelIterator};
use vstd::prelude::*;

verus! {

/// The smallest of three lengths.
pub open spec fn shortest(a: int, b: int, c: int) -> int {
    if a <= b && a <= c {
        a
    } else if b <= c {
        b
    } else {
        c
    }
}

/// The operator applied to the elements two vectors have in common.
pub open spec fn zipped(op: BinaryOp, a: Seq<Scalar>, b: Seq<Scalar>) -> Seq<Scalar> {
    Seq::new(
        if a.len() <= b.len() {
            a.len()
        } else {
            b.len()
        },
        |i: int| op.apply(a[i], b[i]),
    )
}

/// A way to add up a sequence of numbers: which additions are made, and in
/// which grouping. The numbers keep their order.
pub enum Grouping {
    /// Zero, standing for no number at all.
    Nothing,
    /// One number as it is.
    Item,
    /// The total of the first `left_count` numbers in one grouping, plus the
    /// total of the others in another.
    Split { left: Box<Grouping>, right: Box<Grouping>, left_count: nat },
}

impl Grouping {
    /// Whether the grouping is one of `count` numbers.
    pub open spec fn covers(self, count: nat) -> bool
        decreases self,
    {
        match self {
            Grouping::Nothing => count == 0,
            Grouping::Item => count == 1,
            Grouping::Split { left, right, left_count } => {
                &&& left_count <= count
                &&& left.covers(left_count)
                &&& right.covers((count - left_count) as nat)
            },
        }
    }

    /// The total of `values` added up in this grouping.
    pub open spec fn total(self, values: Seq<Scalar>) -> Scalar
        recommends
            self.covers(values.len()),
        decreases self,
    {
        match self {
            Grouping::Nothing => Scalar::zero(),
            Grouping::Item => values[0],
            Grouping::Split { left, right, left_count } => left.total(
                values.take(left_count as int),
            ).sum(right.total(values.skip(left_count as int))),
        }
    }
}

/// Whether `total` is what adding up `values` gives in some grouping.
pub open spec fn is_total_of(values: Seq<Scalar>, total: Scalar) -> bool {
    exists|grouping: Grouping|
        grouping.covers(values.len()) && #[trigger] grouping.total(values) == total
}

/// The values whose lock flag is `locked`, in order, as far as both vectors
/// reach.
pub open spec fn selected(values: Seq<Scalar>, is_locked: Seq<bool>, locked: bool) -> Seq<Scalar>
    decreases values.len(),
{
    if values.len() == 0 || is_locked.len() == 0 {
        Seq::empty()
    } else if values.len() > is_locked.len() {
        selected(values.take(is_locked.len() as int), is_locked, locked)
    } else {
        let before = selected(values.drop_last(), is_locked, locked);
        if is_locked[values.len() - 1] == locked {
            before.push(values.last())
        } else {
            before
        }
    }
}

/// The new value of one cell: a locked cell keeps its value; an unlocked
/// cell gets its share of `remaining_target` by its reference weight, or
/// zero where the unlocked weights add up to zero.
pub open spec fn spread_cell(
    current: Scalar,
    reference: Scalar,
    locked: bool,
    unlocked_ref_sum: Scalar,
    remaining_target: Scalar,
) -> Scalar {
    if locked {
        current
    } else if unlocked_ref_sum.is_zero() {
        Scalar::zero()
    } else {
        reference.quotient(unlocked_ref_sum).product(remaining_target)
    }
}

/// The new values of all cells that the three vectors have in common.
pub open spec fn spread_of(
    remaining_target: Scalar,
    unlocked_ref_sum: Scalar,
    current: Seq<Scalar>,
    reference: Seq<Scalar>,
    is_locked: Seq<bool>,
) -> Seq<Scalar> {
    Seq::new(
        shortest(current.len() as int, reference.len() as int, is_locked.len() as int) as nat,
        |i: int| spread_cell(current[i], reference[i], is_locked[i], unlocked_ref_sum, remaining_target),
    )
}

/// Computes the new value of one cell.
pub fn spread_one(
    current: Scalar,
    reference: Scalar,
    locked: bool,
    unlocked_ref_sum: Scalar,
    remaining_target: Scalar,
) -> (value: Scalar)
    ensures
        value == spread_cell(current, reference, locked, unlocked_ref_sum, remaining_target),
{
    let safe_ref_sum = if unlocked_ref_sum.check_zero() {
        Scalar::new_one()
    } else {
        unlocked_ref_sum
    };
    if locked {
        current
    } else if unlocked_ref_sum.check_zero() {
        Scalar::new_zero()
    } else {
        reference.divided_by(safe_ref_sum).times(remaining_target)
    }
}

/// `par_iter`, `zip`, `map` and `collect` of `rayon` on two slices: the
/// items the slices have in common are paired by position, the operator is
/// applied to each pair, and the results are collected in the order of the
/// items.
#[verifier::external_body]
fn par_zip(op: BinaryOp, a: &[Scalar], b: &[Scalar]) -> (out: Vec<Scalar>)
    ensures
        out@ == zipped(op, a@, b@),
{
    a.par_iter().zip(b.par_iter()).map(|(x, y)| op.eval(*x, *y)).collect()
}

/// `par_iter`, `copied` and `reduce` of `rayon` on a slice, adding from
/// zero. The items keep their order; in which grouping the additions are
/// made, and where a zero is added in, depends on how the work is split.
/// The total is that of some grouping.
#[verifier::external_body]
fn par_total(values: &[Scalar]) -> (total: Scalar)
    ensures
        is_total_of(values@, total),
{
    values.par_iter().copied().reduce(|| Scalar::new_zero(), |x, y| x.plus(y))
}

/// `par_iter`, `zip`, `map` and `collect` of `rayon` on three slices: the
/// cells the slices have in common, each replaced by its new value, in the
/// order of the cells.
#[verifier::external_body]
fn par_spread(
    remaining_target: Scalar,
    unlocked_ref_sum: Scalar,
    current: &[Scalar],
    reference: &[Scalar],
    is_locked: &[bool],
) -> (out: Vec<Scalar>)
    ensures
        out@ == spread_of(remaining_target, unlocked_ref_sum, current@, reference@, is_locked@),
{
    current
        .par_iter()
        .zip(reference.par_iter())
        .zip(is_locked.par_iter())
        .map(|((c, r), l)| spread_one(*c, *r, *l, unlocked_ref_sum, remaining_target))
        .collect()
}

/// Picks the values whose lock flag is `locked`.
pub fn select(values: &[Scalar], is_locked: &[bool], locked: bool) -> (picked: Vec<Scalar>)
    ensures
        picked@ == selected(values@, is_locked@, locked),
{
    let n = if values.len() <= is_locked.len() {
        values.len()
    } else {
        is_locked.len()
    };
    let mut picked: Vec<Scalar> = Vec::new();
    let mut i: usize = 0;
    while i < n
        invariant
            i <= n,
            n <= values.len(),
            n <= is_locked.len(),
            picked@ == selected(values@.take(i as int), is_locked@, locked),
        decreases n - i,
    {
        proof {
            let next = values@.take(i + 1);
            assert(next.drop_last() =~= values@.take(i as int));
            assert(next.last() == values@[i as int]);
        }
        if is_locked[i] == locked {
            picked.push(values[i]);
        }
        i += 1;
    }
    proof {
        if values.len() > is_locked.len() {
            assert(is_locked.len() > 0 ==> selected(values@, is_locked@, locked) == selected(
                values@.take(n as int),
                is_locked@,
                locked,
            ));
        } else {
            assert(values@.take(n as int) =~= values@);
        }
    }
    picked
}

/// Arithmetic on vectors of numbers.
pub struct VectorOps;

impl VectorOps {
    /// Adds two vectors element-wise, as far as both reach.
    pub fn add(a: &[Scalar], b: &[Scalar]) -> (out: Vec<Scalar>)
        ensures
            out@ == zipped(BinaryOp::Add, a@, b@),
    {
        par_zip(BinaryOp::Add, a, b)
    }

    /// Subtracts b from a element-wise.
    pub fn sub(a: &[Scalar], b: &[Scalar]) -> (out: Vec<Scalar>)
        ensures
            out@ == zipped(BinaryOp::Sub, a@, b@),
    {
        par_zip(BinaryOp::Sub, a, b)
    }

    /// Multiplies two vectors element-wise.
    pub fn mul(a: &[Scalar], b: &[Scalar]) -> (out: Vec<Scalar>)
        ensures
            out@ == zipped(BinaryOp::Mul, a@, b@),
    {
        par_zip(BinaryOp::Mul, a, b)
    }

    /// Divides a by b element-wise. Division by zero gives an infinity or
    /// a NaN.
    pub fn div(a: &[Scalar], b: &[Scalar]) -> (out: Vec<Scalar>)
        ensures
            out@ == zipped(BinaryOp::Div, a@, b@),
    {
        par_zip(BinaryOp::Div, a, b)
    }

    /// Calculates the checksum of the vector: the total of its elements,
    /// added in a grouping that follows the split of the work.
    pub fn sum(a: &[Scalar]) -> (total: Scalar)
        ensures
            is_total_of(a@, total),
    {
        par_total(a)
    }

    /// Gives every cell its new value, given what is left of the target
    /// after the locked cells and the total reference weight of the
    /// unlocked cells.
    pub fn spread_with_sums(
        remaining_target: Scalar,
        unlocked_ref_sum: Scalar,
        current_values: &[Scalar],
        reference_values: &[Scalar],
        is_locked: &[bool],
    ) -> (out: Vec<Scalar>)
        ensures
            out@ == spread_of(
                remaining_target,
                unlocked_ref_sum,
                current_values@,
                reference_values@,
                is_locked@,
            ),
    {
        par_spread(remaining_target, unlocked_ref_sum, current_values, reference_values, is_locked)
    }

    /// Spreads a `target` value proportionally across cells based on
    /// `reference_values`. Locked cells keep their value; what is left of
    /// the target after them is spread across the unlocked cells.
    ///
    /// The two totals involved, of the locked values and of the unlocked
    /// reference weights, are added in a grouping that follows the split of
    /// the work; the result is the spread for the totals that came out.
    pub fn proportional_spread(
        target: Scalar,
        current_values: &[Scalar],
        reference_values: &[Scalar],
        is_locked: &[bool],
    ) -> (out: Vec<Scalar>)
        ensures
            exists|locked_sum: Scalar, unlocked_ref_sum: Scalar|
                {
                    &&& is_total_of(selected(current_values@, is_locked@, true), locked_sum)
                    &&& is_total_of(
                        selected(reference_values@, is_locked@, false),
                        unlocked_ref_sum,
                    )
                    &&& out@ == #[trigger] spread_of(
                        target.difference(locked_sum),
                        unlocked_ref_sum,
                        current_values@,
                        reference_values@,
                        is_locked@,
                    )
                },
    {
        let locked_values = select(current_values, is_locked, true);
        let locked_sum = par_total(locked_values.as_slice());
        let remaining_target = target.minus(locked_sum);
        let unlocked_refs = select(reference_values, is_locked, false);
        let unlocked_ref_sum = par_total(unlocked_refs.as_slice());
        VectorOps::spread_with_sums(
            remaining_target,
            unlocked_ref_sum,
            current_values,
            reference_values,
            is_locked,
        )
    }
}

} // verus!
