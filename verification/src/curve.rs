//! The integer side of the Bezier evaluator: how many control points a curve
//! may have, and the binomial weight of each in the Bernstein basis.

use crate::binomial::{
    binomial, binomial_coefficient, lemma_binomial_all, lemma_binomial_none, MAX_DEGREE,
};
use vstd::prelude::*;

verus! {

/// Why a curve cannot be evaluated.
#[derive(Clone, Copy, Debug, PartialEq, Eq, Structural)]
pub enum CurveError {
    /// The set of control points is empty.
    InvalidInput,
}

/// The most control points a curve may have: one more than its degree.
pub const MAX_CONTROL_POINTS: usize = 13;

/// The binomial weights of a curve with `count` control points: entry `i` is
/// `C(count - 1, i)`, the integer factor of the `i`-th Bernstein polynomial of
/// degree `count - 1`.
pub open spec fn bernstein_row(count: nat) -> Seq<nat> {
    Seq::new(count, |i: int| binomial((count - 1) as nat, i as nat))
}

/// The first and the last control point have weight 1: a curve starts on its
/// first control point and heads for its last.
pub proof fn lemma_bernstein_row_ends(count: nat)
    requires
        count >= 1,
    ensures
        bernstein_row(count)[0] == 1,
        bernstein_row(count)[count - 1] == 1,
{
    lemma_binomial_none((count - 1) as nat);
    lemma_binomial_all((count - 1) as nat);
}

/// The binomial weights of the control points of a curve, in the order of the
/// control points. An empty set of control points is refused.
pub fn bernstein_coefficients(count: usize) -> (row: Result<Vec<u32>, CurveError>)
    requires
        count <= MAX_CONTROL_POINTS,
    ensures
        count == 0 <==> row == Err::<Vec<u32>, CurveError>(CurveError::InvalidInput),
        count >= 1 <==> row.is_ok(),
        row matches Ok(weights) ==> weights@.map_values(|w: u32| w as nat) == bernstein_row(
            count as nat,
        ),
{
    if count == 0 {
        return Err(CurveError::InvalidInput);
    }
    let degree: u32 = (count - 1) as u32;
    let mut weights: Vec<u32> = Vec::new();
    let mut index: u32 = 0;
    while index <= degree
        invariant
            degree == count - 1,
            degree <= MAX_DEGREE,
            index <= degree + 1,
            weights.len() == index,
            forall|i: int|
                0 <= i < index ==> weights[i] == binomial(degree as nat, i as nat),
        decreases degree + 1 - index,
    {
        weights.push(binomial_coefficient(degree, index));
        index += 1;
    }
    assert(weights@.map_values(|w: u32| w as nat) =~= bernstein_row(count as nat));
    Ok(weights)
}

} // verus!
