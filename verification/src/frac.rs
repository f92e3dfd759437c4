//! Exact fractions over `i128`, bounded so that every product of a
//! numerator and a denominator fits the machine word.

use vstd::prelude::*;

verus! {

/// Largest magnitude a numerator may have, and largest value a
/// denominator may have.  Two values below this bound multiply without
/// overflowing an `i128`, and two such products add without overflowing
/// either, so fraction addition needs no wider word.
pub const FRAC_LIMIT: i128 = 9_223_372_036_854_775_807;

/// A fraction `num / den` of bounded machine integers.
#[derive(Clone, Copy, PartialEq, Eq, Structural, Debug)]
pub struct Frac {
    pub num: i128,
    pub den: i128,
}

/// The bound every stored fraction obeys: denominator positive, both
/// parts within `FRAC_LIMIT`.
pub open spec fn in_range(p: (int, int)) -> bool {
    &&& -(FRAC_LIMIT as int) <= p.0 <= FRAC_LIMIT as int
    &&& 0 < p.1 <= FRAC_LIMIT as int
}

/// `a` is strictly below `b` as rationals; meaningful for positive
/// denominators, where it says `a.0/a.1 < b.0/b.1` with the division
/// cross-multiplied away.
pub open spec fn frac_lt(a: (int, int), b: (int, int)) -> bool {
    a.0 * b.1 < b.0 * a.1
}

/// Textbook addition of two fractions, without reduction:
/// `a.0/a.1 + b.0/b.1 == (a.0*b.1 + b.0*a.1) / (a.1*b.1)`.
pub open spec fn add_pairs(a: (int, int), b: (int, int)) -> (int, int) {
    (a.0 * b.1 + b.0 * a.1, a.1 * b.1)
}

impl Frac {
    /// The fraction as a pair of unbounded integers.
    pub open spec fn pair(self) -> (int, int) {
        (self.num as int, self.den as int)
    }

    /// A stored fraction is well formed when it lies within the bound.
    pub open spec fn wf(self) -> bool {
        in_range(self.pair())
    }
}

/// Adds two bounded fractions exactly.  Returns `None` exactly when the
/// unreduced result leaves the bound.
pub fn frac_add(a: Frac, b: Frac) -> (r: Option<Frac>)
    requires
        a.wf(),
        b.wf(),
    ensures
        (r matches Some(c) ==> c.wf() && c.pair() == add_pairs(a.pair(), b.pair())),
        (r is Some) == in_range(add_pairs(a.pair(), b.pair())),
{
    proof {
        assert({
            &&& -(FRAC_LIMIT as int) * (FRAC_LIMIT as int) <= (a.num as int) * (b.den as int)
                <= (FRAC_LIMIT as int) * (FRAC_LIMIT as int)
            &&& -(FRAC_LIMIT as int) * (FRAC_LIMIT as int) <= (b.num as int) * (a.den as int)
                <= (FRAC_LIMIT as int) * (FRAC_LIMIT as int)
            &&& 0 < (a.den as int) * (b.den as int)
                <= (FRAC_LIMIT as int) * (FRAC_LIMIT as int)
        }) by (nonlinear_arith)
            requires
                -FRAC_LIMIT <= a.num <= FRAC_LIMIT,
                -FRAC_LIMIT <= b.num <= FRAC_LIMIT,
                0 < a.den <= FRAC_LIMIT,
                0 < b.den <= FRAC_LIMIT,
        ;
    }
    let n: i128 = a.num * b.den + b.num * a.den;
    let d: i128 = a.den * b.den;
    if -FRAC_LIMIT <= n && n <= FRAC_LIMIT && d <= FRAC_LIMIT {
        Some(Frac { num: n, den: d })
    } else {
        None
    }
}

/// Multiplies the numerator of a bounded fraction by a positive factor,
/// exactly.  Returns `None` exactly when the scaled numerator leaves
/// the bound.
pub fn frac_scale(a: Frac, k: i128) -> (r: Option<Frac>)
    requires
        a.wf(),
        1 <= k <= FRAC_LIMIT,
    ensures
        (r matches Some(c) ==> c.wf() && c.pair() == (k * a.pair().0, a.pair().1)),
        (r is Some) == (-(FRAC_LIMIT as int) <= k * a.pair().0 <= FRAC_LIMIT as int),
{
    proof {
        assert(-(FRAC_LIMIT as int) * (FRAC_LIMIT as int) <= (k as int) * (a.num as int)
            <= (FRAC_LIMIT as int) * (FRAC_LIMIT as int)) by (nonlinear_arith)
            requires
                -FRAC_LIMIT <= a.num <= FRAC_LIMIT,
                1 <= k <= FRAC_LIMIT,
        ;
    }
    let n: i128 = k * a.num;
    if -FRAC_LIMIT <= n && n <= FRAC_LIMIT {
        Some(Frac { num: n, den: a.den })
    } else {
        None
    }
}

} // verus!
