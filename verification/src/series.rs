//! The three iterative series and their accumulators.
//!
//! Each accumulator mirrors one series: an integer position and the
//! exact partial sum as a bounded fraction.  An update advances the
//! position and adds the next term (for the Nilakantha series, the next
//! telescoping pair of terms) to the sum.  Updates are exact, so they
//! refuse to step once the unreduced fraction would leave the bound;
//! they report that refusal and leave the accumulator unchanged.

use vstd::prelude::*;

use crate::frac::{add_pairs, frac_add, frac_lt, frac_scale, in_range, Frac, FRAC_LIMIT};

verus! {

/// Largest `k` with `k * k <= FRAC_LIMIT`: the last position whose
/// Basel term `1 / k^2` has a representable denominator.
pub const BASEL_POS_LIMIT: i128 = 3_037_000_499;

/// Partial sum of the Basel series `1/1^2 + 1/2^2 + ...` through `n`
/// terms, as an unreduced fraction.  The full series converges to
/// `pi^2 / 6`.
pub open spec fn basel_partial(n: nat) -> (int, int)
    decreases n,
{
    if n == 0 {
        (0int, 1int)
    } else {
        add_pairs(basel_partial((n - 1) as nat), (1int, (n * n) as int))
    }
}

/// Accumulator of the Basel series.  `estimate = sqrt(6 * sum)`;
/// square roots are irrational, so the accumulator hands out the exact
/// radicand `6 * sum` and the caller takes the root in floating point.
pub struct BaselPiCalc {
    pub iterations: i128,
    pub sum: Frac,
}

impl BaselPiCalc {
    /// Number of updates performed so far.
    pub open spec fn count(self) -> nat {
        self.iterations as nat
    }

    /// The accumulator's invariant: the stored fraction is exactly the
    /// partial sum of the series through `count` terms.
    pub open spec fn wf(self) -> bool {
        &&& 0 <= self.iterations
        &&& self.sum.wf()
        &&& self.sum.pair() == basel_partial(self.count())
    }

    /// Exactly when the next update succeeds: the next position and the
    /// unreduced next partial sum both stay within the bound.
    pub open spec fn can_update(self) -> bool {
        let k = self.count() + 1;
        &&& k <= BASEL_POS_LIMIT
        &&& in_range(add_pairs(basel_partial(self.count()), (1int, (k * k) as int)))
    }

    /// A fresh accumulator: no terms yet, sum zero.
    pub fn new() -> (r: Self)
        ensures
            r.wf(),
            r.count() == 0,
    {
        BaselPiCalc { iterations: 0, sum: Frac { num: 0, den: 1 } }
    }

    /// Adds the next term `1 / (count + 1)^2` to the sum, exactly.
    /// Fails, leaving the accumulator unchanged, exactly when the
    /// result would leave the bound.
    pub fn update(&mut self) -> (r: bool)
        requires
            old(self).wf(),
        ensures
            final(self).wf(),
            r == old(self).can_update(),
            r ==> final(self).count() == old(self).count() + 1,
            !r ==> *final(self) == *old(self),
    {
        if self.iterations >= BASEL_POS_LIMIT {
            return false;
        }
        let k: i128 = self.iterations + 1;
        proof {
            assert(0 < k * k && k * k <= 9_223_372_036_854_775_807) by (nonlinear_arith)
                requires
                    1 <= k <= 3_037_000_499,
            ;
        }
        let kk: i128 = k * k;
        match frac_add(self.sum, Frac { num: 1, den: kk }) {
            Some(s) => {
                self.iterations = k;
                self.sum = s;
                true
            },
            None => false,
        }
    }

    /// Number of terms added so far.
    pub fn iterations(&self) -> (r: i128)
        requires
            self.wf(),
        ensures
            r == self.count(),
    {
        self.iterations
    }

    /// The exact partial sum.
    pub fn sum_frac(&self) -> (r: Frac)
        requires
            self.wf(),
        ensures
            r.pair() == basel_partial(self.count()),
    {
        self.sum
    }

    /// The exact radicand `6 * sum`, whose square root is the series'
    /// estimate of pi.  Fails exactly when the scaled numerator leaves
    /// the bound.
    pub fn pi_squared_frac(&self) -> (r: Option<Frac>)
        requires
            self.wf(),
        ensures
            (r matches Some(c) ==> c.wf() && c.pair() == (
                6 * basel_partial(self.count()).0,
                basel_partial(self.count()).1,
            )),
            (r is Some) == (-(FRAC_LIMIT as int) <= 6 * basel_partial(self.count()).0
                <= FRAC_LIMIT as int),
    {
        frac_scale(self.sum, 6)
    }
}

/// Position of the Leibniz series after `n` updates: the signed odd
/// number whose reciprocal is the next term, alternating
/// `1, -3, 5, -7, ...`.
pub open spec fn leibniz_x(n: nat) -> int {
    if n % 2 == 0 {
        2 * (n as int) + 1
    } else {
        -(2 * (n as int) + 1)
    }
}

/// The term added by update `n` of the Leibniz series, `1 / x_n`, as a
/// fraction with a positive denominator.
pub open spec fn leibniz_term(n: nat) -> (int, int) {
    if n % 2 == 0 {
        (1int, 2 * (n as int) + 1)
    } else {
        (-1int, 2 * (n as int) + 1)
    }
}

/// Partial sum of the Leibniz series `1/1 - 1/3 + 1/5 - ...` through
/// `n` terms, as an unreduced fraction.  The full series converges to
/// `pi / 4`.
pub open spec fn leibniz_partial(n: nat) -> (int, int)
    decreases n,
{
    if n == 0 {
        (0int, 1int)
    } else {
        add_pairs(leibniz_partial((n - 1) as nat), leibniz_term((n - 1) as nat))
    }
}

/// Accumulator of the Leibniz series.  `estimate = 4 * sum`.  The
/// number of updates is not stored; it is derived from the position as
/// `(|x| - 1) / 2`.
pub struct LeibnizPiCalc {
    pub x: i128,
    pub sum: Frac,
    pub count: Ghost<nat>,
}

impl LeibnizPiCalc {
    /// The accumulator's invariant: the position is the signed odd
    /// number of the next term, and the stored fraction is exactly the
    /// partial sum through `count` terms.
    pub open spec fn wf(self) -> bool {
        &&& self.x == leibniz_x(self.count@)
        &&& self.sum.wf()
        &&& self.sum.pair() == leibniz_partial(self.count@)
    }

    /// Exactly when the next update succeeds: the next position and the
    /// unreduced next partial sum both stay within the bound.
    pub open spec fn can_update(self) -> bool {
        &&& 2 * self.count@ + 3 <= FRAC_LIMIT
        &&& in_range(add_pairs(leibniz_partial(self.count@), leibniz_term(self.count@)))
    }

    /// A fresh accumulator: no terms yet, sum zero, position one.
    pub fn new() -> (r: Self)
        ensures
            r.wf(),
            r.count@ == 0,
    {
        LeibnizPiCalc { x: 1, sum: Frac { num: 0, den: 1 }, count: Ghost(0) }
    }

    /// Adds the term `1 / x` to the sum, exactly, then advances the
    /// position to the next signed odd number, `sign(x) * (-2) - x`.
    /// Fails, leaving the accumulator unchanged, exactly when the
    /// result would leave the bound.
    pub fn update(&mut self) -> (r: bool)
        requires
            old(self).wf(),
        ensures
            final(self).wf(),
            r == old(self).can_update(),
            r ==> final(self).count@ == old(self).count@ + 1,
            !r ==> final(self).x == old(self).x && final(self).sum == old(self).sum
                && final(self).count@ == old(self).count@,
    {
        if self.x > FRAC_LIMIT - 2 || self.x < -(FRAC_LIMIT - 2) {
            return false;
        }
        let pos = self.x > 0;
        let ax: i128 = if pos {
            self.x
        } else {
            -self.x
        };
        let sgn: i128 = if pos {
            1
        } else {
            -1
        };
        match frac_add(self.sum, Frac { num: sgn, den: ax }) {
            Some(s) => {
                self.x = if pos {
                    -2 - self.x
                } else {
                    2 - self.x
                };
                self.sum = s;
                self.count = Ghost(self.count@ + 1);
                true
            },
            None => false,
        }
    }

    /// Number of terms added so far, derived from the position as
    /// `(|x| - 1) / 2`.
    pub fn iterations(&self) -> (r: i128)
        requires
            self.wf(),
        ensures
            r == self.count@,
    {
        let ax: i128 = if self.x > 0 {
            self.x
        } else {
            -self.x
        };
        (ax - 1) / 2
    }

    /// The exact partial sum.
    pub fn sum_frac(&self) -> (r: Frac)
        requires
            self.wf(),
        ensures
            r.pair() == leibniz_partial(self.count@),
    {
        self.sum
    }

    /// The series' exact estimate of pi, `4 * sum`.  Fails exactly when
    /// the scaled numerator leaves the bound.
    pub fn pi_frac(&self) -> (r: Option<Frac>)
        requires
            self.wf(),
        ensures
            (r matches Some(c) ==> c.wf() && c.pair() == (
                4 * leibniz_partial(self.count@).0,
                leibniz_partial(self.count@).1,
            )),
            (r is Some) == (-(FRAC_LIMIT as int) <= 4 * leibniz_partial(self.count@).0
                <= FRAC_LIMIT as int),
    {
        frac_scale(self.sum, 4)
    }
}

/// Largest position the Nilakantha accumulator steps to.  Up to here
/// each telescoping denominator, a product of three consecutive
/// integers, fits the fraction bound with ample room.
pub const NILAKANTHA_POS_LIMIT: i128 = 1_000_000;

/// Position of the Nilakantha series after `n` updates: starts at `-2`
/// and advances by `4` per update.
pub open spec fn nilakantha_i(n: nat) -> int {
    4 * (n as int) - 2
}

/// Partial sum of the Nilakantha series through `n` updates, as an
/// unreduced fraction.  It starts at `3/4` (the series' leading `3`,
/// divided by the final factor of `4` in the estimate) and each update
/// adds the telescoping pair
/// `1/(i(i+1)(i+2)) - 1/((i+2)(i+3)(i+4))` at the new position `i`:
/// the equivalent of two canonical terms of the series.  The full
/// series converges to `pi / 4`.
pub open spec fn nilakantha_partial(n: nat) -> (int, int)
    decreases n,
{
    if n == 0 {
        (3int, 4int)
    } else {
        let i = nilakantha_i(n);
        add_pairs(
            add_pairs(nilakantha_partial((n - 1) as nat), (1int, i * (i + 1) * (i + 2))),
            (-1int, (i + 2) * (i + 3) * (i + 4)),
        )
    }
}

/// Accumulator of the Nilakantha series.  `estimate = 4 * sum`.  Its
/// reported iteration count is the raw position `i`, not a term count:
/// each update advances the series by two canonical terms.
pub struct NilakanthaPiCalc {
    pub i: i128,
    pub sum: Frac,
    pub count: Ghost<nat>,
}

impl NilakanthaPiCalc {
    /// The accumulator's invariant: the position matches the number of
    /// updates, and the stored fraction is exactly the partial sum.
    pub open spec fn wf(self) -> bool {
        &&& self.i == nilakantha_i(self.count@)
        &&& self.sum.wf()
        &&& self.sum.pair() == nilakantha_partial(self.count@)
    }

    /// Exactly when the next update succeeds: the next position stays
    /// within its limit and both unreduced intermediate sums stay
    /// within the fraction bound.
    pub open spec fn can_update(self) -> bool {
        let n = self.count@;
        let i = nilakantha_i(n + 1);
        let first = add_pairs(nilakantha_partial(n), (1int, i * (i + 1) * (i + 2)));
        &&& i <= NILAKANTHA_POS_LIMIT
        &&& in_range(first)
        &&& in_range(add_pairs(first, (-1int, (i + 2) * (i + 3) * (i + 4))))
    }

    /// A fresh accumulator: position `-2`, sum `3/4`, so that the
    /// estimate before any update is exactly `3`.
    pub fn new() -> (r: Self)
        ensures
            r.wf(),
            r.count@ == 0,
    {
        NilakanthaPiCalc { i: -2, sum: Frac { num: 3, den: 4 }, count: Ghost(0) }
    }

    /// Advances the position by `4` and adds the telescoping pair of
    /// terms to the sum, exactly.  Fails, leaving the accumulator
    /// unchanged, exactly when the result would leave the bound.
    pub fn update(&mut self) -> (r: bool)
        requires
            old(self).wf(),
        ensures
            final(self).wf(),
            r == old(self).can_update(),
            r ==> final(self).count@ == old(self).count@ + 1,
            !r ==> final(self).i == old(self).i && final(self).sum == old(self).sum
                && final(self).count@ == old(self).count@,
    {
        if self.i > NILAKANTHA_POS_LIMIT - 4 {
            return false;
        }
        let i2: i128 = self.i + 4;
        proof {
            assert({
                &&& 0 < i2 * (i2 + 1)
                &&& i2 * (i2 + 1) <= 1_000_001_000_000
                &&& 0 < i2 * (i2 + 1) * (i2 + 2)
                &&& i2 * (i2 + 1) * (i2 + 2) <= 9_223_372_036_854_775_807
                &&& 0 < (i2 + 2) * (i2 + 3)
                &&& (i2 + 2) * (i2 + 3) <= 1_000_005_000_006
                &&& 0 < (i2 + 2) * (i2 + 3) * (i2 + 4)
                &&& (i2 + 2) * (i2 + 3) * (i2 + 4) <= 9_223_372_036_854_775_807
            }) by (nonlinear_arith)
                requires
                    2 <= i2 <= 1_000_000,
            ;
        }
        let d1: i128 = i2 * (i2 + 1) * (i2 + 2);
        let d2: i128 = (i2 + 2) * (i2 + 3) * (i2 + 4);
        match frac_add(self.sum, Frac { num: 1, den: d1 }) {
            Some(s1) => match frac_add(s1, Frac { num: -1, den: d2 }) {
                Some(s2) => {
                    self.i = i2;
                    self.sum = s2;
                    self.count = Ghost(self.count@ + 1);
                    true
                },
                None => false,
            },
            None => false,
        }
    }

    /// The raw position `i`, which this series reports as its
    /// iteration count.
    pub fn iterations(&self) -> (r: i128)
        requires
            self.wf(),
        ensures
            r == nilakantha_i(self.count@),
    {
        self.i
    }

    /// The exact partial sum.
    pub fn sum_frac(&self) -> (r: Frac)
        requires
            self.wf(),
        ensures
            r.pair() == nilakantha_partial(self.count@),
    {
        self.sum
    }

    /// The series' exact estimate of pi, `4 * sum`.  Fails exactly when
    /// the scaled numerator leaves the bound.
    pub fn pi_frac(&self) -> (r: Option<Frac>)
        requires
            self.wf(),
        ensures
            (r matches Some(c) ==> c.wf() && c.pair() == (
                4 * nilakantha_partial(self.count@).0,
                nilakantha_partial(self.count@).1,
            )),
            (r is Some) == (-(FRAC_LIMIT as int) <= 4 * nilakantha_partial(self.count@).0
                <= FRAC_LIMIT as int),
    {
        frac_scale(self.sum, 4)
    }
}

/// The denominator of every Basel partial sum is positive.
pub proof fn lemma_basel_den_pos(n: nat)
    ensures
        basel_partial(n).1 > 0,
    decreases n,
{
    if n > 0 {
        lemma_basel_den_pos((n - 1) as nat);
        let p = basel_partial((n - 1) as nat);
        assert(p.1 * ((n * n) as int) > 0) by (nonlinear_arith)
            requires
                p.1 > 0,
                n >= 1,
        ;
    }
}

/// Law: every update of the Basel series strictly raises the partial
/// sum.  The series approaches its limit from below, one side of its
/// steady convergence.
pub proof fn lemma_basel_sum_increases(n: nat)
    ensures
        frac_lt(basel_partial(n), basel_partial(n + 1)),
{
    lemma_basel_den_pos(n);
    let p = basel_partial(n);
    let kk: int = ((n + 1) * (n + 1)) as int;
    let q = basel_partial(n + 1);
    assert(q == add_pairs(p, (1int, kk)));
    assert(p.0 * (p.1 * kk) < (p.0 * kk + 1 * p.1) * p.1) by (nonlinear_arith)
        requires
            p.1 > 0,
    ;
}

/// The denominator of every Leibniz partial sum is positive.
pub proof fn lemma_leibniz_den_pos(n: nat)
    ensures
        leibniz_partial(n).1 > 0,
    decreases n,
{
    if n > 0 {
        lemma_leibniz_den_pos((n - 1) as nat);
        let p = leibniz_partial((n - 1) as nat);
        let t = leibniz_term((n - 1) as nat);
        assert(p.1 * t.1 > 0) by (nonlinear_arith)
            requires
                p.1 > 0,
                t.1 > 0,
        ;
    }
}

/// Law: the Leibniz partial sums alternate, each update overshooting
/// the limit on the other side: an even-numbered update raises the
/// sum, an odd-numbered one lowers it.
pub proof fn lemma_leibniz_sum_alternates(n: nat)
    ensures
        n % 2 == 0 ==> frac_lt(leibniz_partial(n), leibniz_partial(n + 1)),
        n % 2 == 1 ==> frac_lt(leibniz_partial(n + 1), leibniz_partial(n)),
{
    lemma_leibniz_den_pos(n);
    let p = leibniz_partial(n);
    let t = leibniz_term(n);
    let q = leibniz_partial(n + 1);
    assert(q == add_pairs(p, t));
    if n % 2 == 0 {
        assert(p.0 * (p.1 * t.1) < (p.0 * t.1 + 1 * p.1) * p.1) by (nonlinear_arith)
            requires
                p.1 > 0,
        ;
    } else {
        assert((p.0 * t.1 + (-1) * p.1) * p.1 < p.0 * (p.1 * t.1)) by (nonlinear_arith)
            requires
                p.1 > 0,
        ;
    }
}

/// The denominator of every Nilakantha partial sum is positive.
pub proof fn lemma_nilakantha_den_pos(n: nat)
    ensures
        nilakantha_partial(n).1 > 0,
    decreases n,
{
    if n > 0 {
        lemma_nilakantha_den_pos((n - 1) as nat);
        let p = nilakantha_partial((n - 1) as nat);
        let i = nilakantha_i(n);
        assert((p.1 * (i * (i + 1) * (i + 2))) * ((i + 2) * (i + 3) * (i + 4)) > 0)
            by (nonlinear_arith)
            requires
                p.1 > 0,
                i >= 2,
        ;
    }
}

/// Adding `1/d1 - 1/d2` with `0 < d1 < d2` strictly raises a fraction
/// with a positive denominator.
proof fn lemma_telescope_raises(p: (int, int), d1: int, d2: int)
    requires
        p.1 > 0,
        0 < d1 < d2,
    ensures
        frac_lt(p, add_pairs(add_pairs(p, (1int, d1)), (-1int, d2))),
{
    assert(p.0 * ((p.1 * d1) * d2) < ((p.0 * d1 + 1 * p.1) * d2 + (-1) * (p.1 * d1)) * p.1)
        by (nonlinear_arith)
        requires
            p.1 > 0,
            0 < d1 < d2,
    ;
}

/// Law: every update of the Nilakantha series strictly raises the
/// partial sum: the first term of each telescoping pair outweighs the
/// second.  The series approaches its limit from below, one side of
/// its steady convergence.
pub proof fn lemma_nilakantha_sum_increases(n: nat)
    ensures
        frac_lt(nilakantha_partial(n), nilakantha_partial(n + 1)),
{
    lemma_nilakantha_den_pos(n);
    let p = nilakantha_partial(n);
    let i = nilakantha_i(n + 1);
    assert(0 < i * (i + 1) * (i + 2) && i * (i + 1) * (i + 2) < (i + 2) * (i + 3) * (i + 4))
        by (nonlinear_arith)
        requires
            i >= 2,
    ;
    lemma_telescope_raises(p, i * (i + 1) * (i + 2), (i + 2) * (i + 3) * (i + 4));
}

} // verus!
