//! Exact rational factors.
//!
//! Score multipliers and hop-duration factors are products of the small
//! rational constants that level tiles carry (a tempo shift of three halves,
//! a score doubler, and so on). Keeping them as integer fractions makes every
//! multiplication exact, so contracts can pin results down to the digit.

use vstd::prelude::*;

verus! {

/// Upper bound for numerators and denominators of a well-formed [`Ratio`].
///
/// Keeping both components at or below this limit means any product of two
/// well-formed components fits comfortably in a `u64`, and any scaled
/// millisecond duration or score award fits comfortably in an `i64`.
pub const RATIO_LIMIT: u64 = 1_000_000_000;

/// A positive rational number `num / den`, used for score multipliers and
/// hop-time factors.
#[derive(Clone, Copy, Debug, PartialEq, Eq, Structural)]
pub struct Ratio {
    pub num: u64,
    pub den: u64,
}

impl Ratio {
    /// Both components positive and small enough that products stay exact.
    pub open spec fn wf(self) -> bool {
        1 <= self.num <= RATIO_LIMIT && 1 <= self.den <= RATIO_LIMIT
    }

    /// The neutral factor, one.
    pub fn one() -> (r: Ratio)
        ensures
            r == (Ratio { num: 1, den: 1 }),
            r.wf(),
    {
        Ratio { num: 1, den: 1 }
    }

    /// Builds `num / den`, rejecting components that are zero or over the limit.
    pub fn new(num: u64, den: u64) -> (r: Option<Ratio>)
        ensures
            r is Some <==> (1 <= num <= RATIO_LIMIT && 1 <= den <= RATIO_LIMIT),
            r matches Some(q) ==> q == (Ratio { num, den }) && q.wf(),
    {
        if 1 <= num && num <= RATIO_LIMIT && 1 <= den && den <= RATIO_LIMIT {
            Some(Ratio { num, den })
        } else {
            None
        }
    }

    /// Runtime check of [`Ratio::wf`], used when validating level data.
    pub fn is_wf(&self) -> (r: bool)
        ensures
            r == self.wf(),
    {
        1 <= self.num && self.num <= RATIO_LIMIT && 1 <= self.den && self.den <= RATIO_LIMIT
    }

    /// The reciprocal `den / num`; well-formedness is symmetric.
    pub fn invert(self) -> (r: Ratio)
        ensures
            r == (Ratio { num: self.den, den: self.num }),
            self.wf() ==> r.wf(),
    {
        Ratio { num: self.den, den: self.num }
    }

    /// Whether the exact product of `self` and `other` is itself well-formed.
    pub open spec fn product_fits(self, other: Ratio) -> bool {
        self.num * other.num <= RATIO_LIMIT && self.den * other.den <= RATIO_LIMIT
    }

    /// The value `self * other` takes after a bounded multiplication: the
    /// exact product when it stays well-formed, the left operand unchanged
    /// otherwise.
    pub open spec fn spec_mul_bounded(self, other: Ratio) -> Ratio {
        if self.product_fits(other) {
            Ratio { num: (self.num * other.num) as u64, den: (self.den * other.den) as u64 }
        } else {
            self
        }
    }

    /// Multiplies two factors exactly; when the exact product would leave the
    /// well-formed range the operation is skipped and `self` is returned, so
    /// a factor can never silently lose precision.
    pub fn mul_bounded(self, other: Ratio) -> (r: Ratio)
        requires
            self.wf(),
            other.wf(),
        ensures
            r == self.spec_mul_bounded(other),
            r.wf(),
    {
        assert(1 <= self.num * other.num <= RATIO_LIMIT * RATIO_LIMIT
            && 1 <= self.den * other.den <= RATIO_LIMIT * RATIO_LIMIT) by (nonlinear_arith)
            requires
                1 <= self.num <= RATIO_LIMIT,
                1 <= other.num <= RATIO_LIMIT,
                1 <= self.den <= RATIO_LIMIT,
                1 <= other.den <= RATIO_LIMIT,
        ;
        let n = self.num * other.num;
        let d = self.den * other.den;
        if n <= RATIO_LIMIT && d <= RATIO_LIMIT {
            Ratio { num: n, den: d }
        } else {
            self
        }
    }

    /// `base` scaled by this factor with the product truncated to whole
    /// milliseconds, never below one.
    pub open spec fn spec_scale(self, base: i64) -> i64 {
        let scaled = base * self.num as int / self.den as int;
        if scaled < 1 {
            1i64
        } else {
            scaled as i64
        }
    }

    /// Scales a nonnegative millisecond duration by this factor, truncating,
    /// with a floor of one so downstream divisions stay defined.
    pub fn scale_ms(self, base: i64) -> (r: i64)
        requires
            self.wf(),
            0 <= base <= RATIO_LIMIT,
        ensures
            r == self.spec_scale(base),
            1 <= r,
            base >= 1 ==> r <= base * RATIO_LIMIT,
    {
        proof {
            let b = base as int;
            let n = self.num as int;
            let d = self.den as int;
            let lim = RATIO_LIMIT as int;
            assert(b * n <= lim * lim && b * n / d <= b * lim) by (nonlinear_arith)
                requires
                    0 <= b <= lim,
                    1 <= n <= lim,
                    1 <= d <= lim,
            ;
        }
        let wide = base as u64 * self.num / self.den;
        assert(wide == base * self.num as int / self.den as int);
        let scaled = wide as i64;
        if scaled < 1 {
            1
        } else {
            scaled
        }
    }
}

} // verus!
