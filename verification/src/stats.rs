//! The running error estimator that calibration converges on.
//!
//! Calibration samples the signed error between the scaled source clock and
//! the reference clock, and stops once the mean error and its statistical
//! uncertainty are small. The estimator keeps integer sums — the count, the
//! sum of errors, and the sum of squared errors — and the stopping test is
//! phrased over those sums with every division and square root cleared by
//! cross-multiplication, so each comparison is exact. Samples are clamped to
//! `±ERR_CLAMP` and the count saturates at `MAX_SAMPLES`, which keeps every
//! sum comfortably inside 128 bits.

use vstd::prelude::*;

verus! {

/// Largest error magnitude (nanoseconds) a single sample contributes; a
/// sample this far off never satisfies the stopping test anyway.
pub const ERR_CLAMP: i64 = 0x8000_0000;

/// The sample count saturates here.
pub const MAX_SAMPLES: u64 = 0x1_0000_0000;

/// Samples required before the stopping test may pass.
pub const MIN_SAMPLES: u64 = 500;

/// Mean error (nanoseconds) below which calibration may stop.
pub const MAX_MEAN_ERROR_NS: u64 = 10;

/// Running mean/variance accumulator over clamped error samples.
pub struct Variance {
    n: u64,
    sum: i128,
    sum_sq: i128,
}

impl Variance {
    /// The accumulator's sums are within the bounds that `add` maintains.
    pub open spec fn wf(self) -> bool {
        &&& self.spec_samples() <= MAX_SAMPLES
        &&& -((self.spec_samples() as int) * (ERR_CLAMP as int)) <= self.spec_sum()
        &&& self.spec_sum() <= (self.spec_samples() as int) * (ERR_CLAMP as int)
        &&& 0 <= self.spec_sum_sq()
        &&& self.spec_sum_sq() <= (self.spec_samples() as int) * (ERR_CLAMP as int) * (
        ERR_CLAMP as int)
    }

    /// How many samples were accumulated.
    pub closed spec fn spec_samples(self) -> u64 {
        self.n
    }

    /// The sum of the accumulated errors.
    pub closed spec fn spec_sum(self) -> int {
        self.sum as int
    }

    /// The sum of the squares of the accumulated errors.
    pub closed spec fn spec_sum_sq(self) -> int {
        self.sum_sq as int
    }

    /// `|sum|`: `n` times the magnitude of the mean error.
    pub open spec fn spec_abs_sum(self) -> int {
        if self.spec_sum() >= 0 {
            self.spec_sum()
        } else {
            -self.spec_sum()
        }
    }

    /// The stopping test, with `n` the sample count, `a = |sum|` and
    /// `q = sum of squares`:
    /// more than `MIN_SAMPLES` samples; mean error magnitude `a/n` below
    /// `MAX_MEAN_ERROR_NS`; squared standard error of the mean,
    /// `(n*q - a*a) / (n*n*(n-1))`, below the square of the headroom
    /// `MAX_MEAN_ERROR_NS - a/n`; and standard error at most the mean
    /// magnitude (`q <= a*a` after clearing denominators).
    pub open spec fn spec_should_stop(self) -> bool {
        let n = self.spec_samples() as int;
        let a = self.spec_abs_sum();
        let q = self.spec_sum_sq();
        &&& n > MIN_SAMPLES
        &&& a < MAX_MEAN_ERROR_NS * n
        &&& n * q - a * a < (MAX_MEAN_ERROR_NS * n - a) * (MAX_MEAN_ERROR_NS * n - a) * (n - 1)
        &&& q <= a * a
    }

    /// An empty accumulator.
    pub fn new() -> (r: Variance)
        ensures
            r.wf(),
            r.spec_samples() == 0,
            r.spec_sum() == 0,
            r.spec_sum_sq() == 0,
    {
        Variance { n: 0, sum: 0, sum_sq: 0 }
    }

    /// Accumulate one clamped error sample; once the count saturates,
    /// further samples are ignored.
    pub fn add(&mut self, e: i64)
        requires
            old(self).wf(),
            -ERR_CLAMP <= e <= ERR_CLAMP,
        ensures
            final(self).wf(),
            old(self).spec_samples() < MAX_SAMPLES ==> {
                &&& final(self).spec_samples() == old(self).spec_samples() + 1
                &&& final(self).spec_sum() == old(self).spec_sum() + e
                &&& final(self).spec_sum_sq() == old(self).spec_sum_sq() + e * e
            },
            old(self).spec_samples() >= MAX_SAMPLES ==> *final(self) == *old(self),
    {
        if self.n < MAX_SAMPLES {
            proof {
                assert((self.n as int) * (ERR_CLAMP as int) <= (MAX_SAMPLES as int) * (
                ERR_CLAMP as int)) by (nonlinear_arith)
                    requires
                        self.n <= MAX_SAMPLES,
                        ERR_CLAMP > 0,
                ;
                assert((self.n as int) * (ERR_CLAMP as int) * (ERR_CLAMP as int) <= (
                MAX_SAMPLES as int) * (ERR_CLAMP as int) * (ERR_CLAMP as int)) by (nonlinear_arith)
                    requires
                        self.n <= MAX_SAMPLES,
                        ERR_CLAMP > 0,
                ;
                assert((e as int) * (e as int) <= (ERR_CLAMP as int) * (ERR_CLAMP as int))
                    by (nonlinear_arith)
                    requires
                        -ERR_CLAMP <= e <= ERR_CLAMP,
                ;
                assert(0 <= (e as int) * (e as int)) by (nonlinear_arith);
                assert(((self.n as int) + 1) * (ERR_CLAMP as int) == (self.n as int) * (
                ERR_CLAMP as int) + ERR_CLAMP) by (nonlinear_arith);
                assert(((self.n as int) + 1) * (ERR_CLAMP as int) * (ERR_CLAMP as int) == (
                self.n as int) * (ERR_CLAMP as int) * (ERR_CLAMP as int) + (ERR_CLAMP as int) * (
                ERR_CLAMP as int)) by (nonlinear_arith);
            }
            let e128 = e as i128;
            self.n = self.n + 1;
            self.sum = self.sum + e128;
            self.sum_sq = self.sum_sq + e128 * e128;
        }
    }

    /// How many samples were accumulated.
    pub fn samples(&self) -> (r: u64)
        ensures
            r == self.spec_samples(),
    {
        self.n
    }

    /// Evaluate the stopping test.
    pub fn should_stop(&self) -> (r: bool)
        requires
            self.wf(),
        ensures
            r == self.spec_should_stop(),
    {
        if self.n <= MIN_SAMPLES {
            return false;
        }
        let n: i128 = self.n as i128;
        let a: i128 = if self.sum >= 0 {
            self.sum
        } else {
            -self.sum
        };
        proof {
            assert((self.n as int) * (ERR_CLAMP as int) <= (MAX_SAMPLES as int) * (
            ERR_CLAMP as int)) by (nonlinear_arith)
                requires
                    self.n <= MAX_SAMPLES,
                    ERR_CLAMP > 0,
            ;
            assert((self.n as int) * (ERR_CLAMP as int) * (ERR_CLAMP as int) <= (
            MAX_SAMPLES as int) * (ERR_CLAMP as int) * (ERR_CLAMP as int)) by (nonlinear_arith)
                requires
                    self.n <= MAX_SAMPLES,
                    ERR_CLAMP > 0,
            ;
            // a <= 2^63, q <= 2^94, n <= 2^32: every product below stays
            // well under 2^127.
            assert(a * a <= 0x8000_0000_0000_0000i128 * 0x8000_0000_0000_0000i128)
                by (nonlinear_arith)
                requires
                    0 <= a <= 0x8000_0000_0000_0000i128,
            ;
            assert(n * self.sum_sq <= 0x1_0000_0000i128 * 0x4000_0000_0000_0000_0000_0000i128)
                by (nonlinear_arith)
                requires
                    0 < n <= 0x1_0000_0000i128,
                    0 <= self.sum_sq <= 0x4000_0000_0000_0000_0000_0000i128,
            ;
        }
        if !(a < 10 * n) {
            return false;
        }
        let q: i128 = self.sum_sq;
        let lhs: i128 = n * q - a * a;
        let d: i128 = 10 * n - a;
        proof {
            assert(d * d <= 0x40_0000_0000i128 * 0x40_0000_0000i128) by (nonlinear_arith)
                requires
                    0 < d <= 0x40_0000_0000i128,
            ;
            assert(d * d * (n - 1) <= 0x40_0000_0000i128 * 0x40_0000_0000i128 * 0x1_0000_0000i128)
                by (nonlinear_arith)
                requires
                    0 < d <= 0x40_0000_0000i128,
                    0 < n <= 0x1_0000_0000i128,
            ;
            assert(0 < d * d * (n - 1)) by (nonlinear_arith)
                requires
                    0 < d,
                    1 < n,
            ;
        }
        let rhs: i128 = d * d * (n - 1);
        lhs < rhs && q <= a * a
    }
}

} // verus!
