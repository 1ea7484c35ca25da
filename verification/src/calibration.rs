//! Calibration of the fast source clock against the reference clock.
//!
//! Calibration picks two epochs and a multiply-and-shift pair so that a
//! source-clock duration `d` maps to reference nanoseconds as
//! `(d * mul) >> shift`. The divisor is forced to a power of two — `shift`
//! is its bit count — so the hot conversion needs no division. The pair is
//! recomputed from the observed clock deltas until the running error
//! estimate converges or a deadline passes.
//!
//! The clocks are handed in as closures, so everything here is ordinary
//! arithmetic on the values they return; nothing is assumed about them.
//! Each loop also carries a hard iteration cap so it provably terminates
//! even against a stalled clock; in practice the 200 ms deadline is reached
//! long before any cap.

use crate::pr_parser::{mul_div_po2_u64, spec_mul_shr};
use crate::stats::{Variance, ERR_CLAMP};
use vstd::arithmetic::power2::pow2;
use vstd::prelude::*;

verus! {

/// Calibration runs at most this long (reference-clock nanoseconds).
pub const MAXIMUM_CAL_TIME_NS: u64 = 200 * 1000 * 1000;

/// Each calibration round busy-waits until the reference clock has advanced
/// this far.
pub const CAL_LOOP_DELTA_NS: u64 = 1000;

/// Hard cap on calibration rounds; each round spans at least
/// `CAL_LOOP_DELTA_NS`, so the deadline is reached first on a live clock.
pub const MAX_CAL_ROUNDS: u64 = 1_000_000;

/// Hard cap on the reads of one busy-wait.
pub const MAX_SPIN_ROUNDS: u64 = 10_000_000;

/// `a - b` on the wrapping 64-bit number circle.
pub open spec fn spec_wrapping_sub_u64(a: u64, b: u64) -> u64 {
    if a >= b {
        (a - b) as u64
    } else {
        (a + 0x1_0000_0000_0000_0000 - b) as u64
    }
}

fn wrapping_sub_u64(a: u64, b: u64) -> (r: u64)
    ensures
        r == spec_wrapping_sub_u64(a, b),
{
    if a >= b {
        a - b
    } else {
        (u64::MAX - b) + a + 1
    }
}

/// `(mul, shift)` describe the ratio `ref_d / src_d`: `shift` counts the
/// bits of the smallest power of two at or above `src_d` (capped at 63),
/// and `mul` is `ref_d` scaled by that power over `src_d`, rounded half up
/// and saturated to 64 bits.
pub open spec fn spec_ratio_ok(ref_d: u64, src_d: u64, mul: u64, shift: u32) -> bool {
    &&& shift <= 63
    &&& (src_d <= 0x8000_0000_0000_0000 ==> pow2(shift as nat) >= src_d && (shift > 0 ==> pow2(
        (shift - 1) as nat,
    ) < src_d))
    &&& (src_d > 0x8000_0000_0000_0000 ==> shift == 63)
    &&& ({
        let q = (ref_d * pow2(shift as nat) + src_d / 2) / (src_d as int);
        mul == if q > u64::MAX {
            u64::MAX as int
        } else {
            q
        }
    })
}

/// Compute the multiply-and-shift pair for the deltas `ref_d`, `src_d`.
pub fn compute_cal_ratio(ref_d: u64, src_d: u64) -> (r: (u64, u32))
    requires
        src_d > 0,
    ensures
        spec_ratio_ok(ref_d, src_d, r.0, r.1),
{
    proof {
        vstd::arithmetic::power2::lemma2_to64();
        vstd::arithmetic::power2::lemma2_to64_rest();
    }
    let mut p: u64 = 1;
    let mut s: u32 = 0;
    while p < src_d && s < 63
        invariant
            1 <= p,
            p == pow2(s as nat),
            s <= 63,
            s > 0 ==> pow2((s - 1) as nat) < src_d,
        decreases 63 - s,
    {
        proof {
            vstd::arithmetic::power2::lemma2_to64();
            vstd::arithmetic::power2::lemma2_to64_rest();
            vstd::arithmetic::power2::lemma_pow2_unfold((s + 1) as nat);
            if s < 63 {
                vstd::arithmetic::power2::lemma_pow2_strictly_increases(s as nat, 63nat);
            }
        }
        p = p * 2;
        s = s + 1;
    }
    proof {
        vstd::arithmetic::power2::lemma2_to64();
        vstd::arithmetic::power2::lemma2_to64_rest();
        if p < src_d {
            assert(s == 63);
        }
    }
    proof {
        assert((ref_d as int) * (p as int) <= (u64::MAX as int) * 0x8000_0000_0000_0000)
            by (nonlinear_arith)
            requires
                ref_d <= u64::MAX,
                0 <= p <= 0x8000_0000_0000_0000,
        ;
    }
    let num: u128 = (ref_d as u128) * (p as u128) + ((src_d / 2) as u128);
    let q: u128 = num / (src_d as u128);
    let mul: u64 = if q > u64::MAX as u128 {
        u64::MAX
    } else {
        q as u64
    };
    (mul, s)
}

/// The calibration's ratio was computed from one pair of clock readings:
/// values the two clocks can return, whose wrapping deltas from the
/// calibration's own epochs describe the multiply-and-shift pair.
pub open spec fn spec_ratio_observed<R: Fn() -> u64, S: Fn() -> u64>(
    reference: R,
    source: S,
    c: Calibration,
) -> bool {
    exists|re: u64, se: u64|
        #[trigger] call_ensures(reference, (), re) && #[trigger] call_ensures(source, (), se)
            && spec_wrapping_sub_u64(se, c.src_time) != 0 && spec_ratio_ok(
            spec_wrapping_sub_u64(re, c.ref_time),
            spec_wrapping_sub_u64(se, c.src_time),
            c.scale_factor,
            c.scale_shift,
        )
}

/// What calibration promises whatever the clocks returned: either the
/// identity fallback (the reference clock would not advance), or epochs
/// that are readings of the two clocks together with a ratio that is
/// either the one calibration started with (no usable delta was ever
/// observed) or one computed from later readings of both clocks.
pub open spec fn spec_calibrated<R: Fn() -> u64, S: Fn() -> u64>(
    reference: R,
    source: S,
    entry: Calibration,
    result: Calibration,
) -> bool {
    ||| result == Calibration::spec_identity()
    ||| (call_ensures(reference, (), result.ref_time) && call_ensures(source, (), result.src_time)
        && ((result.scale_factor == entry.scale_factor && result.scale_shift == entry.scale_shift)
        || spec_ratio_observed(reference, source, result)))
}

/// The mapping from the source clock to the reference clock: the two
/// epochs and the multiply-and-shift pair relating durations.
#[derive(Copy, Clone, Debug, PartialEq, Eq, Structural)]
pub struct Calibration {
    /// Reference-clock value at calibration, nanoseconds.
    pub ref_time: u64,
    /// Source-clock value at calibration.
    pub src_time: u64,
    /// The duration multiplier.
    pub scale_factor: u64,
    /// The duration shift: the power of two divided by.
    pub scale_shift: u32,
}

impl Calibration {
    /// The calibration is usable: the shift names a bit count below 64.
    pub open spec fn wf(self) -> bool {
        self.scale_shift <= 63
    }

    /// The identity mapping: epochs zero, factor one, no shift.
    pub open spec fn spec_identity() -> Calibration {
        (Calibration { ref_time: 0, src_time: 0, scale_factor: 1, scale_shift: 0 })
    }

    /// The identity mapping: epochs zero, factor one, no shift.
    pub fn new() -> (r: Calibration)
        ensures
            r == Calibration::spec_identity(),
            r.wf(),
    {
        Calibration { ref_time: 0, src_time: 0, scale_factor: 1, scale_shift: 0 }
    }

    /// Re-read both epochs from the clocks; the ratio is untouched.
    pub fn reset_timebases<R: Fn() -> u64, S: Fn() -> u64>(&mut self, reference: &R, source: &S)
        requires
            call_requires(*reference, ()),
            call_requires(*source, ()),
        ensures
            final(self).scale_factor == old(self).scale_factor,
            final(self).scale_shift == old(self).scale_shift,
            call_ensures(*reference, (), final(self).ref_time),
            call_ensures(*source, (), final(self).src_time),
    {
        self.ref_time = reference();
        self.src_time = source();
    }

    /// The source-clock distance from the source epoch that scaling starts
    /// from.
    pub open spec fn spec_src_delta(self, src_raw: u64) -> u64 {
        if src_raw >= self.src_time {
            (src_raw - self.src_time) as u64
        } else {
            0u64
        }
    }

    /// A source-clock duration scaled to reference nanoseconds, truncated
    /// to 64 bits.
    pub open spec fn spec_scale_duration(self, delta: u64) -> u64 {
        spec_mul_shr(delta, self.scale_factor, self.scale_shift)
    }

    /// A source-clock timestamp mapped into the reference domain.
    pub open spec fn spec_scale_src_to_ref(self, src_raw: u64) -> int {
        self.spec_scale_duration(self.spec_src_delta(src_raw)) + self.ref_time
    }

    /// Map a source-clock timestamp to the reference domain.
    pub fn scale_src_to_ref(&self, src_raw: u64) -> (r: u64)
        requires
            self.wf(),
            self.spec_scale_src_to_ref(src_raw) <= u64::MAX,
        ensures
            r == self.spec_scale_src_to_ref(src_raw),
    {
        let delta = if src_raw >= self.src_time {
            src_raw - self.src_time
        } else {
            0
        };
        let scaled = mul_div_po2_u64(delta, self.scale_factor, self.scale_shift);
        scaled + self.ref_time
    }

    /// Recompute the ratio from the clock readings `ref_end`, `src_end`:
    /// the deltas from the epochs (wrapping) feed `compute_cal_ratio`. A
    /// zero source delta describes no ratio and leaves the pair untouched.
    pub fn adjust_cal_ratio(&mut self, ref_end: u64, src_end: u64)
        requires
            old(self).wf(),
        ensures
            final(self).wf(),
            final(self).ref_time == old(self).ref_time,
            final(self).src_time == old(self).src_time,
            ({
                let ref_d = spec_wrapping_sub_u64(ref_end, old(self).ref_time);
                let src_d = spec_wrapping_sub_u64(src_end, old(self).src_time);
                if src_d == 0 {
                    final(self).scale_factor == old(self).scale_factor && final(self).scale_shift
                        == old(self).scale_shift
                } else {
                    spec_ratio_ok(ref_d, src_d, final(self).scale_factor, final(self).scale_shift)
                }
            }),
    {
        let ref_d = wrapping_sub_u64(ref_end, self.ref_time);
        let src_d = wrapping_sub_u64(src_end, self.src_time);
        if src_d > 0 {
            let (mul, shift) = compute_cal_ratio(ref_d, src_d);
            self.scale_factor = mul;
            self.scale_shift = shift;
        }
    }

    /// Calibrate against the two clocks: reset the epochs, then repeatedly
    /// wait for the reference clock to advance, recompute the ratio from
    /// the accumulated deltas, and sample the remaining error, until the
    /// error estimate converges, the deadline passes, or a loop cap is hit.
    /// A reference clock that does not advance across a whole spin is
    /// unavailable, and calibration degrades to the identity mapping.
    ///
    /// The clocks decide the outcome, so what is promised is
    /// [`spec_calibrated`]: the identity fallback, or epochs that are clock
    /// readings and a ratio computed from later readings of both clocks.
    pub fn calibrate<R: Fn() -> u64, S: Fn() -> u64>(&mut self, reference: &R, source: &S)
        requires
            old(self).wf(),
            call_requires(*reference, ()),
            call_requires(*source, ()),
        ensures
            final(self).wf(),
            spec_calibrated(*reference, *source, *old(self), *final(self)),
    {
        let ghost entry_factor = self.scale_factor;
        let ghost entry_shift = self.scale_shift;
        let mut variance = Variance::new();
        let r0 = reference();
        let deadline = r0.saturating_add(MAXIMUM_CAL_TIME_NS);
        self.reset_timebases(reference, source);
        let mut rounds: u64 = 0;
        while rounds < MAX_CAL_ROUNDS
            invariant
                self.wf(),
                variance.wf(),
                call_requires(*reference, ()),
                call_requires(*source, ()),
                call_ensures(*reference, (), self.ref_time),
                call_ensures(*source, (), self.src_time),
                (self.scale_factor == entry_factor && self.scale_shift == entry_shift)
                    || spec_ratio_observed(*reference, *source, *self),
            ensures
                self.wf(),
                call_ensures(*reference, (), self.ref_time),
                call_ensures(*source, (), self.src_time),
                (self.scale_factor == entry_factor && self.scale_shift == entry_shift)
                    || spec_ratio_observed(*reference, *source, *self),
            decreases MAX_CAL_ROUNDS - rounds,
        {
            rounds = rounds + 1;
            // Busy-wait until the reference clock has advanced by
            // CAL_LOOP_DELTA_NS.
            let mut last = reference();
            let target = last.saturating_add(CAL_LOOP_DELTA_NS);
            let mut spins: u64 = 0;
            while last < target && spins < MAX_SPIN_ROUNDS
                invariant
                    call_requires(*reference, ()),
                decreases MAX_SPIN_ROUNDS - spins,
            {
                last = reference();
                spins = spins + 1;
            }
            if last < target {
                // The reference clock did not advance across a whole spin:
                // it is unavailable. Degrade to the identity mapping.
                *self = Calibration::new();
                return ;
            }
            if last >= deadline {
                break ;
            }
            let ref_end = reference();
            let src_end = source();
            self.adjust_cal_ratio(ref_end, src_end);
            proof {
                if spec_wrapping_sub_u64(src_end, self.src_time) != 0 {
                    assert(call_ensures(*reference, (), ref_end));
                    assert(call_ensures(*source, (), src_end));
                    assert(spec_ratio_ok(
                        spec_wrapping_sub_u64(ref_end, self.ref_time),
                        spec_wrapping_sub_u64(src_end, self.src_time),
                        self.scale_factor,
                        self.scale_shift,
                    ));
                    assert(spec_ratio_observed(*reference, *source, *self));
                }
            }
            let r_time = reference();
            let s_raw = source();
            let delta = if s_raw >= self.src_time {
                s_raw - self.src_time
            } else {
                0
            };
            let scaled = mul_div_po2_u64(delta, self.scale_factor, self.scale_shift);
            match scaled.checked_add(self.ref_time) {
                Some(s_time) => {
                    let err: i128 = (s_time as i128) - (r_time as i128);
                    let e: i64 = if err > ERR_CLAMP as i128 {
                        ERR_CLAMP
                    } else if err < -(ERR_CLAMP as i128) {
                        -ERR_CLAMP
                    } else {
                        err as i64
                    };
                    variance.add(e);
                },
                None => {},
            }
            if variance.should_stop() {
                break ;
            }
        }
    }
}

impl Default for Calibration {
    /// The identity mapping, as `new` builds it.
    fn default() -> (r: Calibration)
        ensures
            r.ref_time == 0,
            r.src_time == 0,
            r.scale_factor == 1,
            r.scale_shift == 0,
            r.wf(),
    {
        Calibration::new()
    }
}

} // verus!
