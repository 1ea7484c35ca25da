//! Long-poll detection for cooperative async runtimes.
//!
//! The library has two halves. The runtime half times each invocation of a
//! wrapped task body against a fast source clock, calibrates that clock
//! against the reference clock ([`calibration`]), and frames the resulting
//! events into a binary log ([`writer`]). The offline half reads the log
//! back ([`pr_parser`]), builds a sorted per-thread index of poll intervals,
//! and joins profiler stack samples to the intervals they fell in
//! ([`decoder`]).
//!
//! This root module holds the probe-side types around the task wrapper: the
//! wrapper itself and the values derived from the per-thread timestamp
//! slot. The platform glue that the wrapper lives in — thread-local slots,
//! signal handling, the writer thread — stands outside the library and
//! feeds it plain values.

pub mod calibration;
pub mod decoder;
pub mod pr_parser;
pub mod stats;
pub mod writer;

use vstd::prelude::*;

verus! {

/// Wraps a task body so that each invocation of the body can be timed.
///
/// The surrounding runtime integration drives the wrapped body; this type
/// only carries it.
pub struct PollTimingFuture<F> {
    inner: F,
}

impl<F> PollTimingFuture<F> {
    /// The wrapped body.
    pub closed spec fn spec_inner(self) -> F {
        self.inner
    }

    /// Wrap a task body into a PollTimingFuture.
    pub fn new(inner: F) -> (r: Self)
        ensures
            r.spec_inner() == inner,
    {
        PollTimingFuture { inner }
    }
}

/// A middleware layer that adds long-poll detection: it wraps each service
/// it is applied to in a [`PollTimingService`].
pub struct PollTimingLayer;

impl PollTimingLayer {
    /// Wrap a service.
    pub fn layer<S>(&self, inner: S) -> (r: PollTimingService<S>)
        ensures
            r.spec_inner() == inner,
    {
        PollTimingService { inner }
    }
}

/// A middleware service that wraps the futures of its inner service in
/// [`PollTimingFuture`].
pub struct PollTimingService<S> {
    inner: S,
}

impl<S> PollTimingService<S> {
    /// The wrapped service.
    pub closed spec fn spec_inner(self) -> S {
        self.inner
    }

    /// Wrap a service directly.
    pub fn new(inner: S) -> (r: Self)
        ensures
            r.spec_inner() == inner,
    {
        PollTimingService { inner }
    }
}

/// Whether a finished poll was observed by the sampler: the signal handler
/// writes one into the per-thread slot, so a slot holding exactly one means
/// the signal fired during this invocation and the poll is worth logging.
pub fn poll_was_sampled(slot: usize) -> (r: bool)
    ensures
        r == (slot == 1),
{
    slot == 1
}

/// The value the sampler embeds in a sample: zero when the slot is empty
/// (no poll is active), else the source-clock distance from the slot's
/// stamp to `source_now`, on the wrapping 64-bit number circle.
pub fn sampler_value(slot: usize, source_now: u64) -> (r: u64)
    ensures
        slot == 0 ==> r == 0,
        slot != 0 ==> r == calibration::spec_wrapping_sub_u64(source_now, slot as u64),
{
    if slot == 0 {
        0
    } else {
        let stamp = slot as u64;
        if source_now >= stamp {
            source_now - stamp
        } else {
            (u64::MAX - stamp) + source_now + 1
        }
    }
}

} // verus!
