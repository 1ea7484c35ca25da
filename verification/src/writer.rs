//! Runtime-side event stream: the typed events that the instrumentation
//! emits, and their binary, length-prefixed, little-endian framing.
//!
//! A frame is `u32 total_size ; u32 kind ; payload`, with `total_size`
//! counting the two header fields. Kind 0 is a Poll event, kind 1 a
//! calibration event; both carry a 28-byte payload, so every frame written
//! here is 36 bytes long.

use vstd::prelude::*;
use vstd::bytes::{spec_u32_to_le_bytes, spec_u64_to_le_bytes, u32_to_le_bytes, u64_to_le_bytes};

verus! {

/// Total size in bytes of each frame this module writes: two `u32` header
/// fields plus a 28-byte payload.
pub const FRAME_SIZE: u32 = 36;

/// The calibration parameters, as carried in a calibration event.
///
/// A source-clock duration `d` maps to reference nanoseconds as
/// `(d * mul) >> shift`; a source timestamp `t` maps to
/// `((t - src_epoch) * mul >> shift) + ref_epoch`.
#[derive(Copy, Clone, Debug, PartialEq, Eq, Structural)]
pub struct CalibrationData {
    pub src_epoch: u64,
    pub ref_epoch: u64,
    pub mul: u64,
    pub shift: u32,
}

/// An event of the log: one completed worker invocation, or a calibration.
#[derive(Copy, Clone, Debug, PartialEq, Eq, Structural)]
pub enum Event {
    /// One invocation of a task body. `start` and `end` are source-clock
    /// values bracketing the invocation, `clock_end` is the reference-clock
    /// value sampled immediately after `end`, and `tid` the operating-system
    /// thread that executed it.
    Poll { start: u64, end: u64, clock_end: u64, tid: u32 },
    /// The calibration mapping source-clock values to reference nanoseconds.
    CalibrateTscToMonotonic { data: CalibrationData },
}

/// The exact bytes of the frame that `encode_event` appends for `e`.
pub open spec fn spec_encode_event(e: Event) -> Seq<u8> {
    match e {
        Event::Poll { start, end, clock_end, tid } => spec_u32_to_le_bytes(FRAME_SIZE)
            + spec_u32_to_le_bytes(0u32) + spec_u64_to_le_bytes(start) + spec_u64_to_le_bytes(end)
            + spec_u64_to_le_bytes(clock_end) + spec_u32_to_le_bytes(tid),
        Event::CalibrateTscToMonotonic { data } => spec_u32_to_le_bytes(FRAME_SIZE)
            + spec_u32_to_le_bytes(1u32) + spec_u64_to_le_bytes(data.src_epoch)
            + spec_u64_to_le_bytes(data.ref_epoch) + spec_u64_to_le_bytes(data.mul)
            + spec_u32_to_le_bytes(data.shift),
    }
}

/// Append the frame for `e` to `out`.
pub fn encode_event(e: &Event, out: &mut Vec<u8>)
    ensures
        final(out)@ == old(out)@ + spec_encode_event(*e),
        final(out)@.len() == old(out)@.len() + FRAME_SIZE,
{
    match e {
        Event::Poll { start, end, clock_end, tid } => {
            let mut b = u32_to_le_bytes(FRAME_SIZE);
            out.append(&mut b);
            let mut b = u32_to_le_bytes(0);
            out.append(&mut b);
            let mut b = u64_to_le_bytes(*start);
            out.append(&mut b);
            let mut b = u64_to_le_bytes(*end);
            out.append(&mut b);
            let mut b = u64_to_le_bytes(*clock_end);
            out.append(&mut b);
            let mut b = u32_to_le_bytes(*tid);
            out.append(&mut b);
            proof {
                vstd::bytes::lemma_auto_spec_u32_to_from_le_bytes();
                vstd::bytes::lemma_auto_spec_u64_to_from_le_bytes();
                assert(out@ =~= old(out)@ + spec_encode_event(*e));
            }
        }
        Event::CalibrateTscToMonotonic { data } => {
            let mut b = u32_to_le_bytes(FRAME_SIZE);
            out.append(&mut b);
            let mut b = u32_to_le_bytes(1);
            out.append(&mut b);
            let mut b = u64_to_le_bytes(data.src_epoch);
            out.append(&mut b);
            let mut b = u64_to_le_bytes(data.ref_epoch);
            out.append(&mut b);
            let mut b = u64_to_le_bytes(data.mul);
            out.append(&mut b);
            let mut b = u32_to_le_bytes(data.shift);
            out.append(&mut b);
            proof {
                vstd::bytes::lemma_auto_spec_u32_to_from_le_bytes();
                vstd::bytes::lemma_auto_spec_u64_to_from_le_bytes();
                assert(out@ =~= old(out)@ + spec_encode_event(*e));
            }
        }
    }
}

/// Encode a whole sequence of events, in order.
pub open spec fn spec_encode_events(events: Seq<Event>) -> Seq<u8>
    decreases events.len(),
{
    if events.len() == 0 {
        Seq::empty()
    } else {
        spec_encode_events(events.drop_last()) + spec_encode_event(events.last())
    }
}

/// Append the frames for all of `events` to `out`, in order.
pub fn encode_events(events: &Vec<Event>, out: &mut Vec<u8>)
    ensures
        final(out)@ == old(out)@ + spec_encode_events(events@),
{
    let mut i: usize = 0;
    while i < events.len()
        invariant
            i <= events@.len(),
            out@ == old(out)@ + spec_encode_events(events@.take(i as int)),
        decreases events@.len() - i,
    {
        encode_event(&events[i], out);
        proof {
            assert(events@.take(i + 1 as int).drop_last() =~= events@.take(i as int));
            assert(events@.take(i + 1 as int).last() == events@[i as int]);
        }
        i = i + 1;
    }
    proof {
        assert(events@.take(events@.len() as int) =~= events@);
    }
}

} // verus!
