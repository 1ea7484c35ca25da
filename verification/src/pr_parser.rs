//! Decoder-side reader of the binary event log.
//!
//! The log is a sequence of frames `u32 total_size ; u32 kind ; payload`
//! (little-endian, `total_size` counting the two header fields). Kinds 0
//! (Poll) and 1 (calibration) are decoded; any other kind is reported as
//! unknown and skipped by seeking `total_size` bytes past the frame start,
//! which keeps subsequent frames aligned. A `total_size` below 8, or below
//! 36 for a known kind, is a fatal parse error, as is a frame cut short by
//! the end of input. End of input at a frame boundary ends the log cleanly.

use crate::writer;
use vstd::prelude::*;
use vstd::bytes::{
    spec_u32_from_le_bytes, spec_u64_from_le_bytes, u32_from_le_bytes, u64_from_le_bytes,
    spec_u32_to_le_bytes, spec_u64_to_le_bytes,
};
use vstd::slice::slice_subrange;
use vstd::arithmetic::power2::pow2;

verus! {

/// Every frame is at least this long: the two `u32` header fields.
pub const MIN_FRAME_SIZE: u32 = 8;

/// Frames of the two known kinds carry a 28-byte payload, so their
/// `total_size` is at least this.
pub const KNOWN_FRAME_SIZE: u32 = 36;

/// Why reading the log failed.
#[derive(Copy, Clone, Debug, PartialEq, Eq, Structural)]
pub enum ReadEventError {
    /// A frame promised more bytes than the input holds.
    Truncated,
    /// A frame's `total_size` is smaller than what the frame must hold.
    SizeTooSmall,
}

/// The calibration parameters, as read back from the log.
///
/// A source-clock duration `d` maps to reference nanoseconds as
/// `(d * mul) >> shift`; a source timestamp `t` maps to
/// `((t - src_epoch) * mul >> shift) + ref_epoch`.
#[derive(Copy, Clone, Debug, PartialEq, Eq, Structural)]
pub struct CalibrationData {
    pub src_epoch: u64,
    pub ref_epoch: u64,
    pub mul: u64,
    pub shift: u32,
}

/// A decoded event of a known kind.
#[derive(Copy, Clone, Debug, PartialEq, Eq, Structural)]
pub enum Event {
    /// One invocation of a task body; see the writer for the field meanings.
    Poll { start: u64, end: u64, clock_end: u64, tid: u32 },
    /// The calibration mapping source-clock values to reference nanoseconds.
    CalibrateTscToMonotonic { data: CalibrationData },
}

/// A decoded event, or a frame of a kind this reader does not know.
#[derive(Copy, Clone, Debug, PartialEq, Eq, Structural)]
pub enum PossiblyUnknownEvent {
    Event(Event),
    UnknownEvent { kind: u32 },
}

/// Where reading continues after a frame at `pos` whose `total_size` is
/// `size`: `pos + size`, held within the range of `usize`.
pub open spec fn spec_next_pos(pos: int, size: int) -> int {
    if pos + size > usize::MAX as int {
        usize::MAX as int
    } else {
        pos + size
    }
}

/// What reading one frame of `b` at `pos` yields: clean end of input
/// (`Ok(None)`), an event together with the position of the next frame,
/// or a fatal error.
pub open spec fn spec_read_event(b: Seq<u8>, pos: int) -> Result<
    Option<(PossiblyUnknownEvent, int)>,
    ReadEventError,
> {
    if pos + 4 > b.len() {
        Ok(None)
    } else {
        let size = spec_u32_from_le_bytes(b.subrange(pos, pos + 4));
        if size < MIN_FRAME_SIZE {
            Err(ReadEventError::SizeTooSmall)
        } else if pos + 8 > b.len() {
            Err(ReadEventError::Truncated)
        } else {
            let kind = spec_u32_from_le_bytes(b.subrange(pos + 4, pos + 8));
            if kind == 0 || kind == 1 {
                if size < KNOWN_FRAME_SIZE {
                    Err(ReadEventError::SizeTooSmall)
                } else if pos + 36 > b.len() {
                    Err(ReadEventError::Truncated)
                } else {
                    let f0 = spec_u64_from_le_bytes(b.subrange(pos + 8, pos + 16));
                    let f1 = spec_u64_from_le_bytes(b.subrange(pos + 16, pos + 24));
                    let f2 = spec_u64_from_le_bytes(b.subrange(pos + 24, pos + 32));
                    let f3 = spec_u32_from_le_bytes(b.subrange(pos + 32, pos + 36));
                    let ev = if kind == 0 {
                        Event::Poll { start: f0, end: f1, clock_end: f2, tid: f3 }
                    } else {
                        Event::CalibrateTscToMonotonic {
                            data: CalibrationData {
                                src_epoch: f0,
                                ref_epoch: f1,
                                mul: f2,
                                shift: f3,
                            },
                        }
                    };
                    Ok(Some((PossiblyUnknownEvent::Event(ev), spec_next_pos(pos, size as int))))
                }
            } else {
                Ok(
                    Some(
                        (
                            PossiblyUnknownEvent::UnknownEvent { kind },
                            spec_next_pos(pos, size as int),
                        ),
                    ),
                )
            }
        }
    }
}

/// Read one frame of `data` at `pos`.
///
/// Returns the event and the position of the next frame, `None` at a clean
/// end of input, or the fatal error.
pub fn read_event(data: &[u8], pos: usize) -> (r: Result<
    Option<(PossiblyUnknownEvent, usize)>,
    ReadEventError,
>)
    ensures
        spec_read_event(data@, pos as int) == match r {
            Ok(None) => Ok::<Option<(PossiblyUnknownEvent, int)>, ReadEventError>(None),
            Ok(Some((ev, next))) => Ok(Some((ev, next as int))),
            Err(e) => Err(e),
        },
        match r {
            Ok(Some((ev, next))) => pos < next && pos + 4 <= data@.len(),
            _ => true,
        },
{
    if data.len() < 4 || pos > data.len() - 4 {
        return Ok(None);
    }
    let size = u32_from_le_bytes(slice_subrange(data, pos, pos + 4));
    if size < MIN_FRAME_SIZE {
        return Err(ReadEventError::SizeTooSmall);
    }
    if data.len() - pos < 8 {
        return Err(ReadEventError::Truncated);
    }
    let kind = u32_from_le_bytes(slice_subrange(data, pos + 4, pos + 8));
    let next: usize = if size as usize > usize::MAX - pos {
        usize::MAX
    } else {
        pos + size as usize
    };
    if kind == 0 || kind == 1 {
        if size < KNOWN_FRAME_SIZE {
            return Err(ReadEventError::SizeTooSmall);
        }
        if data.len() - pos < 36 {
            return Err(ReadEventError::Truncated);
        }
        let f0 = u64_from_le_bytes(slice_subrange(data, pos + 8, pos + 16));
        let f1 = u64_from_le_bytes(slice_subrange(data, pos + 16, pos + 24));
        let f2 = u64_from_le_bytes(slice_subrange(data, pos + 24, pos + 32));
        let f3 = u32_from_le_bytes(slice_subrange(data, pos + 32, pos + 36));
        let ev = if kind == 0 {
            Event::Poll { start: f0, end: f1, clock_end: f2, tid: f3 }
        } else {
            Event::CalibrateTscToMonotonic {
                data: CalibrationData { src_epoch: f0, ref_epoch: f1, mul: f2, shift: f3 },
            }
        };
        Ok(Some((PossiblyUnknownEvent::Event(ev), next)))
    } else {
        Ok(Some((PossiblyUnknownEvent::UnknownEvent { kind }, next)))
    }
}

/// The decoded form that a written event round-trips to: the same fields,
/// carried by this module's types.
pub open spec fn spec_decoded(e: writer::Event) -> Event {
    match e {
        writer::Event::Poll { start, end, clock_end, tid } => Event::Poll {
            start,
            end,
            clock_end,
            tid,
        },
        writer::Event::CalibrateTscToMonotonic { data } => Event::CalibrateTscToMonotonic {
            data: CalibrationData {
                src_epoch: data.src_epoch,
                ref_epoch: data.ref_epoch,
                mul: data.mul,
                shift: data.shift,
            },
        },
    }
}

/// Round-trip: wherever the bytes written for an event `e` stand in a log,
/// reading there yields exactly `e`'s fields, and reading continues exactly
/// `FRAME_SIZE` bytes further, which is the frame's `total_size`.
pub proof fn lemma_encode_round_trip(e: writer::Event, prefix: Seq<u8>, suffix: Seq<u8>)
    requires
        prefix.len() + writer::FRAME_SIZE + suffix.len() <= usize::MAX,
    ensures
        ({
            let b = prefix + writer::spec_encode_event(e) + suffix;
            spec_read_event(b, prefix.len() as int) == Ok::<_, ReadEventError>(
                Some(
                    (
                        PossiblyUnknownEvent::Event(spec_decoded(e)),
                        prefix.len() + writer::FRAME_SIZE,
                    ),
                ),
            )
        }),
{
    vstd::bytes::lemma_auto_spec_u32_to_from_le_bytes();
    vstd::bytes::lemma_auto_spec_u64_to_from_le_bytes();
    let enc = writer::spec_encode_event(e);
    let b = prefix + enc + suffix;
    let pos = prefix.len() as int;
    match e {
        writer::Event::Poll { start, end, clock_end, tid } => {
            assert(enc =~= spec_u32_to_le_bytes(writer::FRAME_SIZE) + spec_u32_to_le_bytes(0u32)
                + spec_u64_to_le_bytes(start) + spec_u64_to_le_bytes(end) + spec_u64_to_le_bytes(
                clock_end,
            ) + spec_u32_to_le_bytes(tid));
            assert(b.subrange(pos, pos + 4) =~= spec_u32_to_le_bytes(writer::FRAME_SIZE));
            assert(b.subrange(pos + 4, pos + 8) =~= spec_u32_to_le_bytes(0u32));
            assert(b.subrange(pos + 8, pos + 16) =~= spec_u64_to_le_bytes(start));
            assert(b.subrange(pos + 16, pos + 24) =~= spec_u64_to_le_bytes(end));
            assert(b.subrange(pos + 24, pos + 32) =~= spec_u64_to_le_bytes(clock_end));
            assert(b.subrange(pos + 32, pos + 36) =~= spec_u32_to_le_bytes(tid));
        }
        writer::Event::CalibrateTscToMonotonic { data } => {
            assert(enc =~= spec_u32_to_le_bytes(writer::FRAME_SIZE) + spec_u32_to_le_bytes(1u32)
                + spec_u64_to_le_bytes(data.src_epoch) + spec_u64_to_le_bytes(data.ref_epoch)
                + spec_u64_to_le_bytes(data.mul) + spec_u32_to_le_bytes(data.shift));
            assert(b.subrange(pos, pos + 4) =~= spec_u32_to_le_bytes(writer::FRAME_SIZE));
            assert(b.subrange(pos + 4, pos + 8) =~= spec_u32_to_le_bytes(1u32));
            assert(b.subrange(pos + 8, pos + 16) =~= spec_u64_to_le_bytes(data.src_epoch));
            assert(b.subrange(pos + 16, pos + 24) =~= spec_u64_to_le_bytes(data.ref_epoch));
            assert(b.subrange(pos + 24, pos + 32) =~= spec_u64_to_le_bytes(data.mul));
            assert(b.subrange(pos + 32, pos + 36) =~= spec_u32_to_le_bytes(data.shift));
        }
    }
}

/// Forward compatibility: a frame of an unknown kind with a well-formed
/// `total_size` is reported as unknown, and reading continues exactly at the
/// end of its payload, so the following frames stay aligned.
pub proof fn lemma_unknown_kind_skip(kind: u32, payload: Seq<u8>, prefix: Seq<u8>, suffix: Seq<u8>)
    requires
        kind != 0,
        kind != 1,
        8 + payload.len() <= u32::MAX,
        prefix.len() + 8 + payload.len() + suffix.len() <= usize::MAX,
    ensures
        ({
            let frame = spec_u32_to_le_bytes((8 + payload.len()) as u32) + spec_u32_to_le_bytes(
                kind,
            ) + payload;
            let b = prefix + frame + suffix;
            spec_read_event(b, prefix.len() as int) == Ok::<_, ReadEventError>(
                Some(
                    (
                        PossiblyUnknownEvent::UnknownEvent { kind },
                        prefix.len() + frame.len() as int,
                    ),
                ),
            )
        }),
{
    vstd::bytes::lemma_auto_spec_u32_to_from_le_bytes();
    let size = (8 + payload.len()) as u32;
    let frame = spec_u32_to_le_bytes(size) + spec_u32_to_le_bytes(kind) + payload;
    let b = prefix + frame + suffix;
    let pos = prefix.len() as int;
    assert(b.subrange(pos, pos + 4) =~= spec_u32_to_le_bytes(size));
    assert(b.subrange(pos + 4, pos + 8) =~= spec_u32_to_le_bytes(kind));
}

/// Size floor: the `total_size` field written for any event is `FRAME_SIZE`,
/// and a reader that understands both kinds consumes exactly that many bytes.
pub proof fn lemma_frame_size_consumed(e: writer::Event, prefix: Seq<u8>, suffix: Seq<u8>)
    requires
        prefix.len() + writer::FRAME_SIZE + suffix.len() <= usize::MAX,
    ensures
        spec_u32_from_le_bytes(writer::spec_encode_event(e).subrange(0, 4)) == writer::FRAME_SIZE,
        ({
            let b = prefix + writer::spec_encode_event(e) + suffix;
            spec_read_event(b, prefix.len() as int) matches Ok(Some((_, next)))
                && next == prefix.len() + writer::FRAME_SIZE
        }),
{
    vstd::bytes::lemma_auto_spec_u32_to_from_le_bytes();
    vstd::bytes::lemma_auto_spec_u64_to_from_le_bytes();
    lemma_encode_round_trip(e, prefix, suffix);
    let enc = writer::spec_encode_event(e);
    match e {
        writer::Event::Poll { start, end, clock_end, tid } => {
            assert(enc.subrange(0, 4) =~= spec_u32_to_le_bytes(writer::FRAME_SIZE));
        }
        writer::Event::CalibrateTscToMonotonic { data } => {
            assert(enc.subrange(0, 4) =~= spec_u32_to_le_bytes(writer::FRAME_SIZE));
        }
    }
}

/// `((value * numer) >> denom)`, truncated to 64 bits: the scaling step
/// shared by the two conversion functions, with the divisor a power of two.
pub open spec fn spec_mul_shr(value: u64, numer: u64, denom: u32) -> u64 {
    ((((value * numer) / pow2(denom as nat) as int)) % 0x1_0000_0000_0000_0000) as u64
}

/// Multiply `value` by `numer` in 128 bits and shift right by `denom`,
/// truncating the result to 64 bits.
pub fn mul_div_po2_u64(value: u64, numer: u64, denom: u32) -> (r: u64)
    requires
        denom < 128,
    ensures
        r == spec_mul_shr(value, numer, denom),
{
    proof {
        assert((value as int) * (numer as int) <= (u64::MAX as int) * (u64::MAX as int))
            by (nonlinear_arith)
            requires
                value <= u64::MAX,
                numer <= u64::MAX,
        ;
    }
    let v: u128 = (value as u128) * (numer as u128);
    let s: u128 = v >> denom;
    proof {
        vstd::arithmetic::power2::lemma_pow2_pos(denom as nat);
        vstd::bits::lemma_u128_shr_is_div(v, denom as u128);
        assert(s == (value * numer) / pow2(denom as nat) as int);
    }
    let r64: u64 = #[verifier::truncate] (s as u64);
    proof {
        assert(s as u64 == s % 0x1_0000_0000_0000_0000) by (bit_vector);
    }
    r64
}

impl CalibrationData {
    /// The calibration is usable: `shift` names a bit count below 64, as
    /// the data model requires.
    pub open spec fn spec_valid(self) -> bool {
        self.shift < 64
    }

    /// A source-clock duration scaled to reference nanoseconds, truncated
    /// to 64 bits.
    pub open spec fn spec_scale_duration(self, delta: u64) -> u64 {
        spec_mul_shr(delta, self.mul, self.shift)
    }

    /// A source-clock timestamp mapped into the reference domain:
    /// the distance from `src_epoch` (zero for a timestamp before it),
    /// scaled, then offset by `ref_epoch`.
    pub open spec fn spec_scale_src_to_ref(self, src_raw: u64) -> int {
        self.spec_scale_duration(self.spec_src_delta(src_raw)) + self.ref_epoch
    }

    /// Map a source-clock timestamp to the reference domain.
    pub fn scale_src_to_ref(&self, src_raw: u64) -> (r: u64)
        requires
            self.spec_valid(),
            self.spec_scale_src_to_ref(src_raw) <= u64::MAX,
        ensures
            r == self.spec_scale_src_to_ref(src_raw),
    {
        let delta = if src_raw >= self.src_epoch {
            src_raw - self.src_epoch
        } else {
            0
        };
        let scaled = mul_div_po2_u64(delta, self.mul, self.shift);
        scaled + self.ref_epoch
    }

    /// The source-clock distance from `src_epoch` that scaling starts from.
    pub open spec fn spec_src_delta(self, src_raw: u64) -> u64 {
        if src_raw >= self.src_epoch {
            (src_raw - self.src_epoch) as u64
        } else {
            0u64
        }
    }

    /// Scale a source-clock duration to reference nanoseconds.
    pub fn scale_src_duration_to_ref(&self, delta: u64) -> (r: u64)
        requires
            self.spec_valid(),
        ensures
            r == self.spec_scale_duration(delta),
    {
        mul_div_po2_u64(delta, self.mul, self.shift)
    }
}

/// Calibration monotonicity: mapping source timestamps to the reference
/// domain preserves their order, wherever the scaled value of the later
/// timestamp still fits in 64 bits (truncation of a larger product could
/// otherwise reorder them).
pub proof fn lemma_scale_monotonic(c: CalibrationData, x: u64, y: u64)
    requires
        c.spec_valid(),
        x <= y,
        c.spec_src_delta(y) * c.mul / pow2(c.shift as nat) as int <= u64::MAX,
    ensures
        c.spec_scale_src_to_ref(x) <= c.spec_scale_src_to_ref(y),
{
    let dx = c.spec_src_delta(x);
    let dy = c.spec_src_delta(y);
    let p = pow2(c.shift as nat) as int;
    vstd::arithmetic::power2::lemma_pow2_pos(c.shift as nat);
    assert(dx <= dy);
    assert(dx * c.mul <= dy * c.mul) by (nonlinear_arith)
        requires
            dx <= dy,
            c.mul >= 0,
    ;
    vstd::arithmetic::div_mod::lemma_div_is_ordered(dx * c.mul, dy * c.mul, p);
    assert(dx * c.mul / p >= 0) by (nonlinear_arith)
        requires
            dx >= 0,
            c.mul >= 0,
            p > 0,
    ;
    vstd::arithmetic::div_mod::lemma_small_mod(
        (dx * c.mul / p) as nat,
        0x1_0000_0000_0000_0000nat,
    );
    vstd::arithmetic::div_mod::lemma_small_mod(
        (dy * c.mul / p) as nat,
        0x1_0000_0000_0000_0000nat,
    );
}

} // verus!
