//! The poll-interval index: turning the event log into a sorted,
//! per-thread table of poll intervals, in one of the two clock domains.
//!
//! For each Poll event the log yields one index entry `(tid, clock_start,
//! duration)`. In the source domain the entry is `(tid, start, end - start)`.
//! In the reference domain the duration is scaled through the most recently
//! seen calibration and the entry starts at `clock_end - duration`; a Poll
//! seen before any usable calibration cannot be placed in the reference
//! domain and yields no entry. The index is sorted lexicographically by
//! `(tid, clock_start, duration)`.

use crate::pr_parser::{
    CalibrationData, Event, PossiblyUnknownEvent, ReadEventError, read_event, spec_read_event,
};
use vstd::prelude::*;
use vstd::seq_lib::{to_multiset_build, to_multiset_insert};

verus! {

/// One poll interval of the index: the thread that ran the poll, where the
/// interval starts in the chosen clock domain, and how long it is.
#[derive(Copy, Clone, Debug, PartialEq, Eq, Structural)]
pub struct PollEventKey {
    pub tid: u32,
    pub clock_start: u64,
    pub duration: u64,
}

/// Which clock domain the index is built for.
#[derive(Copy, Clone, Debug, PartialEq, Eq, Structural)]
pub enum ClockSource {
    /// The source clock: intervals carry raw source-clock values.
    Tsc,
    /// The reference clock: intervals carry nanoseconds, via the calibration.
    Monotonic,
}

/// Lexicographic order on `(tid, clock_start, duration)`.
pub open spec fn key_le(a: PollEventKey, b: PollEventKey) -> bool {
    ||| a.tid < b.tid
    ||| (a.tid == b.tid && a.clock_start < b.clock_start)
    ||| (a.tid == b.tid && a.clock_start == b.clock_start && a.duration <= b.duration)
}

/// The sequence is sorted under `key_le`.
pub open spec fn spec_sorted(s: Seq<PollEventKey>) -> bool {
    forall|i: int, j: int| 0 <= i <= j < s.len() ==> key_le(s[i], s[j])
}

/// `a - b`, saturating at zero.
pub open spec fn spec_sat_sub_u64(a: u64, b: u64) -> u64 {
    if a >= b {
        (a - b) as u64
    } else {
        0u64
    }
}

fn sat_sub_u64(a: u64, b: u64) -> (r: u64)
    ensures
        r == spec_sat_sub_u64(a, b),
{
    if a >= b {
        a - b
    } else {
        0
    }
}

/// The index entry derived for one Poll event, or `None` where the poll
/// cannot be placed in the chosen domain: in the reference domain a poll
/// with no preceding calibration, or one whose governing calibration is
/// malformed (`shift` not below 64), yields no entry.
pub open spec fn spec_poll_key(
    cal: Option<CalibrationData>,
    source: ClockSource,
    start: u64,
    end: u64,
    clock_end: u64,
    tid: u32,
) -> Option<PollEventKey> {
    match source {
        ClockSource::Tsc => Some(
            PollEventKey { tid, clock_start: start, duration: spec_sat_sub_u64(end, start) },
        ),
        ClockSource::Monotonic => match cal {
            Option::None => None,
            Option::Some(c) => if c.spec_valid() {
                let duration = c.spec_scale_duration(spec_sat_sub_u64(end, start));
                Some(
                    PollEventKey {
                        tid,
                        clock_start: spec_sat_sub_u64(clock_end, duration),
                        duration,
                    },
                )
            } else {
                None
            },
        },
    }
}

/// One step of the decoder's pass over the log: the latest calibration and
/// the entries gathered so far, advanced by one event.
pub open spec fn spec_fold_step(
    cal: Option<CalibrationData>,
    keys: Seq<PollEventKey>,
    ev: PossiblyUnknownEvent,
    source: ClockSource,
) -> (Option<CalibrationData>, Seq<PollEventKey>) {
    match ev {
        PossiblyUnknownEvent::UnknownEvent { .. } => (cal, keys),
        PossiblyUnknownEvent::Event(Event::CalibrateTscToMonotonic { data }) => (Some(data), keys),
        PossiblyUnknownEvent::Event(Event::Poll { start, end, clock_end, tid }) => {
            match spec_poll_key(cal, source, start, end, clock_end, tid) {
                Some(k) => (cal, keys.push(k)),
                Option::None => (cal, keys),
            }
        },
    }
}

/// The decoder's pass over a whole sequence of events: the latest
/// calibration, and the index entries of all placeable polls, in log order.
pub open spec fn spec_fold_keys(events: Seq<PossiblyUnknownEvent>, source: ClockSource) -> (
    Option<CalibrationData>,
    Seq<PollEventKey>,
)
    decreases events.len(),
{
    if events.len() == 0 {
        (Option::None, Seq::empty())
    } else {
        let (cal, keys) = spec_fold_keys(events.drop_last(), source);
        spec_fold_step(cal, keys, events.last(), source)
    }
}

/// Termination measure for a pass over `b` starting at `pos`.
pub open spec fn spec_parse_measure(b: Seq<u8>, pos: int) -> nat {
    if pos > b.len() {
        0nat
    } else {
        (b.len() - pos + 1) as nat
    }
}

/// All events of the log `b` from `pos` to its clean end, or the fatal
/// error met on the way.
pub open spec fn spec_events_from(b: Seq<u8>, pos: int) -> Result<
    Seq<PossiblyUnknownEvent>,
    ReadEventError,
>
    decreases spec_parse_measure(b, pos),
{
    match spec_read_event(b, pos) {
        Ok(None) => Ok(Seq::empty()),
        Err(e) => Err(e),
        Ok(Some((ev, next))) => if pos < next {
            match spec_events_from(b, next) {
                Ok(rest) => Ok(seq![ev] + rest),
                Err(e) => Err(e),
            }
        } else {
            // spec_read_event always advances; this branch is never taken.
            Ok(Seq::empty())
        },
    }
}

/// A sample at time `t` on thread `tid` lies inside interval `i`: the
/// interval is that thread's, began strictly before `t`, and extends past
/// `t`. A sample exactly at an interval's start is not inside it.
pub open spec fn spec_inside(i: PollEventKey, tid: u32, t: u64) -> bool {
    i.tid == tid && i.clock_start < t && t - i.clock_start < i.duration
}

/// The partition-search predicate: the entry lies at or before the sample
/// position `(tid, cs)` in the index order.
pub open spec fn spec_at_or_before(x: PollEventKey, tid: u32, cs: u64) -> bool {
    x.tid < tid || (x.tid == tid && x.clock_start <= cs)
}

/// How many entries of `s` lie at or before `(tid, cs)`; in a sorted index
/// this is the partition point of the search.
pub open spec fn spec_count_at_or_before(s: Seq<PollEventKey>, tid: u32, cs: u64) -> int
    decreases s.len(),
{
    if s.len() == 0 {
        0
    } else {
        spec_count_at_or_before(s.drop_last(), tid, cs) + if spec_at_or_before(s.last(), tid, cs) {
            1int
        } else {
            0int
        }
    }
}

/// In a sorted index the entries at or before `(tid, cs)` are exactly the
/// first `spec_count_at_or_before` ones.
pub proof fn lemma_count_split(s: Seq<PollEventKey>, tid: u32, cs: u64)
    requires
        spec_sorted(s),
    ensures
        0 <= spec_count_at_or_before(s, tid, cs) <= s.len(),
        forall|i: int|
            0 <= i < s.len() ==> (spec_at_or_before(s[i], tid, cs) <==> i < spec_count_at_or_before(
                s,
                tid,
                cs,
            )),
    decreases s.len(),
{
    if s.len() > 0 {
        let d = s.drop_last();
        assert(forall|i: int| 0 <= i < d.len() ==> d[i] == s[i]);
        assert(spec_sorted(d)) by {
            assert(forall|i: int, j: int|
                0 <= i <= j < d.len() ==> key_le(#[trigger] d[i], #[trigger] d[j]));
        }
        lemma_count_split(d, tid, cs);
        let c = spec_count_at_or_before(d, tid, cs);
        if spec_at_or_before(s.last(), tid, cs) {
            assert forall|i: int| 0 <= i < s.len() - 1 implies spec_at_or_before(
                s[i],
                tid,
                cs,
            ) by {
                assert(key_le(s[i], s[s.len() - 1]));
            }
            assert(c == s.len() - 1);
            assert(spec_count_at_or_before(s, tid, cs) == s.len());
        } else {
            assert(spec_count_at_or_before(s, tid, cs) == c);
            assert(forall|i: int|
                0 <= i < s.len() - 1 ==> (spec_at_or_before(#[trigger] s[i], tid, cs) <==> i < c));
        }
    }
}

/// The exact count-and-check that the join performs: convert the sample's
/// thread and time (negative or oversized values match nothing), find the
/// last index entry at or before the sample, and hand back the distance into
/// it where the sample lies inside.
pub open spec fn spec_find_delta(s: Seq<PollEventKey>, tid: i64, clock_start: i64) -> Option<u64> {
    if tid < 0 || tid > u32::MAX || clock_start < 0 {
        None
    } else {
        let t = tid as u32;
        let c = clock_start as u64;
        let pp = spec_count_at_or_before(s, t, c);
        if pp == 0 {
            None
        } else {
            let bound = s[pp - 1];
            if t == bound.tid && bound.clock_start < c && c - bound.clock_start < bound.duration {
                Some((c - bound.clock_start) as u64)
            } else {
                None
            }
        }
    }
}

/// Find the in-poll duration of a sample on thread `tid` at `clock_start`:
/// the distance into the last interval at or before it, where the sample
/// lies inside that interval.
pub fn find_delta_t_from_clock(pr_map: &Vec<PollEventKey>, tid: i64, clock_start: i64) -> (r:
    Option<u64>)
    requires
        spec_sorted(pr_map@),
    ensures
        r == spec_find_delta(pr_map@, tid, clock_start),
{
    if tid < 0 || tid > u32::MAX as i64 || clock_start < 0 {
        return None;
    }
    let t = tid as u32;
    let c = clock_start as u64;
    let mut lo: usize = 0;
    let mut hi: usize = pr_map.len();
    while lo != hi
        invariant
            lo <= hi <= pr_map@.len(),
            spec_sorted(pr_map@),
            forall|i: int| 0 <= i < lo ==> spec_at_or_before(pr_map@[i], t, c),
            forall|i: int| hi <= i < pr_map@.len() ==> !spec_at_or_before(pr_map@[i], t, c),
        decreases hi - lo,
    {
        let mid = lo + (hi - lo) / 2;
        let x = pr_map[mid];
        if x.tid < t || (x.tid == t && x.clock_start <= c) {
            proof {
                assert forall|i: int| 0 <= i <= mid implies spec_at_or_before(
                    pr_map@[i],
                    t,
                    c,
                ) by {
                    assert(key_le(pr_map@[i], pr_map@[mid as int]));
                }
            }
            lo = mid + 1;
        } else {
            proof {
                assert forall|i: int| mid <= i < pr_map@.len() implies !spec_at_or_before(
                    pr_map@[i],
                    t,
                    c,
                ) by {
                    assert(key_le(pr_map@[mid as int], pr_map@[i]));
                }
            }
            hi = mid;
        }
    }
    proof {
        lemma_count_split(pr_map@, t, c);
        assert(spec_count_at_or_before(pr_map@, t, c) == lo as int) by {
            let pp = spec_count_at_or_before(pr_map@, t, c);
            if pp < lo {
                assert(spec_at_or_before(pr_map@[pp], t, c));
            }
            if pp > lo {
                assert(!spec_at_or_before(pr_map@[lo as int], t, c));
            }
        }
    }
    if lo == 0 {
        return None;
    }
    let bound = pr_map[lo - 1];
    if t == bound.tid && bound.clock_start < c && c - bound.clock_start < bound.duration {
        Some(c - bound.clock_start)
    } else {
        None
    }
}

/// Per-thread intervals are pairwise disjoint: of any two on one thread,
/// one ends at or before the other begins.
pub open spec fn spec_disjoint(s: Seq<PollEventKey>) -> bool {
    forall|i: int, j: int|
        0 <= i < s.len() && 0 <= j < s.len() && i != j && #[trigger] s[i].tid == #[trigger] s[j].tid
            ==> s[i].clock_start + s[i].duration <= s[j].clock_start || s[j].clock_start
            + s[j].duration <= s[i].clock_start
}

/// Join correctness: over a sorted index of per-thread disjoint intervals,
/// the join hands back the distance into the interval the sample lies
/// inside, exactly when such an interval exists.
pub proof fn lemma_join_correct(s: Seq<PollEventKey>, tid: i64, clock_start: i64)
    requires
        spec_sorted(s),
        spec_disjoint(s),
        0 <= tid <= u32::MAX,
        0 <= clock_start,
    ensures
        match spec_find_delta(s, tid, clock_start) {
            Some(d) => exists|i: int|
                0 <= i < s.len() && spec_inside(#[trigger] s[i], tid as u32, clock_start as u64)
                    && d == clock_start - s[i].clock_start,
            None => forall|i: int|
                0 <= i < s.len() ==> !spec_inside(#[trigger] s[i], tid as u32, clock_start as u64),
        },
{
    let t = tid as u32;
    let c = clock_start as u64;
    lemma_count_split(s, t, c);
    let pp = spec_count_at_or_before(s, t, c);
    match spec_find_delta(s, tid, clock_start) {
        Some(d) => {
            assert(spec_inside(s[pp - 1], t, c) && d == c - s[pp - 1].clock_start);
        },
        None => {
            assert forall|i: int| 0 <= i < s.len() implies !spec_inside(s[i], t, c) by {
                if spec_inside(s[i], t, c) {
                    assert(spec_at_or_before(s[i], t, c));
                    assert(i < pp);
                    if i < pp - 1 {
                        let bound = s[pp - 1];
                        assert(key_le(s[i], bound));
                        assert(spec_at_or_before(bound, t, c));
                        if bound.tid == t {
                            assert(s[i].tid == bound.tid);
                            if s[i].clock_start + s[i].duration <= bound.clock_start {
                                assert(false);
                            } else {
                                assert(bound.clock_start + bound.duration <= s[i].clock_start);
                                assert(s[i].clock_start <= bound.clock_start);
                                assert(bound.duration == 0 && s[i].clock_start
                                    == bound.clock_start);
                                assert(s[i].duration <= bound.duration);
                                assert(false);
                            }
                        } else {
                            assert(bound.tid < t);
                            assert(false);
                        }
                    }
                }
            }
        },
    }
}

/// Number of index entries for thread `tid` that start at `cs`.
pub open spec fn spec_count_matching(s: Seq<PollEventKey>, tid: u32, cs: u64) -> int
    decreases s.len(),
{
    if s.len() == 0 {
        0
    } else {
        spec_count_matching(s.drop_last(), tid, cs) + if s.last().tid == tid && s.last().clock_start
            == cs {
            1int
        } else {
            0int
        }
    }
}

/// Whether the event is a Poll on thread `tid` whose source clock starts at
/// `start`.
pub open spec fn spec_is_poll_at(ev: PossiblyUnknownEvent, tid: u32, start: u64) -> bool {
    ev matches PossiblyUnknownEvent::Event(Event::Poll { start: s0, end: _, clock_end: _, tid: t0 })
        && s0 == start && t0 == tid
}

/// Number of Poll events on thread `tid` whose source clock starts at
/// `start`.
pub open spec fn spec_count_polls(evs: Seq<PossiblyUnknownEvent>, tid: u32, start: u64) -> int
    decreases evs.len(),
{
    if evs.len() == 0 {
        0
    } else {
        spec_count_polls(evs.drop_last(), tid, start) + if spec_is_poll_at(evs.last(), tid, start) {
            1int
        } else {
            0int
        }
    }
}

/// The source-domain index holds one entry starting at `(tid, start)` for
/// each Poll of the log with those coordinates.
pub proof fn lemma_source_index_counts(evs: Seq<PossiblyUnknownEvent>, tid: u32, start: u64)
    ensures
        spec_count_matching(spec_fold_keys(evs, ClockSource::Tsc).1, tid, start)
            == spec_count_polls(evs, tid, start),
    decreases evs.len(),
{
    if evs.len() > 0 {
        let d = evs.drop_last();
        lemma_source_index_counts(d, tid, start);
        let (cal, keys) = spec_fold_keys(d, ClockSource::Tsc);
        match evs.last() {
            PossiblyUnknownEvent::UnknownEvent { .. } => {},
            PossiblyUnknownEvent::Event(Event::CalibrateTscToMonotonic { .. }) => {},
            PossiblyUnknownEvent::Event(Event::Poll { start: s0, end, clock_end, tid: t0 }) => {
                let k = PollEventKey {
                    tid: t0,
                    clock_start: s0,
                    duration: spec_sat_sub_u64(end, s0),
                };
                assert(spec_fold_keys(evs, ClockSource::Tsc).1 == keys.push(k));
                assert(keys.push(k).drop_last() =~= keys);
            },
        }
    }
}

/// No Poll of `evs` sits at `(tid, start)`, so none is counted.
proof fn lemma_count_polls_zero(evs: Seq<PossiblyUnknownEvent>, tid: u32, start: u64)
    requires
        forall|i: int| 0 <= i < evs.len() ==> !spec_is_poll_at(#[trigger] evs[i], tid, start),
    ensures
        spec_count_polls(evs, tid, start) == 0,
    decreases evs.len(),
{
    if evs.len() > 0 {
        let d = evs.drop_last();
        assert(forall|i: int| 0 <= i < d.len() ==> d[i] == evs[i]);
        lemma_count_polls_zero(d, tid, start);
    }
}

/// Index correctness: where no two Polls of the log share a thread and a
/// source start, the source-domain index holds exactly one entry whose
/// thread and start are those of any given Poll.
pub proof fn lemma_index_correctness(evs: Seq<PossiblyUnknownEvent>, k: int, tid: u32, start: u64)
    requires
        0 <= k < evs.len(),
        spec_is_poll_at(evs[k], tid, start),
        forall|i: int, j: int|
            0 <= i < evs.len() && 0 <= j < evs.len() && i != j ==> !(match (
                #[trigger] evs[i],
                #[trigger] evs[j],
            ) {
                (
                    PossiblyUnknownEvent::Event(
                        Event::Poll { start: s1, end: _, clock_end: _, tid: t1 },
                    ),
                    PossiblyUnknownEvent::Event(
                        Event::Poll { start: s2, end: _, clock_end: _, tid: t2 },
                    ),
                ) => t1 == t2 && s1 == s2,
                _ => false,
            }),
    ensures
        spec_count_matching(spec_fold_keys(evs, ClockSource::Tsc).1, tid, start) == 1,
{
    lemma_source_index_counts(evs, tid, start);
    lemma_count_polls_single(evs, k, tid, start);
}

/// Under the same distinctness, the Poll at index `k` is the only one
/// counted at `(tid, start)`.
proof fn lemma_count_polls_single(evs: Seq<PossiblyUnknownEvent>, k: int, tid: u32, start: u64)
    requires
        0 <= k < evs.len(),
        spec_is_poll_at(evs[k], tid, start),
        forall|i: int, j: int|
            0 <= i < evs.len() && 0 <= j < evs.len() && i != j ==> !(match (
                #[trigger] evs[i],
                #[trigger] evs[j],
            ) {
                (
                    PossiblyUnknownEvent::Event(
                        Event::Poll { start: s1, end: _, clock_end: _, tid: t1 },
                    ),
                    PossiblyUnknownEvent::Event(
                        Event::Poll { start: s2, end: _, clock_end: _, tid: t2 },
                    ),
                ) => t1 == t2 && s1 == s2,
                _ => false,
            }),
    ensures
        spec_count_polls(evs, tid, start) == 1,
    decreases evs.len(),
{
    let d = evs.drop_last();
    assert(forall|i: int| 0 <= i < d.len() ==> d[i] == evs[i]);
    if k == evs.len() - 1 {
        assert forall|i: int| 0 <= i < d.len() implies !spec_is_poll_at(
            #[trigger] d[i],
            tid,
            start,
        ) by {
            if spec_is_poll_at(d[i], tid, start) {
                assert(i != k);
            }
        }
        lemma_count_polls_zero(d, tid, start);
    } else {
        assert(!spec_is_poll_at(evs.last(), tid, start)) by {
            if spec_is_poll_at(evs.last(), tid, start) {
                assert(evs.len() - 1 != k);
            }
        }
        lemma_count_polls_single(d, k, tid, start);
    }
}

/// Boundary: a sample exactly at an interval's start lies outside it, so an
/// interval never claims the sample that marks its own beginning.
pub proof fn lemma_boundary_not_inside(i: PollEventKey, tid: u32)
    ensures
        !spec_inside(i, tid, i.clock_start),
{
}

/// Insert `k` into the sorted `v`, keeping it sorted.
fn insert_sorted(v: &mut Vec<PollEventKey>, k: PollEventKey)
    requires
        spec_sorted(old(v)@),
    ensures
        spec_sorted(final(v)@),
        final(v)@.to_multiset() == old(v)@.to_multiset().insert(k),
        final(v)@.len() == old(v)@.len() + 1,
{
    let mut lo: usize = 0;
    let mut hi: usize = v.len();
    while lo != hi
        invariant
            lo <= hi <= v@.len(),
            spec_sorted(v@),
            forall|i: int| 0 <= i < lo ==> key_le(v@[i], k),
            forall|i: int| hi <= i < v@.len() ==> !key_le(v@[i], k),
        decreases hi - lo,
    {
        let mid = lo + (hi - lo) / 2;
        let x = v[mid];
        if x.tid < k.tid || (x.tid == k.tid && (x.clock_start < k.clock_start || (x.clock_start
            == k.clock_start && x.duration <= k.duration))) {
            proof {
                assert(key_le(v@[mid as int], k));
                assert forall|i: int| 0 <= i <= mid implies key_le(v@[i], k) by {
                    assert(key_le(v@[i], v@[mid as int]));
                }
            }
            lo = mid + 1;
        } else {
            proof {
                assert(!key_le(v@[mid as int], k));
                assert forall|i: int| mid <= i < v@.len() implies !key_le(v@[i], k) by {
                    assert(key_le(v@[mid as int], v@[i]));
                }
            }
            hi = mid;
        }
    }
    proof {
        to_multiset_insert(v@, lo as int, k);
    }
    v.insert(lo, k);
    proof {
        assert forall|i: int, j: int| 0 <= i <= j < v@.len() implies key_le(v@[i], v@[j]) by {
            assert(spec_sorted(old(v)@));
        }
    }
}

/// Read the whole event log `data` and build the index for `clock_source`.
///
/// On success the result holds exactly the entries that the decoder's pass
/// over the parsed events yields — one per placeable Poll — sorted under
/// `key_le`; a parse error is returned as such.
pub fn make_pr_map(data: &[u8], clock_source: ClockSource) -> (r: Result<
    Vec<PollEventKey>,
    ReadEventError,
>)
    ensures
        match r {
            Ok(v) => spec_events_from(data@, 0) matches Ok(evs) && spec_sorted(v@)
                && v@.to_multiset() == spec_fold_keys(evs, clock_source).1.to_multiset(),
            Err(e) => spec_events_from(data@, 0) == Err::<Seq<PossiblyUnknownEvent>,
                ReadEventError,
            >(e),
        },
{
    let mut pos: usize = 0;
    let mut cal: Option<CalibrationData> = None;
    let mut keys: Vec<PollEventKey> = Vec::new();
    let ghost mut evs: Seq<PossiblyUnknownEvent> = Seq::empty();
    proof {
        match spec_events_from(data@, 0) {
            Ok(rest) => {
                assert(Seq::empty() + rest =~= rest);
            },
            Err(_) => {},
        }
    }
    loop
        invariant
            spec_sorted(keys@),
            cal == spec_fold_keys(evs, clock_source).0,
            keys@.to_multiset() == spec_fold_keys(evs, clock_source).1.to_multiset(),
            spec_events_from(data@, 0) == (match spec_events_from(data@, pos as int) {
                Ok(rest) => Ok::<Seq<PossiblyUnknownEvent>, ReadEventError>(evs + rest),
                Err(e) => Err(e),
            }),
        decreases spec_parse_measure(data@, pos as int),
    {
        match read_event(data, pos) {
            Err(e) => {
                return Err(e);
            },
            Ok(None) => {
                proof {
                    assert(evs + Seq::<PossiblyUnknownEvent>::empty() =~= evs);
                }
                return Ok(keys);
            },
            Ok(Some((ev, next))) => {
                proof {
                    assert(spec_read_event(data@, pos as int) == Ok::<_, ReadEventError>(
                        Some((ev, next as int)),
                    ));
                    assert(pos < next);
                    let rest_now = spec_events_from(data@, pos as int);
                    let rest_next = spec_events_from(data@, next as int);
                    assert(rest_now == (match rest_next {
                        Ok(rest) => Ok::<Seq<PossiblyUnknownEvent>, ReadEventError>(
                            seq![ev] + rest,
                        ),
                        Err(e) => Err(e),
                    }));
                    match rest_next {
                        Ok(rest) => {
                            assert(evs + (seq![ev] + rest) =~= (evs.push(ev) + rest));
                        },
                        Err(_) => {},
                    }
                    assert(evs.push(ev).drop_last() =~= evs);
                }
                let ghost prev_evs = evs;
                proof {
                    evs = evs.push(ev);
                }
                match ev {
                    PossiblyUnknownEvent::UnknownEvent { .. } => {},
                    PossiblyUnknownEvent::Event(Event::CalibrateTscToMonotonic { data }) => {
                        cal = Some(data);
                    },
                    PossiblyUnknownEvent::Event(Event::Poll { start, end, clock_end, tid }) => {
                        match clock_source {
                            ClockSource::Tsc => {
                                let k = PollEventKey {
                                    tid,
                                    clock_start: start,
                                    duration: sat_sub_u64(end, start),
                                };
                                proof {
                                    to_multiset_build(
                                        spec_fold_keys(prev_evs, clock_source).1,
                                        k,
                                    );
                                }
                                insert_sorted(&mut keys, k);
                            },
                            ClockSource::Monotonic => {
                                match cal {
                                    None => {},
                                    Some(c) => {
                                        if c.shift < 64 {
                                            let duration = c.scale_src_duration_to_ref(
                                                sat_sub_u64(end, start),
                                            );
                                            let k = PollEventKey {
                                                tid,
                                                clock_start: sat_sub_u64(clock_end, duration),
                                                duration,
                                            };
                                            proof {
                                                to_multiset_build(
                                                    spec_fold_keys(prev_evs, clock_source).1,
                                                    k,
                                                );
                                            }
                                            insert_sorted(&mut keys, k);
                                        }
                                    },
                                }
                            },
                        }
                    },
                }
                pos = next;
            },
        }
    }
}

/// How many Poll events of `events` yield no entry in the chosen domain:
/// the polls the decoder drops, each for want of a usable calibration.
pub open spec fn spec_fold_dropped(events: Seq<PossiblyUnknownEvent>, source: ClockSource) -> int
    decreases events.len(),
{
    if events.len() == 0 {
        0
    } else {
        spec_fold_dropped(events.drop_last(), source) + match events.last() {
            PossiblyUnknownEvent::Event(Event::Poll { start, end, clock_end, tid }) => {
                match spec_poll_key(
                    spec_fold_keys(events.drop_last(), source).0,
                    source,
                    start,
                    end,
                    clock_end,
                    tid,
                ) {
                    Some(_) => 0int,
                    Option::None => 1int,
                }
            },
            _ => 0int,
        }
    }
}

/// Count the polls of the log that the index for `clock_source` has to
/// drop, so that a caller can warn of them; a parse error is returned as
/// `make_pr_map` returns it.
pub fn count_dropped_polls(data: &[u8], clock_source: ClockSource) -> (r: Result<
    u64,
    ReadEventError,
>)
    ensures
        match r {
            Ok(n) => spec_events_from(data@, 0) matches Ok(evs) && n == spec_fold_dropped(
                evs,
                clock_source,
            ),
            Err(e) => spec_events_from(data@, 0) == Err::<Seq<PossiblyUnknownEvent>,
                ReadEventError,
            >(e),
        },
{
    let data_len = data.len();
    let mut pos: usize = 0;
    let mut cal: Option<CalibrationData> = None;
    let mut dropped: u64 = 0;
    let ghost mut evs: Seq<PossiblyUnknownEvent> = Seq::empty();
    proof {
        match spec_events_from(data@, 0) {
            Ok(rest) => {
                assert(Seq::empty() + rest =~= rest);
            },
            Err(_) => {},
        }
    }
    loop
        invariant
            data@.len() == data_len,
            cal == spec_fold_keys(evs, clock_source).0,
            dropped as int == spec_fold_dropped(evs, clock_source),
            // each dropped poll stands for a 36-byte frame already passed,
            // which bounds the count well below its type's range
            36 * (dropped as int) + spec_parse_measure(data@, pos as int) <= spec_parse_measure(
                data@,
                0,
            ),
            spec_events_from(data@, 0) == (match spec_events_from(data@, pos as int) {
                Ok(rest) => Ok::<Seq<PossiblyUnknownEvent>, ReadEventError>(evs + rest),
                Err(e) => Err(e),
            }),
        decreases spec_parse_measure(data@, pos as int),
    {
        match read_event(data, pos) {
            Err(e) => {
                return Err(e);
            },
            Ok(None) => {
                proof {
                    assert(evs + Seq::<PossiblyUnknownEvent>::empty() =~= evs);
                }
                return Ok(dropped);
            },
            Ok(Some((ev, next))) => {
                proof {
                    assert(spec_read_event(data@, pos as int) == Ok::<_, ReadEventError>(
                        Some((ev, next as int)),
                    ));
                    assert(pos < next);
                    let rest_now = spec_events_from(data@, pos as int);
                    let rest_next = spec_events_from(data@, next as int);
                    assert(rest_now == (match rest_next {
                        Ok(rest) => Ok::<Seq<PossiblyUnknownEvent>, ReadEventError>(
                            seq![ev] + rest,
                        ),
                        Err(e) => Err(e),
                    }));
                    match rest_next {
                        Ok(rest) => {
                            assert(evs + (seq![ev] + rest) =~= (evs.push(ev) + rest));
                        },
                        Err(_) => {},
                    }
                    assert(evs.push(ev).drop_last() =~= evs);
                }
                proof {
                    evs = evs.push(ev);
                }
                match ev {
                    PossiblyUnknownEvent::UnknownEvent { .. } => {},
                    PossiblyUnknownEvent::Event(Event::CalibrateTscToMonotonic { data }) => {
                        cal = Some(data);
                    },
                    PossiblyUnknownEvent::Event(Event::Poll { .. }) => {
                        proof {
                            // a Poll frame holds 36 bytes, so reading
                            // continues at least that far along
                            assert(pos + 36 <= data@.len());
                            let size = vstd::bytes::spec_u32_from_le_bytes(
                                data@.subrange(pos as int, pos + 4),
                            );
                            assert(size >= 36);
                            assert(next as int == crate::pr_parser::spec_next_pos(
                                pos as int,
                                size as int,
                            ));
                            assert(next >= pos + 36);
                        }
                        let this_dropped: bool = match clock_source {
                            ClockSource::Tsc => false,
                            ClockSource::Monotonic => match cal {
                                None => true,
                                Some(c) => c.shift >= 64,
                            },
                        };
                        if this_dropped {
                            proof {
                                assert(36 * ((dropped + 1) as int) == 36 * (dropped as int) + 36);
                            }
                            dropped = dropped + 1;
                        }
                    },
                }
                pos = next;
            },
        }
    }
}

/// The timing derived for one profiler sample: its in-poll duration in
/// microseconds and its start time in nanoseconds, both in the container's
/// reckoning.
#[derive(Copy, Clone, Debug, PartialEq, Eq, Structural)]
pub struct SampleTimes {
    pub delta_t_micros: u64,
    pub start_time_nanos: u64,
}

/// An `i64` reinterpreted as the `u64` with the same bits.
pub open spec fn spec_i64_as_u64(w: i64) -> u64 {
    if w >= 0 {
        w as u64
    } else {
        (w + 0x1_0000_0000_0000_0000) as u64
    }
}

/// A sample's in-poll duration in container ticks: the sample's own
/// `appword` where present and nonzero, else the index lookup, else zero.
pub open spec fn spec_delta_t(
    s: Seq<PollEventKey>,
    thread_id: i64,
    appword: Option<i64>,
    start_time_ticks: i64,
) -> u64 {
    let w = match appword {
        Some(a) => spec_i64_as_u64(a),
        Option::None => 0u64,
    };
    if w != 0 {
        w
    } else {
        match spec_find_delta(s, thread_id, start_time_ticks) {
            Some(d) => d,
            Option::None => 0u64,
        }
    }
}

/// A tick count scaled to microseconds at `tps` ticks per second.
pub open spec fn spec_ticks_to_micros(dt: u64, tps: u64) -> int {
    (dt * 1_000_000) / (tps as int)
}

/// A tick count scaled to nanoseconds at `tps` ticks per second.
pub open spec fn spec_ticks_to_nanos(ticks: i64, tps: u64) -> int {
    (ticks * 1_000_000_000) / (tps as int)
}

/// Resolve one profiler sample against the index: derive its in-poll
/// duration, convert it to microseconds, and keep the sample exactly when
/// it reaches the threshold. A sample whose time is out of range (negative)
/// is skipped whatever it carries.
pub fn resolve_sample(
    pr_map: &Vec<PollEventKey>,
    thread_id: i64,
    appword: Option<i64>,
    start_time_ticks: i64,
    ticks_per_second: u64,
    threshold_micros: u128,
) -> (r: Option<SampleTimes>)
    requires
        spec_sorted(pr_map@),
        ticks_per_second > 0,
    ensures
        ({
            let dt = spec_delta_t(pr_map@, thread_id, appword, start_time_ticks);
            let micros = spec_ticks_to_micros(dt, ticks_per_second);
            match r {
                Some(st) => start_time_ticks >= 0 && micros >= threshold_micros
                    && st.delta_t_micros == micros % 0x1_0000_0000_0000_0000
                    && st.start_time_nanos == spec_ticks_to_nanos(
                    start_time_ticks,
                    ticks_per_second,
                ) % 0x1_0000_0000_0000_0000,
                Option::None => start_time_ticks < 0 || micros < threshold_micros,
            }
        }),
{
    if start_time_ticks < 0 {
        return None;
    }
    let w: u64 = match appword {
        Some(a) => if a >= 0 {
            a as u64
        } else {
            let m: u64 = (-(a + 1)) as u64;
            u64::MAX - m
        },
        None => 0,
    };
    let dt: u64 = if w != 0 {
        w
    } else {
        match find_delta_t_from_clock(pr_map, thread_id, start_time_ticks) {
            Some(d) => d,
            None => 0,
        }
    };
    proof {
        assert(dt == spec_delta_t(pr_map@, thread_id, appword, start_time_ticks));
        assert((dt as int) * 1_000_000 <= (u64::MAX as int) * 1_000_000) by (nonlinear_arith)
            requires
                dt <= u64::MAX,
        ;
    }
    let micros: u128 = (dt as u128) * 1_000_000 / (ticks_per_second as u128);
    if micros < threshold_micros {
        return None;
    }
    proof {
        assert((start_time_ticks as int) * 1_000_000_000 <= (i64::MAX as int) * 1_000_000_000)
            by (nonlinear_arith)
            requires
                start_time_ticks <= i64::MAX,
        ;
    }
    let nanos: u128 = (start_time_ticks as u128) * 1_000_000_000 / (ticks_per_second as u128);
    let delta_t_micros: u64 = #[verifier::truncate] (micros as u64);
    let start_time_nanos: u64 = #[verifier::truncate] (nanos as u64);
    proof {
        assert(micros as u64 == micros % 0x1_0000_0000_0000_0000) by (bit_vector);
        assert(nanos as u64 == nanos % 0x1_0000_0000_0000_0000) by (bit_vector);
    }
    Some(SampleTimes { delta_t_micros, start_time_nanos })
}

/// The setting name that switches the index domain: "clock".
pub open spec fn spec_clock_name() -> Seq<u8> {
    // "clock" in ASCII
    seq![99u8, 108u8, 111u8, 99u8, 107u8]
}

/// The setting value that selects the source-domain index: "tsc".
pub open spec fn spec_tsc_name() -> Seq<u8> {
    // "tsc" in ASCII
    seq![116u8, 115u8, 99u8]
}

/// Which index a setting event selects: a setting named "clock" selects the
/// source domain for the value "tsc" and the reference domain for any other
/// value; any other setting leaves the choice unchanged.
pub open spec fn spec_clock_source_for_setting(
    name: Seq<u8>,
    value: Seq<u8>,
    current: ClockSource,
) -> ClockSource {
    if name == spec_clock_name() {
        if value == spec_tsc_name() {
            ClockSource::Tsc
        } else {
            ClockSource::Monotonic
        }
    } else {
        current
    }
}

/// Byte-for-byte equality of two byte strings.
fn bytes_eq(a: &[u8], b: &[u8]) -> (r: bool)
    ensures
        r == (a@ == b@),
{
    if a.len() != b.len() {
        return false;
    }
    let n = a.len();
    let mut i: usize = 0;
    while i < n
        invariant
            i <= n,
            n == a@.len() == b@.len(),
            forall|j: int| 0 <= j < i ==> a@[j] == b@[j],
        decreases n - i,
    {
        if *vstd::slice::slice_index_get(a, i) != *vstd::slice::slice_index_get(b, i) {
            return false;
        }
        i = i + 1;
    }
    proof {
        assert(a@ =~= b@);
    }
    true
}

fn clock_name() -> (r: Vec<u8>)
    ensures
        r@ == spec_clock_name(),
{
    let mut v: Vec<u8> = Vec::new();
    v.push(99);
    v.push(108);
    v.push(111);
    v.push(99);
    v.push(107);
    proof {
        assert(v@ =~= spec_clock_name());
    }
    v
}

fn tsc_name() -> (r: Vec<u8>)
    ensures
        r@ == spec_tsc_name(),
{
    let mut v: Vec<u8> = Vec::new();
    v.push(116);
    v.push(115);
    v.push(99);
    proof {
        assert(v@ =~= spec_tsc_name());
    }
    v
}

/// Apply one setting event to the current index choice.
pub fn clock_source_for_setting(name: &[u8], value: &[u8], current: ClockSource) -> (r: ClockSource)
    ensures
        r == spec_clock_source_for_setting(name@, value@, current),
{
    let cn = clock_name();
    if bytes_eq(name, cn.as_slice()) {
        let tn = tsc_name();
        if bytes_eq(value, tn.as_slice()) {
            ClockSource::Tsc
        } else {
            ClockSource::Monotonic
        }
    } else {
        current
    }
}

/// `needle` occurs as a contiguous run inside `hay`.
pub open spec fn spec_contains_subrange(hay: Seq<u8>, needle: Seq<u8>) -> bool {
    exists|i: int|
        0 <= i && i + needle.len() <= hay.len() && #[trigger] hay.subrange(
            i,
            i + needle.len() as int,
        ) == needle
}

/// Whether `needle` occurs as a contiguous run inside `hay`.
pub fn contains_subrange(hay: &[u8], needle: &[u8]) -> (r: bool)
    ensures
        r == spec_contains_subrange(hay@, needle@),
{
    let nlen = needle.len();
    let hlen = hay.len();
    if nlen > hlen {
        return false;
    }
    if nlen == 0 {
        proof {
            assert(hay@.subrange(0, 0 + needle@.len() as int) =~= needle@);
        }
        return true;
    }
    let mut i: usize = 0;
    while i <= hlen - nlen
        invariant
            0 < nlen == needle@.len() <= hlen == hay@.len(),
            i <= hlen - nlen + 1,
            forall|k: int|
                0 <= k < i ==> #[trigger] hay@.subrange(k, k + needle@.len() as int) != needle@,
        decreases hlen - nlen + 1 - i,
    {
        let mut j: usize = 0;
        let mut matches: bool = true;
        while j < nlen && matches
            invariant
                j <= nlen,
                0 < nlen == needle@.len() <= hlen == hay@.len(),
                i + nlen <= hlen,
                matches ==> forall|l: int| 0 <= l < j ==> hay@[i + l] == needle@[l],
                !matches ==> hay@.subrange(i as int, i + needle@.len() as int) != needle@,
            decreases nlen - j,
        {
            if *vstd::slice::slice_index_get(hay, i + j) != *vstd::slice::slice_index_get(
                needle,
                j,
            ) {
                proof {
                    assert(hay@.subrange(i as int, i + needle@.len() as int)[j as int] == hay@[i
                        + j]);
                    assert(hay@.subrange(i as int, i + needle@.len() as int) != needle@);
                }
                matches = false;
            }
            j = j + 1;
        }
        if matches {
            proof {
                assert(hay@.subrange(i as int, i + needle@.len() as int) =~= needle@);
            }
            return true;
        }
        i = i + 1;
    }
    proof {
        assert forall|k: int| 0 <= k && k + needle@.len() <= hay@.len() implies #[trigger] hay@.subrange(
            k,
            k + needle@.len() as int,
        ) != needle@ by {
            assert(k < i);
        }
    }
    false
}

/// "park_timeout": the worker-idle marker looked for in frame names.
pub open spec fn spec_park_marker() -> Seq<u8> {
    // "park_timeout" in ASCII
    seq![112u8, 97u8, 114u8, 107u8, 95u8, 116u8, 105u8, 109u8, 101u8, 111u8, 117u8, 116u8]
}

fn park_marker() -> (r: Vec<u8>)
    ensures
        r@ == spec_park_marker(),
{
    let mut v: Vec<u8> = Vec::new();
    v.push(112);
    v.push(97);
    v.push(114);
    v.push(107);
    v.push(95);
    v.push(116);
    v.push(105);
    v.push(109);
    v.push(101);
    v.push(111);
    v.push(117);
    v.push(116);
    proof {
        assert(v@ =~= spec_park_marker());
    }
    v
}

/// Whether any frame name of a sample's stack holds the worker-idle marker.
///
/// Samples for which this holds are sleeps, not user work, and are omitted
/// from the long-poll output.
pub fn stack_has_park_frame(names: &Vec<Vec<u8>>) -> (r: bool)
    ensures
        r == (exists|i: int|
            0 <= i < names@.len() && spec_contains_subrange(
                #[trigger] names@[i]@,
                spec_park_marker(),
            )),
{
    let marker = park_marker();
    let mut i: usize = 0;
    while i < names.len()
        invariant
            i <= names@.len(),
            marker@ == spec_park_marker(),
            forall|k: int|
                0 <= k < i ==> !spec_contains_subrange(#[trigger] names@[k]@, spec_park_marker()),
        decreases names@.len() - i,
    {
        if contains_subrange(names[i].as_slice(), marker.as_slice()) {
            return true;
        }
        i = i + 1;
    }
    false
}

} // verus!
