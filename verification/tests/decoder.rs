use pollcatch::decoder::{
    clock_source_for_setting, contains_subrange, count_dropped_polls, find_delta_t_from_clock,
    make_pr_map, resolve_sample, stack_has_park_frame, ClockSource, PollEventKey,
};
use pollcatch::writer;

fn log_bytes(events: &[writer::Event]) -> Vec<u8> {
    let mut out = Vec::new();
    for e in events {
        writer::encode_event(e, &mut out);
    }
    out
}

fn identity_calibration() -> writer::Event {
    writer::Event::CalibrateTscToMonotonic {
        data: writer::CalibrationData { src_epoch: 0, ref_epoch: 0, mul: 1, shift: 0 },
    }
}

// Index correctness on the source domain: one entry per poll, keyed by
// (tid, start), with the source duration.
#[test]
fn source_index_one_entry_per_poll() {
    let buf = log_bytes(&[
        writer::Event::Poll { start: 1000, end: 2000, clock_end: 3000, tid: 7 },
        writer::Event::Poll { start: 500, end: 600, clock_end: 700, tid: 3 },
    ]);
    let map = make_pr_map(&buf, ClockSource::Tsc).unwrap();
    assert_eq!(
        map,
        vec![
            PollEventKey { tid: 3, clock_start: 500, duration: 100 },
            PollEventKey { tid: 7, clock_start: 1000, duration: 1000 },
        ]
    );
}

// Reference-domain entries go through the calibration; polls before any
// calibration are dropped.
#[test]
fn reference_index_uses_calibration() {
    let buf = log_bytes(&[
        // this poll precedes any calibration and yields no entry
        writer::Event::Poll { start: 1, end: 2, clock_end: 3, tid: 1 },
        identity_calibration(),
        writer::Event::Poll { start: 1000, end: 2000, clock_end: 3000, tid: 7 },
    ]);
    let map = make_pr_map(&buf, ClockSource::Monotonic).unwrap();
    assert_eq!(map, vec![PollEventKey { tid: 7, clock_start: 2000, duration: 1000 }]);
}

// A calibration that halves durations (mul=1, shift=1).
#[test]
fn reference_index_scales_duration() {
    let buf = log_bytes(&[
        writer::Event::CalibrateTscToMonotonic {
            data: writer::CalibrationData { src_epoch: 0, ref_epoch: 0, mul: 1, shift: 1 },
        },
        writer::Event::Poll { start: 1000, end: 3000, clock_end: 5000, tid: 2 },
    ]);
    let map = make_pr_map(&buf, ClockSource::Monotonic).unwrap();
    // source duration 2000 halves to 1000; the interval ends at clock_end
    assert_eq!(map, vec![PollEventKey { tid: 2, clock_start: 4000, duration: 1000 }]);
}

// A malformed calibration (shift of 64 or more) places no polls.
#[test]
fn reference_index_ignores_malformed_calibration() {
    let buf = log_bytes(&[
        writer::Event::CalibrateTscToMonotonic {
            data: writer::CalibrationData { src_epoch: 0, ref_epoch: 0, mul: 1, shift: 64 },
        },
        writer::Event::Poll { start: 1000, end: 3000, clock_end: 5000, tid: 2 },
    ]);
    let map = make_pr_map(&buf, ClockSource::Monotonic).unwrap();
    assert_eq!(map, vec![]);
}

// The index is sorted by (tid, clock_start) whatever the log order.
#[test]
fn index_is_sorted() {
    let buf = log_bytes(&[
        writer::Event::Poll { start: 900, end: 950, clock_end: 0, tid: 9 },
        writer::Event::Poll { start: 100, end: 150, clock_end: 0, tid: 9 },
        writer::Event::Poll { start: 500, end: 550, clock_end: 0, tid: 1 },
    ]);
    let map = make_pr_map(&buf, ClockSource::Tsc).unwrap();
    assert_eq!(
        map,
        vec![
            PollEventKey { tid: 1, clock_start: 500, duration: 50 },
            PollEventKey { tid: 9, clock_start: 100, duration: 50 },
            PollEventKey { tid: 9, clock_start: 900, duration: 50 },
        ]
    );
}

// A parse error in the log surfaces from make_pr_map.
#[test]
fn make_pr_map_propagates_errors() {
    let buf: Vec<u8> = vec![4, 0, 0, 0, 0, 0, 0, 0];
    assert!(make_pr_map(&buf, ClockSource::Tsc).is_err());
}

// Join correctness: a sample inside an interval yields its distance into
// the interval; one outside yields nothing.
#[test]
fn join_inside_and_outside() {
    let map = vec![PollEventKey { tid: 7, clock_start: 2000, duration: 1000 }];
    assert_eq!(find_delta_t_from_clock(&map, 7, 2500), Some(500));
    // before the interval
    assert_eq!(find_delta_t_from_clock(&map, 7, 1999), None);
    // at or past the end
    assert_eq!(find_delta_t_from_clock(&map, 7, 3000), None);
    // wrong thread
    assert_eq!(find_delta_t_from_clock(&map, 8, 2500), None);
    // negative coordinates never match
    assert_eq!(find_delta_t_from_clock(&map, -1, 2500), None);
    assert_eq!(find_delta_t_from_clock(&map, 7, -1), None);
}

// Boundary: a sample exactly at an interval's start is not claimed by it.
#[test]
fn join_boundary_exact_start() {
    let map = vec![PollEventKey { tid: 7, clock_start: 2000, duration: 1000 }];
    assert_eq!(find_delta_t_from_clock(&map, 7, 2000), None);
    // two abutting intervals: the sample at the boundary belongs to the
    // later one only once it is strictly past its start
    let map = vec![
        PollEventKey { tid: 7, clock_start: 1000, duration: 1000 },
        PollEventKey { tid: 7, clock_start: 2000, duration: 1000 },
    ];
    assert_eq!(find_delta_t_from_clock(&map, 7, 2000), None);
    assert_eq!(find_delta_t_from_clock(&map, 7, 2001), Some(1));
}

// Scenario: one poll with the identity calibration; a sample 500 ns into
// the 1000 ns interval is 0 µs long and is dropped at a 1 µs threshold.
#[test]
fn attribution_drops_short_poll() {
    let buf = log_bytes(&[
        identity_calibration(),
        writer::Event::Poll { start: 1000, end: 2000, clock_end: 3000, tid: 7 },
    ]);
    let map = make_pr_map(&buf, ClockSource::Monotonic).unwrap();
    assert_eq!(map, vec![PollEventKey { tid: 7, clock_start: 2000, duration: 1000 }]);
    assert_eq!(find_delta_t_from_clock(&map, 7, 2500), Some(500));
    // 500 ns = 0 µs at 1e9 ticks per second, below the 1 µs threshold
    assert_eq!(resolve_sample(&map, 7, None, 2500, 1_000_000_000, 1), None);
}

// Scenario: a 2 µs poll with a sample 1 µs in is emitted at a 1 µs
// threshold.
#[test]
fn attribution_keeps_long_poll() {
    let buf = log_bytes(&[
        identity_calibration(),
        writer::Event::Poll { start: 1000, end: 3000, clock_end: 5000, tid: 7 },
    ]);
    let map = make_pr_map(&buf, ClockSource::Monotonic).unwrap();
    assert_eq!(map, vec![PollEventKey { tid: 7, clock_start: 3000, duration: 2000 }]);
    let st = resolve_sample(&map, 7, None, 4000, 1_000_000_000, 1).unwrap();
    assert_eq!(st.delta_t_micros, 1);
    assert_eq!(st.start_time_nanos, 4000);
}

// A nonzero appword carries the duration verbatim and bypasses the index.
#[test]
fn appword_wins_over_index() {
    let map: Vec<PollEventKey> = vec![];
    let st = resolve_sample(&map, 7, Some(5_000), 0, 1_000_000_000, 1).unwrap();
    assert_eq!(st.delta_t_micros, 5);
    // a zero appword falls through to the (empty) index
    assert_eq!(resolve_sample(&map, 7, Some(0), 0, 1_000_000_000, 1), None);
}

// Threshold gating: 999 µs is dropped at 1 ms, 1001 µs is kept.
#[test]
fn threshold_gating() {
    let map: Vec<PollEventKey> = vec![];
    assert_eq!(resolve_sample(&map, 1, Some(999_000), 0, 1_000_000_000, 1000), None);
    let st = resolve_sample(&map, 1, Some(1_001_000), 0, 1_000_000_000, 1000).unwrap();
    assert_eq!(st.delta_t_micros, 1001);
}

// Domain switch: identical sample times resolve against different
// intervals depending on the selected index.
#[test]
fn domain_switch() {
    let buf = log_bytes(&[
        identity_calibration(),
        writer::Event::Poll { start: 1000, end: 2000, clock_end: 9000, tid: 7 },
    ]);
    let tsc_map = make_pr_map(&buf, ClockSource::Tsc).unwrap();
    let mono_map = make_pr_map(&buf, ClockSource::Monotonic).unwrap();
    assert_eq!(tsc_map, vec![PollEventKey { tid: 7, clock_start: 1000, duration: 1000 }]);
    assert_eq!(mono_map, vec![PollEventKey { tid: 7, clock_start: 8000, duration: 1000 }]);

    // before any clock setting the reference index is used
    let mut source = ClockSource::Monotonic;
    assert_eq!(find_delta_t_from_clock(&mono_map, 7, 1500), None);
    assert_eq!(find_delta_t_from_clock(&mono_map, 7, 8500), Some(500));

    // the "clock" = "tsc" setting switches to the source index
    source = clock_source_for_setting(b"clock", b"tsc", source);
    assert_eq!(source, ClockSource::Tsc);
    assert_eq!(find_delta_t_from_clock(&tsc_map, 7, 1500), Some(500));
    assert_eq!(find_delta_t_from_clock(&tsc_map, 7, 8500), None);

    // any other value switches back; unrelated settings change nothing
    source = clock_source_for_setting(b"clock", b"monotonic", source);
    assert_eq!(source, ClockSource::Monotonic);
    source = clock_source_for_setting(b"period", b"tsc", source);
    assert_eq!(source, ClockSource::Monotonic);
}

// Sleep filtering: a stack with a frame name holding "park_timeout" is
// marked for omission; others are not.
#[test]
fn park_frames_filtered() {
    let worker_idle: Vec<Vec<u8>> = vec![
        b"poll".to_vec(),
        b"<tokio::runtime::scheduler::multi_thread::worker::Context>::park_timeout".to_vec(),
    ];
    assert!(stack_has_park_frame(&worker_idle));
    let plain: Vec<Vec<u8>> = vec![b"poll".to_vec(), b"handle_request".to_vec()];
    assert!(!stack_has_park_frame(&plain));
    let bare: Vec<Vec<u8>> = vec![b"park_timeout".to_vec()];
    assert!(stack_has_park_frame(&bare));
    let empty: Vec<Vec<u8>> = vec![];
    assert!(!stack_has_park_frame(&empty));
}

#[test]
fn contains_subrange_basics() {
    assert!(contains_subrange(b"abcdef", b"cde"));
    assert!(contains_subrange(b"abcdef", b""));
    assert!(contains_subrange(b"abcdef", b"abcdef"));
    assert!(!contains_subrange(b"abcdef", b"abcdefg"));
    assert!(!contains_subrange(b"abcdef", b"acd"));
    assert!(contains_subrange(b"aaab", b"aab"));
}

// Two identical polls yield two identical entries, and a sample inside
// them still resolves.
#[test]
fn duplicate_polls_keep_both_entries() {
    let buf = log_bytes(&[
        writer::Event::Poll { start: 100, end: 200, clock_end: 0, tid: 5 },
        writer::Event::Poll { start: 100, end: 200, clock_end: 0, tid: 5 },
    ]);
    let map = make_pr_map(&buf, ClockSource::Tsc).unwrap();
    assert_eq!(
        map,
        vec![
            PollEventKey { tid: 5, clock_start: 100, duration: 100 },
            PollEventKey { tid: 5, clock_start: 100, duration: 100 },
        ]
    );
    assert_eq!(find_delta_t_from_clock(&map, 5, 150), Some(50));
}

// An out-of-range (negative) sample time is skipped, whatever the sample
// carries and whatever the threshold.
#[test]
fn negative_sample_time_skipped() {
    let map = vec![PollEventKey { tid: 7, clock_start: 2000, duration: 1000 }];
    assert_eq!(resolve_sample(&map, 7, Some(1_000_000_000), -5, 1_000_000_000, 0), None);
    assert_eq!(resolve_sample(&map, 7, None, -1, 1_000_000_000, 0), None);
    assert_eq!(resolve_sample(&map, 7, None, i64::MIN, 1_000_000_000, 0), None);
}

// Polls that the reference-domain index cannot place are counted, so the
// caller can warn of them; the source domain places every poll.
#[test]
fn dropped_polls_are_counted() {
    let buf = log_bytes(&[
        writer::Event::Poll { start: 1, end: 2, clock_end: 3, tid: 1 },
        writer::Event::Poll { start: 4, end: 5, clock_end: 6, tid: 2 },
        identity_calibration(),
        writer::Event::Poll { start: 1000, end: 2000, clock_end: 3000, tid: 7 },
    ]);
    assert_eq!(count_dropped_polls(&buf, ClockSource::Monotonic), Ok(2));
    assert_eq!(count_dropped_polls(&buf, ClockSource::Tsc), Ok(0));

    // a malformed calibration leaves its polls uncounted for the index
    // and counted here
    let buf = log_bytes(&[
        writer::Event::CalibrateTscToMonotonic {
            data: writer::CalibrationData { src_epoch: 0, ref_epoch: 0, mul: 1, shift: 64 },
        },
        writer::Event::Poll { start: 1000, end: 3000, clock_end: 5000, tid: 2 },
    ]);
    assert_eq!(count_dropped_polls(&buf, ClockSource::Monotonic), Ok(1));

    // a parse error surfaces as from make_pr_map
    let bad: Vec<u8> = vec![4, 0, 0, 0, 0, 0, 0, 0];
    assert!(count_dropped_polls(&bad, ClockSource::Monotonic).is_err());
}
