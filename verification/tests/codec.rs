use pollcatch::pr_parser::{read_event, Event, PossiblyUnknownEvent, ReadEventError};
use pollcatch::writer;

fn encode(e: &writer::Event) -> Vec<u8> {
    let mut out = Vec::new();
    writer::encode_event(e, &mut out);
    out
}

#[test]
fn test_read_event() -> Result<(), ReadEventError> {
    let buf: Vec<u8> = vec![
        // unknown event of type 0x12345678
        16, 0, 0, 0, 0x78, 0x56, 0x34, 0x12, 0, 0, 0, 0, 0, 0, 0, 0, // poll event
        36, 0, 0, 0, 0, 0, 0, 0, 1, 0, 0, 0, 0, 0, 0, 0, 2, 0, 0, 0, 0, 0, 0, 0, 3, 0, 0, 0, 0, 0,
        0, 0, 4, 0, 0, 0, // poll event with extra data
        40, 0, 0, 0, 0, 0, 0, 0, 1, 0, 0, 0, 0, 0, 0, 0, 2, 0, 0, 0, 0, 0, 0, 0, 3, 0, 0, 0, 0, 0,
        0, 0, 4, 0, 0, 0, 1, 2, 3, 4, // calibration event
        36, 0, 0, 0, 1, 0, 0, 0, 1, 0, 0, 0, 0, 0, 0, 0, 2, 0, 0, 0, 0, 0, 0, 0, 3, 0, 0, 0, 0, 0,
        0, 0, 4, 0, 0, 0, // calibration event with extra data
        40, 0, 0, 0, 1, 0, 0, 0, 1, 0, 0, 0, 0, 0, 0, 0, 2, 0, 0, 0, 0, 0, 0, 0, 3, 0, 0, 0, 0, 0,
        0, 0, 4, 0, 0, 0, 1, 2, 3, 4, // another unknown event of type 0x12345679
        16, 0, 0, 0, 0x79, 0x56, 0x34, 0x12, 0, 0, 0, 0, 0, 0, 0, 0,
    ];
    let mut pos = 0usize;
    match read_event(&buf, pos)? {
        Some((PossiblyUnknownEvent::UnknownEvent { kind: 0x12345678 }, next)) => pos = next,
        e => panic!("bad event {:?}", e),
    };
    match read_event(&buf, pos)? {
        Some((
            PossiblyUnknownEvent::Event(Event::Poll { start: 1, end: 2, clock_end: 3, tid: 4 }),
            next,
        )) => pos = next,
        e => panic!("bad event {:?}", e),
    };
    match read_event(&buf, pos)? {
        Some((
            PossiblyUnknownEvent::Event(Event::Poll { start: 1, end: 2, clock_end: 3, tid: 4 }),
            next,
        )) => pos = next,
        e => panic!("bad event {:?}", e),
    };
    match read_event(&buf, pos)? {
        Some((PossiblyUnknownEvent::Event(Event::CalibrateTscToMonotonic { data }), next)) => {
            assert_eq!(data.src_epoch, 1);
            assert_eq!(data.ref_epoch, 2);
            assert_eq!(data.mul, 3);
            assert_eq!(data.shift, 4);
            pos = next;
        }
        e => panic!("bad event {:?}", e),
    };
    match read_event(&buf, pos)? {
        Some((PossiblyUnknownEvent::Event(Event::CalibrateTscToMonotonic { data }), next)) => {
            assert_eq!(data.src_epoch, 1);
            assert_eq!(data.ref_epoch, 2);
            assert_eq!(data.mul, 3);
            assert_eq!(data.shift, 4);
            pos = next;
        }
        e => panic!("bad event {:?}", e),
    };
    match read_event(&buf, pos)? {
        Some((PossiblyUnknownEvent::UnknownEvent { kind: 0x12345679 }, next)) => pos = next,
        e => panic!("bad event {:?}", e),
    };
    match read_event(&buf, pos)? {
        None => {}
        e => panic!("bad event {:?}", e),
    };
    Ok(())
}

// Framing round-trip: a Poll then a calibration, written and read back.
// Each frame is 36 bytes, total_size first, little-endian throughout.
#[test]
fn framing_round_trip() {
    let mut out = Vec::new();
    writer::encode_event(
        &writer::Event::Poll { start: 1, end: 2, clock_end: 3, tid: 4 },
        &mut out,
    );
    writer::encode_event(
        &writer::Event::CalibrateTscToMonotonic {
            data: writer::CalibrationData { src_epoch: 1, ref_epoch: 2, mul: 3, shift: 4 },
        },
        &mut out,
    );
    let expected_poll: Vec<u8> = vec![
        36, 0, 0, 0, // total_size
        0, 0, 0, 0, // kind 0 = poll
        1, 0, 0, 0, 0, 0, 0, 0, // start
        2, 0, 0, 0, 0, 0, 0, 0, // end
        3, 0, 0, 0, 0, 0, 0, 0, // clock_end
        4, 0, 0, 0, // tid
    ];
    assert_eq!(&out[..36], &expected_poll[..]);
    assert_eq!(out.len(), 72);

    let (ev1, pos) = read_event(&out, 0).unwrap().unwrap();
    assert_eq!(
        ev1,
        PossiblyUnknownEvent::Event(Event::Poll { start: 1, end: 2, clock_end: 3, tid: 4 })
    );
    assert_eq!(pos, 36);
    let (ev2, pos) = read_event(&out, pos).unwrap().unwrap();
    match ev2 {
        PossiblyUnknownEvent::Event(Event::CalibrateTscToMonotonic { data }) => {
            assert_eq!(data.src_epoch, 1);
            assert_eq!(data.ref_epoch, 2);
            assert_eq!(data.mul, 3);
            assert_eq!(data.shift, 4);
        }
        e => panic!("bad event {:?}", e),
    }
    assert_eq!(pos, 72);
    assert!(read_event(&out, pos).unwrap().is_none());
}

// Unknown-kind skip: the frame is reported as unknown and the position
// advances by exactly its total_size.
#[test]
fn unknown_kind_skip() {
    let mut buf: Vec<u8> = vec![16, 0, 0, 0, 0x78, 0x56, 0x34, 0x12];
    buf.extend_from_slice(&[0u8; 8]);
    let (ev, pos) = read_event(&buf, 0).unwrap().unwrap();
    assert_eq!(ev, PossiblyUnknownEvent::UnknownEvent { kind: 0x12345678 });
    assert_eq!(pos, 16);
    assert!(read_event(&buf, pos).unwrap().is_none());
}

// Extra trailing bytes: a Poll frame with total_size 40 round-trips as a
// Poll and the 4 extra payload bytes are skipped.
#[test]
fn extra_trailing_bytes() {
    let buf: Vec<u8> = vec![
        40, 0, 0, 0, 0, 0, 0, 0, 1, 0, 0, 0, 0, 0, 0, 0, 2, 0, 0, 0, 0, 0, 0, 0, 3, 0, 0, 0, 0, 0,
        0, 0, 4, 0, 0, 0, 9, 9, 9, 9,
    ];
    let (ev, pos) = read_event(&buf, 0).unwrap().unwrap();
    assert_eq!(
        ev,
        PossiblyUnknownEvent::Event(Event::Poll { start: 1, end: 2, clock_end: 3, tid: 4 })
    );
    assert_eq!(pos, 40);
    assert!(read_event(&buf, pos).unwrap().is_none());
}

// A total_size below 8 is fatal.
#[test]
fn size_too_small_header() {
    let buf: Vec<u8> = vec![4, 0, 0, 0, 0, 0, 0, 0];
    assert_eq!(read_event(&buf, 0), Err(ReadEventError::SizeTooSmall));
}

// A known kind whose total_size is below 36 is fatal too.
#[test]
fn size_too_small_known_kind() {
    let buf: Vec<u8> = vec![16, 0, 0, 0, 0, 0, 0, 0, 0, 0, 0, 0, 0, 0, 0, 0];
    assert_eq!(read_event(&buf, 0), Err(ReadEventError::SizeTooSmall));
}

// A known frame cut short by end of input is fatal.
#[test]
fn truncated_payload() {
    let buf: Vec<u8> = vec![36, 0, 0, 0, 0, 0, 0, 0, 1, 2, 3, 4];
    assert_eq!(read_event(&buf, 0), Err(ReadEventError::Truncated));
}

// Fewer than four bytes at a frame boundary end the log cleanly.
#[test]
fn clean_eof_at_boundary() {
    let buf: Vec<u8> = vec![];
    assert!(read_event(&buf, 0).unwrap().is_none());
    let buf: Vec<u8> = vec![1, 2];
    assert!(read_event(&buf, 0).unwrap().is_none());
}

// encode_events writes frames back to back in order.
#[test]
fn encode_events_in_order() {
    let events = vec![
        writer::Event::Poll { start: 10, end: 20, clock_end: 30, tid: 40 },
        writer::Event::Poll { start: 11, end: 21, clock_end: 31, tid: 41 },
    ];
    let mut out = Vec::new();
    writer::encode_events(&events, &mut out);
    assert_eq!(out.len(), 72);
    let mut single = Vec::new();
    writer::encode_event(&events[0], &mut single);
    writer::encode_event(&events[1], &mut single);
    assert_eq!(out, single);
}

fn encode_all(events: &[writer::Event]) -> Vec<u8> {
    let mut out = Vec::new();
    for e in events {
        out.extend_from_slice(&encode(e));
    }
    out
}

// A log with an unknown frame between two known ones keeps alignment.
#[test]
fn unknown_frame_keeps_alignment() {
    let mut buf = encode_all(&[writer::Event::Poll { start: 1, end: 2, clock_end: 3, tid: 4 }]);
    buf.extend_from_slice(&[12, 0, 0, 0, 7, 7, 7, 7, 0xAA, 0xBB, 0xCC, 0xDD]);
    buf.extend_from_slice(&encode(&writer::Event::Poll {
        start: 5,
        end: 6,
        clock_end: 7,
        tid: 8,
    }));
    let (ev, pos) = read_event(&buf, 0).unwrap().unwrap();
    assert!(matches!(ev, PossiblyUnknownEvent::Event(Event::Poll { start: 1, .. })));
    let (ev, pos) = read_event(&buf, pos).unwrap().unwrap();
    assert_eq!(ev, PossiblyUnknownEvent::UnknownEvent { kind: 0x07070707 });
    let (ev, pos) = read_event(&buf, pos).unwrap().unwrap();
    assert!(matches!(ev, PossiblyUnknownEvent::Event(Event::Poll { start: 5, .. })));
    assert!(read_event(&buf, pos).unwrap().is_none());
}
