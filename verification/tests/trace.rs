use quinn_proto::send_path_trace::{
    dump, dump_image, init, no_padding, record, slot_index, trace_record, DumpStats,
    PollTransmitExitReason, SendPathEvent, TraceRecord, TraceSlot, TraceState, RECORD_SIZE,
    RING_CAPACITY,
};
use quinn_proto::time::{Duration, Instant};
use quinn_proto::trace_decode::{
    event_name, parse_header, parse_records, reason_name, summarize, DecodeError, TraceHeader,
    HEADER_SIZE,
};
use quinn_proto::wire::{get, put};

const START: Instant = Instant { nanos: 77_000 };

const EVENTS: [(SendPathEvent, u8, &str); 9] = [
    (SendPathEvent::PollTransmitExit, 1, "PollTransmitExit"),
    (SendPathEvent::PacingBlocked, 2, "PacingBlocked"),
    (SendPathEvent::CongestionBlocked, 3, "CongestionBlocked"),
    (SendPathEvent::DatagramCapReached, 4, "DatagramCapReached"),
    (SendPathEvent::NoData, 5, "NoData"),
    (SendPathEvent::WriteBlocked, 6, "WriteBlocked"),
    (SendPathEvent::MaxDataReceived, 7, "MaxDataReceived"),
    (SendPathEvent::MaxStreamDataReceived, 8, "MaxStreamDataReceived"),
    (SendPathEvent::StreamDataQueued, 9, "StreamDataQueued"),
];

const REASONS: [(PollTransmitExitReason, u8, &str); 5] = [
    (PollTransmitExitReason::Complete, 0, "Complete"),
    (PollTransmitExitReason::PacingBlocked, 1, "PacingBlocked"),
    (PollTransmitExitReason::CongestionBlocked, 2, "CongestionBlocked"),
    (PollTransmitExitReason::DatagramCap, 3, "DatagramCap"),
    (PollTransmitExitReason::AntiAmplification, 4, "AntiAmplification"),
];

fn entry(event: u8, val0: u64) -> TraceRecord {
    TraceRecord {
        ts_ns: 0x0102_0304_0506_0708,
        event,
        reason: 4,
        _pad: [9, 8, 7, 6, 5, 4],
        val0,
        val1: 2,
        val2: 3,
        val3: u64::MAX,
    }
}

#[test]
fn events_and_reasons_have_their_codes_and_names() {
    for (event, code, name) in EVENTS {
        assert_eq!(event.code(), code);
        assert_eq!(event_name(code), name);
    }
    for (reason, code, name) in REASONS {
        assert_eq!(reason.code(), code);
        for event in 1..=4 {
            assert_eq!(reason_name(event, code), name);
        }
        for event in [0, 5, 6, 7, 8, 9, 10, 255] {
            assert_eq!(reason_name(event, code), "-");
        }
    }
    for code in [0, 10, 16, 255] {
        assert_eq!(event_name(code), "Unknown");
    }
    assert_eq!(reason_name(1, 5), "Unknown");
}

#[test]
fn numbers_are_little_endian() {
    let mut out = vec![0xaa];
    put(&mut out, 0x0102_0304_0506_0708, 8);
    put(&mut out, 0x0102_0304_0506_0708, 4);
    assert_eq!(out, vec![0xaa, 8, 7, 6, 5, 4, 3, 2, 1, 8, 7, 6, 5]);
    assert_eq!(get(&out, 1, 8), 0x0102_0304_0506_0708);
    assert_eq!(get(&out, 9, 4), 0x0506_0708);
    assert_eq!(get(&out, 3, 0), 0);
}

#[test]
fn slot_gives_back_its_record_under_its_generation_only() {
    let mut slot = TraceSlot::default();
    assert_eq!(slot.load(1), None);
    slot.store(6, entry(5, 42));
    assert_eq!(slot.metadata, 5 + 256 * 4);
    assert_eq!(slot.load(6), Some(TraceRecord { _pad: no_padding(), ..entry(5, 42) }));
    assert_eq!(slot.load(5), None);
    assert_eq!(slot.load(0), None);
}

#[test]
fn slot_that_changes_while_it_is_read_gives_nothing() {
    let mut slot = TraceSlot::default();
    slot.store(6, entry(5, 42));
    assert!(slot.settled(6).load(6).is_some());
    assert_eq!(slot.settled(7).load(6), None);
    assert_eq!(slot.settled(7).load(7), None);
    assert_eq!(slot.settled(0).load(6), None);
}

#[test]
fn tickets_go_round_the_ring() {
    assert_eq!(slot_index(0), 0);
    assert_eq!(slot_index(RING_CAPACITY as u64 - 1), RING_CAPACITY - 1);
    assert_eq!(slot_index(RING_CAPACITY as u64), 0);
    assert_eq!(slot_index(u64::MAX), RING_CAPACITY - 1);
}

#[test]
fn record_time_counts_from_the_start() {
    let later = START.plus(Duration::from_micros(3));
    let made = trace_record(START, later, SendPathEvent::NoData, 1, 10, 20, 30, 40);
    assert_eq!(
        made,
        TraceRecord {
            ts_ns: 3_000,
            event: 5,
            reason: 1,
            _pad: [0; 6],
            val0: 10,
            val1: 20,
            val2: 30,
            val3: 40,
        }
    );
    let earlier = Instant { nanos: 0 };
    let made = trace_record(START, earlier, SendPathEvent::NoData, 0, 0, 0, 0, 0);
    assert_eq!(made.ts_ns, 0);
    let far = START.plus(Duration { nanos: (1u128 << 64) + 5 });
    let made = trace_record(START, far, SendPathEvent::NoData, 0, 0, 0, 0, 0);
    assert_eq!(made.ts_ns, 5);
}

#[test]
fn trace_begins_once() {
    let mut trace = None;
    assert!(init(&mut trace, START));
    assert!(!init(&mut trace, START.plus(Duration::from_secs(1))));
    assert_eq!(trace.unwrap().start, START);
}

#[test]
fn without_a_trace_nothing_is_recorded_or_dumped() {
    let mut trace: Option<TraceState> = None;
    record(&mut trace, START, SendPathEvent::NoData, 0, 1, 2, 3, 4);
    assert!(trace.is_none());
    let dumped = dump(&trace);
    assert!(dumped.image.is_none());
    assert_eq!(
        dumped.stats,
        DumpStats { records_written: 0, total_events: 0, wrapped: false }
    );
}

#[test]
fn dump_of_an_empty_trace_is_a_header() {
    let mut trace = None;
    init(&mut trace, START);
    let dumped = dump(&trace);
    let mut expected = b"QSPT".to_vec();
    expected.extend([1, 0, 0, 0]);
    expected.extend([0; 24]);
    assert_eq!(dumped.image.unwrap(), expected);
    assert_eq!(
        dumped.stats,
        DumpStats { records_written: 0, total_events: 0, wrapped: false }
    );
}

#[test]
fn what_was_recorded_is_decoded() {
    let mut trace = None;
    init(&mut trace, START);
    for i in 0..100u64 {
        let now = START.plus(Duration::from_micros(i));
        let event = EVENTS[(i % 9) as usize].0;
        record(&mut trace, now, event, (i % 5) as u8, i, 2 * i, 3 * i, u64::MAX - i);
    }
    let dumped = dump(&trace);
    assert_eq!(
        dumped.stats,
        DumpStats { records_written: 100, total_events: 100, wrapped: false }
    );
    let image = dumped.image.unwrap();
    assert_eq!(image.len(), HEADER_SIZE + 100 * RECORD_SIZE);
    let header = parse_header(&image).unwrap();
    assert_eq!(header, TraceHeader { version: 1, count: 100, total: 100, start_slot: 0 });
    assert!(!header.wrapped());
    let records = parse_records(&image, header.count).unwrap();
    assert_eq!(records.len(), 100);
    for (i, r) in records.iter().enumerate() {
        let i = i as u64;
        assert_eq!(r.ts_ns, 1_000 * i);
        assert_eq!(r.event, EVENTS[(i % 9) as usize].1);
        assert_eq!(r.reason, (i % 5) as u8);
        assert_eq!((r.val0, r.val1, r.val2, r.val3), (i, 2 * i, 3 * i, u64::MAX - i));
    }
}

#[test]
fn full_ring_keeps_the_last_records() {
    let mut trace = None;
    init(&mut trace, START);
    let total = RING_CAPACITY as u64 + 3;
    for i in 0..total {
        record(&mut trace, START, SendPathEvent::StreamDataQueued, 0, i, 0, 0, 0);
    }
    let dumped = dump(&trace);
    assert_eq!(
        dumped.stats,
        DumpStats {
            records_written: RING_CAPACITY as u64,
            total_events: total,
            wrapped: true,
        }
    );
    let image = dumped.image.unwrap();
    let header = parse_header(&image).unwrap();
    assert_eq!(
        header,
        TraceHeader { version: 1, count: RING_CAPACITY as u64, total, start_slot: 3 }
    );
    assert!(header.wrapped());
    let records = parse_records(&image, header.count).unwrap();
    for (i, r) in records.iter().enumerate() {
        assert_eq!(r.val0, i as u64 + 3);
    }
}

#[test]
fn slots_taken_by_other_records_are_left_out() {
    let mut trace = None;
    init(&mut trace, START);
    for i in 0..4 {
        record(&mut trace, START, SendPathEvent::NoData, 0, i, 0, 0, 0);
    }
    let state: &mut TraceState = trace.as_mut().unwrap();
    state.ring[2].generation = 0;
    let dumped = dump(&trace);
    assert_eq!(dumped.stats.records_written, 3);
    assert_eq!(dumped.stats.total_events, 4);
    let image = dumped.image.unwrap();
    let header = parse_header(&image).unwrap();
    assert!(header.wrapped());
    let values: Vec<u64> = parse_records(&image, header.count)
        .unwrap()
        .iter()
        .map(|r| r.val0)
        .collect();
    assert_eq!(values, vec![0, 1, 3]);
}

#[test]
fn record_bytes_are_laid_out_in_order() {
    let image = dump_image(&vec![entry(7, 1)], 8, 5);
    assert_eq!(image.len(), HEADER_SIZE + RECORD_SIZE);
    assert_eq!(&image[..8], b"QSPT\x01\x00\x00\x00");
    assert_eq!(image[8], 1);
    assert_eq!(image[16], 8);
    assert_eq!(image[24], 5);
    assert_eq!(&image[32..48], &[8, 7, 6, 5, 4, 3, 2, 1, 7, 4, 9, 8, 7, 6, 5, 4]);
    assert_eq!(&image[72..80], &[0xff; 8]);
    assert_eq!(parse_records(&image, 1).unwrap(), vec![entry(7, 1)]);
}

#[test]
fn short_file_has_no_header() {
    assert_eq!(parse_header(&[]), Err(DecodeError::TooSmallForHeader));
    let image = dump_image(&vec![], 0, 0);
    assert_eq!(parse_header(&image[..31]), Err(DecodeError::TooSmallForHeader));
    assert!(parse_header(&image[..32]).is_ok());
}

#[test]
fn other_magic_is_refused() {
    let mut image = dump_image(&vec![], 0, 0);
    image[3] = b'X';
    assert_eq!(
        parse_header(&image),
        Err(DecodeError::InvalidMagic { found: [b'Q', b'S', b'P', b'X'] })
    );
}

#[test]
fn missing_records_are_refused() {
    let image = dump_image(&vec![entry(1, 1), entry(2, 2)], 2, 0);
    assert_eq!(
        parse_records(&image, 3),
        Err(DecodeError::DataTooSmall { expected: 144, got: 96 })
    );
    assert_eq!(
        parse_records(&image[..127], 2),
        Err(DecodeError::DataTooSmall { expected: 96, got: 95 })
    );
    // Records beyond the count are not read.
    assert_eq!(parse_records(&image, 1).unwrap(), vec![entry(1, 1)]);
    assert_eq!(parse_records(&image, 0).unwrap(), vec![]);
}

#[test]
fn summary_counts_events() {
    let records = vec![
        entry(6, 1),
        entry(7, 500),
        entry(2, 1_000),
        entry(7, 900),
        entry(7, 100),
        entry(2, 23),
        entry(15, 1),
        entry(16, 1),
        entry(255, 1),
    ];
    let summary = summarize(&records);
    assert_eq!(
        summary.event_counts,
        vec![0, 0, 2, 0, 0, 0, 1, 3, 0, 0, 0, 0, 0, 0, 0, 1]
    );
    assert_eq!(summary.write_blocked_count, 1);
    assert_eq!(summary.max_data_received_count, 3);
    assert_eq!(summary.pacing_blocked_total_ns, 1_023);
    assert_eq!(summary.max_peer_max_data, 900);
    let nothing = summarize(&vec![]);
    assert_eq!(nothing.event_counts, vec![0; 16]);
    assert_eq!(nothing.max_peer_max_data, 0);
}
