//! Decoding of send-path trace files (QSPT format).

use vstd::prelude::*;

use crate::arith::larger;
use crate::send_path_trace::{
    dump_bytes, header_bytes, law_collecting_misses_nothing, magic, records_bytes, slot_of,
    PollTransmitExitReason, SendPathEvent, TraceRecord, TraceState, RECORD_SIZE,
};
use crate::wire::{
    get, law_bytes_hold_the_value, law_value_names_the_bytes, le_bytes, le_value,
    lemma_range_grows,
};

verus! {

/// Header size in bytes
pub const HEADER_SIZE: usize = 32;

/// The number of event codes that are counted.
pub const COUNTED_EVENTS: usize = 16;

/// Why a file is no trace file.
#[derive(Clone, Copy, Debug, PartialEq, Eq)]
pub enum DecodeError {
    /// The file is too small for the header.
    TooSmallForHeader,
    /// The file begins with other bytes than `QSPT`.
    InvalidMagic { found: [u8; 4] },
    /// The file is too small for its records.
    DataTooSmall { expected: usize, got: usize },
}

/// What stands in the header of a trace file.
#[derive(Clone, Copy, Debug, PartialEq, Eq, Structural)]
pub struct TraceHeader {
    /// The version of the format
    pub version: u32,
    /// The number of records in the file
    pub count: u64,
    /// The number of all events, overwritten ones included
    pub total: u64,
    /// The slot of the first record
    pub start_slot: u64,
}

impl TraceHeader {
    /// Whether there were more events than there are records.
    #[verifier::allow_in_spec]
    pub fn wrapped(&self) -> bool
        returns
            self.total > self.count,
    {
        self.total > self.count
    }
}

/// The name of an event code.
pub open spec fn name_of_event(e: u8) -> Seq<char> {
    match e {
        1u8 => "PollTransmitExit"@,
        2u8 => "PacingBlocked"@,
        3u8 => "CongestionBlocked"@,
        4u8 => "DatagramCapReached"@,
        5u8 => "NoData"@,
        6u8 => "WriteBlocked"@,
        7u8 => "MaxDataReceived"@,
        8u8 => "MaxStreamDataReceived"@,
        9u8 => "StreamDataQueued"@,
        _ => "Unknown"@,
    }
}

/// The name of an event code.
pub fn event_name(e: u8) -> (name: &'static str)
    ensures
        name@ == name_of_event(e),
{
    match e {
        1 => "PollTransmitExit",
        2 => "PacingBlocked",
        3 => "CongestionBlocked",
        4 => "DatagramCapReached",
        5 => "NoData",
        6 => "WriteBlocked",
        7 => "MaxDataReceived",
        8 => "MaxStreamDataReceived",
        9 => "StreamDataQueued",
        _ => "Unknown",
    }
}

/// The name of a reason code: only the events with which poll_transmit ends have
/// one.
pub open spec fn name_of_reason(event: u8, reason: u8) -> Seq<char> {
    if 1 <= event <= 4 {
        match reason {
            0u8 => "Complete"@,
            1u8 => "PacingBlocked"@,
            2u8 => "CongestionBlocked"@,
            3u8 => "DatagramCap"@,
            4u8 => "AntiAmplification"@,
            _ => "Unknown"@,
        }
    } else {
        "-"@
    }
}

/// The name of a reason code.
pub fn reason_name(event: u8, reason: u8) -> (name: &'static str)
    ensures
        name@ == name_of_reason(event, reason),
{
    match event {
        1 | 2 | 3 | 4 => match reason {
            0 => "Complete",
            1 => "PacingBlocked",
            2 => "CongestionBlocked",
            3 => "DatagramCap",
            4 => "AntiAmplification",
            _ => "Unknown",
        },
        _ => "-",
    }
}

/// Every event that can be recorded has a name.
pub proof fn law_every_event_has_a_name(event: SendPathEvent)
    ensures
        name_of_event(event.code()) != "Unknown"@,
{
    reveal_strlit("Unknown");
    reveal_strlit("PollTransmitExit");
    reveal_strlit("PacingBlocked");
    reveal_strlit("CongestionBlocked");
    reveal_strlit("DatagramCapReached");
    reveal_strlit("NoData");
    reveal_strlit("WriteBlocked");
    reveal_strlit("MaxDataReceived");
    reveal_strlit("MaxStreamDataReceived");
    reveal_strlit("StreamDataQueued");
    assert("Unknown"@.len() == 7);
}

/// Every reason for which poll_transmit can end has a name.
pub proof fn law_every_exit_reason_has_a_name(reason: PollTransmitExitReason)
    ensures
        name_of_reason(SendPathEvent::PollTransmitExit.code(), reason.code()) != "Unknown"@,
{
    reveal_strlit("Unknown");
    reveal_strlit("Complete");
    reveal_strlit("PacingBlocked");
    reveal_strlit("CongestionBlocked");
    reveal_strlit("DatagramCap");
    reveal_strlit("AntiAmplification");
    assert("Unknown"@.len() == 7);
}

/// The header that the bytes of a file hold.
pub open spec fn header_of(buf: Seq<u8>) -> Result<TraceHeader, DecodeError> {
    if buf.len() < HEADER_SIZE {
        Err(DecodeError::TooSmallForHeader)
    } else if buf.subrange(0, 4) != magic() {
        Err(DecodeError::InvalidMagic { found: [buf[0], buf[1], buf[2], buf[3]] })
    } else {
        Ok(
            TraceHeader {
                version: le_value(buf.subrange(4, 8)) as u32,
                count: le_value(buf.subrange(8, 16)) as u64,
                total: le_value(buf.subrange(16, 24)) as u64,
                start_slot: le_value(buf.subrange(24, 32)) as u64,
            },
        )
    }
}

/// Reads the header of a trace file.
pub fn parse_header(buf: &[u8]) -> (header: Result<TraceHeader, DecodeError>)
    ensures
        header == header_of(buf@),
{
    if buf.len() < HEADER_SIZE {
        return Err(DecodeError::TooSmallForHeader);
    }
    if buf[0] != 0x51 || buf[1] != 0x53 || buf[2] != 0x50 || buf[3] != 0x54 {
        assert(buf@.subrange(0, 4)[0] == buf@[0] && buf@.subrange(0, 4)[1] == buf@[1]
            && buf@.subrange(0, 4)[2] == buf@[2] && buf@.subrange(0, 4)[3] == buf@[3]);
        return Err(DecodeError::InvalidMagic { found: [buf[0], buf[1], buf[2], buf[3]] });
    }
    assert(buf@.subrange(0, 4) =~= magic());
    proof {
        law_value_names_the_bytes(buf@.subrange(4, 8));
        lemma_range_grows(4, 8);
    }
    Ok(
        TraceHeader {
            version: get(buf, 4, 4) as u32,
            count: get(buf, 8, 8),
            total: get(buf, 16, 8),
            start_slot: get(buf, 24, 8),
        },
    )
}

/// The record that its 48 bytes hold.
pub open spec fn record_in(bytes: Seq<u8>) -> TraceRecord {
    TraceRecord {
        ts_ns: le_value(bytes.subrange(0, 8)) as u64,
        event: bytes[8],
        reason: bytes[9],
        _pad: [bytes[10], bytes[11], bytes[12], bytes[13], bytes[14], bytes[15]],
        val0: le_value(bytes.subrange(16, 24)) as u64,
        val1: le_value(bytes.subrange(24, 32)) as u64,
        val2: le_value(bytes.subrange(32, 40)) as u64,
        val3: le_value(bytes.subrange(40, 48)) as u64,
    }
}

/// The record with the given number in the bytes of a file.
pub open spec fn record_at(buf: Seq<u8>, number: int) -> TraceRecord {
    let offset = HEADER_SIZE + RECORD_SIZE * number;
    record_in(buf.subrange(offset, offset + RECORD_SIZE))
}

/// The records that the bytes of a file hold.
pub open spec fn records_of(buf: Seq<u8>, count: nat) -> Seq<TraceRecord> {
    Seq::new(count, |i: int| record_at(buf, i))
}

/// Reads the record whose bytes begin at `at`.
fn parse_record(buf: &[u8], at: usize) -> (record: TraceRecord)
    requires
        at + RECORD_SIZE <= buf@.len(),
    ensures
        record == record_in(buf@.subrange(at as int, at + RECORD_SIZE)),
{
    assert(buf@.len() == buf.len());
    proof {
        let bytes = buf@.subrange(at as int, at + RECORD_SIZE);
        assert(bytes.subrange(0, 8) =~= buf@.subrange(at as int, at + 8));
        assert(bytes.subrange(16, 24) =~= buf@.subrange(at + 16, at + 24));
        assert(bytes.subrange(24, 32) =~= buf@.subrange(at + 24, at + 32));
        assert(bytes.subrange(32, 40) =~= buf@.subrange(at + 32, at + 40));
        assert(bytes.subrange(40, 48) =~= buf@.subrange(at + 40, at + 48));
    }
    TraceRecord {
        ts_ns: get(buf, at, 8),
        event: buf[at + 8],
        reason: buf[at + 9],
        _pad: [
            buf[at + 10],
            buf[at + 11],
            buf[at + 12],
            buf[at + 13],
            buf[at + 14],
            buf[at + 15],
        ],
        val0: get(buf, at + 16, 8),
        val1: get(buf, at + 24, 8),
        val2: get(buf, at + 32, 8),
        val3: get(buf, at + 40, 8),
    }
}

/// Reads `count` records of a trace file, which stand behind its header.
pub fn parse_records(buf: &[u8], count: u64) -> (records: Result<Vec<TraceRecord>, DecodeError>)
    requires
        buf@.len() >= HEADER_SIZE,
        count * RECORD_SIZE <= usize::MAX,
    ensures
        match records {
            Ok(records) => buf@.len() - HEADER_SIZE >= count * RECORD_SIZE && records@
                == records_of(buf@, count as nat),
            Err(error) => buf@.len() - HEADER_SIZE < count * RECORD_SIZE && error == (
            DecodeError::DataTooSmall {
                expected: (count * RECORD_SIZE) as usize,
                got: (buf@.len() - HEADER_SIZE) as usize,
            }),
        },
{
    let expected: usize = count as usize * RECORD_SIZE;
    let got: usize = buf.len() - HEADER_SIZE;
    if got < expected {
        return Err(DecodeError::DataTooSmall { expected, got });
    }
    let mut records: Vec<TraceRecord> = Vec::new();
    let mut number: usize = 0;
    while number < count as usize
        invariant
            number <= count,
            count * RECORD_SIZE <= usize::MAX,
            buf@.len() - HEADER_SIZE >= count * RECORD_SIZE,
            buf@.len() <= usize::MAX,
            records@ == records_of(buf@, number as nat),
        decreases count - number,
    {
        records.push(parse_record(buf, HEADER_SIZE + number * RECORD_SIZE));
        number = number + 1;
        assert(records@ =~= records_of(buf@, number as nat));
    }
    Ok(records)
}

/// What a trace file says of the run.
#[derive(Debug, PartialEq, Eq)]
pub struct Summary {
    /// How often each of the lowest event codes occurs
    pub event_counts: Vec<u64>,
    /// The number of WriteBlocked events
    pub write_blocked_count: u64,
    /// The number of MaxDataReceived events
    pub max_data_received_count: u64,
    /// How long pacing blocked in all, in nanoseconds
    pub pacing_blocked_total_ns: u64,
    /// The highest limit that the peer announced
    pub max_peer_max_data: u64,
}

/// How often an event code occurs.
pub open spec fn count_of(records: Seq<TraceRecord>, event: u8) -> nat {
    records.filter(|r: TraceRecord| r.event == event).len()
}

/// How long pacing blocked in all, in nanoseconds.
pub open spec fn pacing_total(records: Seq<TraceRecord>) -> nat
    decreases records.len(),
{
    if records.len() == 0 {
        0
    } else {
        pacing_total(records.drop_last()) + if records.last().event
            == SendPathEvent::PacingBlocked.code() {
            records.last().val0 as nat
        } else {
            0
        }
    }
}

/// The highest limit that the peer announced, zero where it announced none.
pub open spec fn highest_limit(records: Seq<TraceRecord>) -> u64
    decreases records.len(),
{
    if records.len() == 0 {
        0
    } else if records.last().event == SendPathEvent::MaxDataReceived.code() {
        larger(highest_limit(records.drop_last()), records.last().val0)
    } else {
        highest_limit(records.drop_last())
    }
}

/// One more record adds one to the count of its own code and nothing to the
/// others; no count exceeds the number of records.
proof fn lemma_counts_of_longer(records: Seq<TraceRecord>, event: u8)
    ensures
        count_of(records, event) <= records.len(),
        records.len() > 0 ==> count_of(records, event) == count_of(records.drop_last(), event)
            + if records.last().event == event {
            1int
        } else {
            0int
        },
    decreases records.len(),
{
    reveal(Seq::filter);
    if records.len() > 0 {
        lemma_counts_of_longer(records.drop_last(), event);
    }
}

/// The pacing total of the first records does not exceed that of all.
proof fn lemma_pacing_total_grows(records: Seq<TraceRecord>, upto: int)
    requires
        0 <= upto <= records.len(),
    ensures
        pacing_total(records.subrange(0, upto)) <= pacing_total(records),
    decreases records.len() - upto,
{
    if upto < records.len() {
        lemma_pacing_total_grows(records, upto + 1);
        assert(records.subrange(0, upto + 1).drop_last() =~= records.subrange(0, upto));
    } else {
        assert(records.subrange(0, upto) =~= records);
    }
}

/// Sums up the records of a trace file.
pub fn summarize(records: &Vec<TraceRecord>) -> (summary: Summary)
    requires
        pacing_total(records@) <= u64::MAX,
    ensures
        summary.event_counts@ == Seq::new(
            COUNTED_EVENTS as nat,
            |e: int| count_of(records@, e as u8) as u64,
        ),
        summary.write_blocked_count == count_of(records@, SendPathEvent::WriteBlocked.code()),
        summary.max_data_received_count == count_of(
            records@,
            SendPathEvent::MaxDataReceived.code(),
        ),
        summary.pacing_blocked_total_ns == pacing_total(records@),
        summary.max_peer_max_data == highest_limit(records@),
{
    let mut event_counts: Vec<u64> = Vec::new();
    let mut made: usize = 0;
    while made < COUNTED_EVENTS
        invariant
            made <= COUNTED_EVENTS,
            event_counts@.len() == made,
            forall|e: int| 0 <= e < made ==> #[trigger] event_counts@[e] == 0,
        decreases COUNTED_EVENTS - made,
    {
        event_counts.push(0);
        made = made + 1;
    }
    let mut write_blocked_count: u64 = 0;
    let mut max_data_received_count: u64 = 0;
    let mut pacing_blocked_total_ns: u64 = 0;
    let mut max_peer_max_data: u64 = 0;
    let mut done: usize = 0;
    proof {
        let none = records@.subrange(0, 0);
        assert forall|e: u8| #[trigger] count_of(none, e) == 0 by {
            lemma_counts_of_longer(none, e);
        }
    }
    while done < records.len()
        invariant
            done <= records@.len(),
            pacing_total(records@) <= u64::MAX,
            event_counts@.len() == COUNTED_EVENTS,
            forall|e: int|
                0 <= e < COUNTED_EVENTS ==> #[trigger] event_counts@[e] == count_of(
                    records@.subrange(0, done as int),
                    e as u8,
                ),
            write_blocked_count == count_of(records@.subrange(0, done as int), 6),
            max_data_received_count == count_of(records@.subrange(0, done as int), 7),
            pacing_blocked_total_ns == pacing_total(records@.subrange(0, done as int)),
            max_peer_max_data == highest_limit(records@.subrange(0, done as int)),
        decreases records.len() - done,
    {
        let ghost longer = records@.subrange(0, done + 1);
        proof {
            assert(longer.drop_last() =~= records@.subrange(0, done as int));
            assert forall|e: u8|
                #![trigger count_of(longer, e)]
                #![trigger count_of(longer.drop_last(), e)]
                count_of(longer, e) <= done + 1 && count_of(longer, e) == count_of(
                    longer.drop_last(),
                    e,
                ) + if longer.last().event == e {
                    1int
                } else {
                    0int
                } by {
                lemma_counts_of_longer(longer, e);
            }
            lemma_pacing_total_grows(records@, done + 1);
        }
        let record: TraceRecord = records[done];
        let code: usize = record.event as usize;
        assert(longer.last() == record);
        if code < COUNTED_EVENTS {
            assert(count_of(longer, code as u8) <= done + 1);
            let count: u64 = event_counts[code];
            event_counts.set(code, count + 1);
        }
        match record.event {
            6 => {
                write_blocked_count = write_blocked_count + 1;
            },
            7 => {
                max_data_received_count = max_data_received_count + 1;
                max_peer_max_data = larger(max_peer_max_data, record.val0);
            },
            2 => {
                pacing_blocked_total_ns = pacing_blocked_total_ns + record.val0;
            },
            _ => {},
        }
        done = done + 1;
    }
    assert(records@.subrange(0, done as int) =~= records@);
    proof {
        assert forall|e: u8| #[trigger] count_of(records@, e) <= records@.len() by {
            lemma_counts_of_longer(records@, e);
        }
    }
    Summary {
        event_counts,
        write_blocked_count,
        max_data_received_count,
        pacing_blocked_total_ns,
        max_peer_max_data,
    }
}

/// The bytes of a record are 48 and hold the record.
pub proof fn law_record_is_read_back(record: TraceRecord)
    ensures
        record.bytes().len() == RECORD_SIZE,
        record_in(record.bytes()) == record,
{
    lemma_range_grows(8, 8);
    law_bytes_hold_the_value(record.ts_ns as nat, 8);
    law_bytes_hold_the_value(record.val0 as nat, 8);
    law_bytes_hold_the_value(record.val1 as nat, 8);
    law_bytes_hold_the_value(record.val2 as nat, 8);
    law_bytes_hold_the_value(record.val3 as nat, 8);
    let bytes = record.bytes();
    assert(bytes.subrange(0, 8) =~= le_bytes(record.ts_ns as nat, 8));
    assert(bytes.subrange(16, 24) =~= le_bytes(record.val0 as nat, 8));
    assert(bytes.subrange(24, 32) =~= le_bytes(record.val1 as nat, 8));
    assert(bytes.subrange(32, 40) =~= le_bytes(record.val2 as nat, 8));
    assert(bytes.subrange(40, 48) =~= le_bytes(record.val3 as nat, 8));
    assert(record_in(bytes)._pad =~= record._pad);
}

/// Each record stands in its 48 bytes.
proof fn lemma_records_stand_in_order(records: Seq<TraceRecord>, number: int)
    requires
        0 <= number < records.len(),
    ensures
        records_bytes(records).len() == RECORD_SIZE * records.len(),
        records_bytes(records).subrange(RECORD_SIZE * number, RECORD_SIZE * (number + 1))
            == records[number].bytes(),
    decreases records.len(),
{
    let shorter = records.drop_last();
    law_record_is_read_back(records.last());
    if shorter.len() > 0 {
        lemma_records_stand_in_order(
            shorter,
            if number < shorter.len() {
                number
            } else {
                0
            },
        );
    }
    assert(records_bytes(shorter).len() == RECORD_SIZE * shorter.len());
    if number < shorter.len() {
        assert(records_bytes(records).subrange(RECORD_SIZE * number, RECORD_SIZE * (number + 1))
            =~= records_bytes(shorter).subrange(RECORD_SIZE * number, RECORD_SIZE * (number + 1)));
    } else {
        assert(records_bytes(records).subrange(RECORD_SIZE * number, RECORD_SIZE * (number + 1))
            =~= records.last().bytes());
    }
}

/// A file that was laid out is decoded to what went into it: the counts in the
/// header, and every record in its place, with no bytes left over.
pub proof fn law_decoding_gives_back_the_dump(
    records: Seq<TraceRecord>,
    total: u64,
    start_slot: u64,
)
    requires
        records.len() <= u64::MAX,
    ensures
        header_of(dump_bytes(records, total as nat, start_slot as nat)) == Ok::<
            TraceHeader,
            DecodeError,
        >(TraceHeader { version: 1, count: records.len() as u64, total, start_slot }),
        dump_bytes(records, total as nat, start_slot as nat).len() == HEADER_SIZE + RECORD_SIZE
            * records.len(),
        records_of(dump_bytes(records, total as nat, start_slot as nat), records.len()) == records,
{
    let buf = dump_bytes(records, total as nat, start_slot as nat);
    let header = header_bytes(records.len(), total as nat, start_slot as nat);
    lemma_range_grows(4, 8);
    law_bytes_hold_the_value(1, 4);
    law_bytes_hold_the_value(records.len(), 8);
    law_bytes_hold_the_value(total as nat, 8);
    law_bytes_hold_the_value(start_slot as nat, 8);
    assert(header.len() == HEADER_SIZE);
    assert(buf.subrange(0, 4) =~= magic());
    assert(buf.subrange(4, 8) =~= le_bytes(1, 4));
    assert(buf.subrange(8, 16) =~= le_bytes(records.len(), 8));
    assert(buf.subrange(16, 24) =~= le_bytes(total as nat, 8));
    assert(buf.subrange(24, 32) =~= le_bytes(start_slot as nat, 8));
    if records.len() > 0 {
        lemma_records_stand_in_order(records, 0);
    }
    assert forall|i: int| 0 <= i < records.len() implies #[trigger] record_at(buf, i)
        == records[i] by {
        lemma_records_stand_in_order(records, i);
        law_record_is_read_back(records[i]);
        let offset = HEADER_SIZE + RECORD_SIZE * i;
        assert(buf.subrange(offset, offset + RECORD_SIZE) =~= records_bytes(records).subrange(
            RECORD_SIZE * i,
            RECORD_SIZE * (i + 1),
        ));
    }
    assert(records_of(buf, records.len()) =~= records);
}

/// What a trace has recorded is decoded from its dump: the last records, as many
/// as the ring has slots for, in the order in which they were recorded.
pub proof fn law_trace_is_decoded_from_its_dump(state: TraceState, history: Seq<TraceRecord>)
    requires
        state.traces(history),
    ensures
        ({
            let first = state.first_ticket();
            let buf = dump_bytes(
                state.collected(first, state.cursor as int),
                state.cursor as nat,
                slot_of(first) as nat,
            );
            &&& header_of(buf) == Ok::<TraceHeader, DecodeError>(
                TraceHeader {
                    version: 1,
                    count: (history.len() - first) as u64,
                    total: history.len() as u64,
                    start_slot: slot_of(first) as u64,
                },
            )
            &&& buf.len() == HEADER_SIZE + RECORD_SIZE * (history.len() - first)
            &&& records_of(buf, (history.len() - first) as nat) == history.subrange(
                first,
                history.len() as int,
            )
        }),
{
    let first = state.first_ticket();
    law_collecting_misses_nothing(state, state.cursor as int);
    assert(state.records().subrange(0, state.cursor - first) =~= state.records());
    law_decoding_gives_back_the_dump(state.records(), state.cursor, slot_of(first) as u64);
}

/// Where the parts of a record stand among its bytes.
pub proof fn law_record_layout(record: TraceRecord)
    ensures
        ({
            let bytes = record.bytes();
            &&& bytes.len() == 48
            &&& le_value(bytes.subrange(0, 8)) == record.ts_ns
            &&& bytes[8] == record.event && bytes[9] == record.reason
            &&& bytes.subrange(10, 16) == record._pad@
            &&& le_value(bytes.subrange(16, 24)) == record.val0
            &&& le_value(bytes.subrange(24, 32)) == record.val1
            &&& le_value(bytes.subrange(32, 40)) == record.val2
            &&& le_value(bytes.subrange(40, 48)) == record.val3
        }),
{
    lemma_range_grows(8, 8);
    law_bytes_hold_the_value(record.ts_ns as nat, 8);
    law_bytes_hold_the_value(record.val0 as nat, 8);
    law_bytes_hold_the_value(record.val1 as nat, 8);
    law_bytes_hold_the_value(record.val2 as nat, 8);
    law_bytes_hold_the_value(record.val3 as nat, 8);
    let bytes = record.bytes();
    assert(bytes.subrange(0, 8) =~= le_bytes(record.ts_ns as nat, 8));
    assert(bytes.subrange(10, 16) =~= record._pad@);
    assert(bytes.subrange(16, 24) =~= le_bytes(record.val0 as nat, 8));
    assert(bytes.subrange(24, 32) =~= le_bytes(record.val1 as nat, 8));
    assert(bytes.subrange(32, 40) =~= le_bytes(record.val2 as nat, 8));
    assert(bytes.subrange(40, 48) =~= le_bytes(record.val3 as nat, 8));
}

/// Where the parts of a file stand: the letters `QSPT`, the version, the three numbers
/// of the header, and the records in their order from byte 32 on, 48 bytes each.
pub proof fn law_file_layout(
    records: Seq<TraceRecord>,
    total: u64,
    start_slot: u64,
    number: int,
)
    requires
        records.len() <= u64::MAX,
    ensures
        ({
            let buf = dump_bytes(records, total as nat, start_slot as nat);
            &&& buf.len() == 32 + 48 * records.len()
            &&& buf[0] == 0x51 && buf[1] == 0x53 && buf[2] == 0x50 && buf[3] == 0x54
            &&& le_value(buf.subrange(4, 8)) == 1
            &&& le_value(buf.subrange(8, 16)) == records.len()
            &&& le_value(buf.subrange(16, 24)) == total
            &&& le_value(buf.subrange(24, 32)) == start_slot
            &&& 0 <= number < records.len() ==> buf.subrange(
                32 + 48 * number,
                32 + 48 * number + 48,
            ) == records[number].bytes()
        }),
{
    let buf = dump_bytes(records, total as nat, start_slot as nat);
    lemma_range_grows(4, 8);
    law_bytes_hold_the_value(1, 4);
    law_bytes_hold_the_value(records.len(), 8);
    law_bytes_hold_the_value(total as nat, 8);
    law_bytes_hold_the_value(start_slot as nat, 8);
    assert(buf.subrange(0, 4) =~= magic());
    assert(buf.subrange(0, 4)[0] == buf[0] && buf.subrange(0, 4)[1] == buf[1] && buf.subrange(
        0,
        4,
    )[2] == buf[2] && buf.subrange(0, 4)[3] == buf[3]);
    assert(buf.subrange(4, 8) =~= le_bytes(1, 4));
    assert(buf.subrange(8, 16) =~= le_bytes(records.len(), 8));
    assert(buf.subrange(16, 24) =~= le_bytes(total as nat, 8));
    assert(buf.subrange(24, 32) =~= le_bytes(start_slot as nat, 8));
    if records.len() > 0 {
        lemma_records_stand_in_order(records, 0);
    }
    if 0 <= number < records.len() {
        lemma_records_stand_in_order(records, number);
        assert(buf.subrange(32 + 48 * number, 32 + 48 * number + 48) =~= records_bytes(
            records,
        ).subrange(RECORD_SIZE * number, RECORD_SIZE * (number + 1)));
    }
}

/// What is read from a file, and what is refused: fewer than 32 bytes, and other
/// letters than `QSPT`, which are told.
pub proof fn law_header_is_read_or_refused(buf: Seq<u8>)
    ensures
        buf.len() < 32 <==> header_of(buf) == Err::<TraceHeader, DecodeError>(
            DecodeError::TooSmallForHeader,
        ),
        buf.len() >= 32 && (buf[0] != 0x51 || buf[1] != 0x53 || buf[2] != 0x50 || buf[3] != 0x54)
            ==> header_of(buf) == Err::<TraceHeader, DecodeError>(
            DecodeError::InvalidMagic { found: [buf[0], buf[1], buf[2], buf[3]] },
        ),
        buf.len() >= 32 && buf[0] == 0x51 && buf[1] == 0x53 && buf[2] == 0x50 && buf[3] == 0x54
            ==> (header_of(buf) matches Ok(header) && header.version == le_value(
            buf.subrange(4, 8),
        ) && header.count == le_value(buf.subrange(8, 16)) && header.total == le_value(
            buf.subrange(16, 24),
        ) && header.start_slot == le_value(buf.subrange(24, 32)) && (header.wrapped()
            <==> header.total > header.count)),
{
    if buf.len() >= 32 {
        let first = buf.subrange(0, 4);
        assert(first[0] == buf[0] && first[1] == buf[1] && first[2] == buf[2] && first[3]
            == buf[3]);
        if buf[0] == 0x51 && buf[1] == 0x53 && buf[2] == 0x50 && buf[3] == 0x54 {
            assert(first =~= magic());
        }
        lemma_range_grows(4, 8);
        law_value_names_the_bytes(buf.subrange(4, 8));
        law_value_names_the_bytes(buf.subrange(8, 16));
        law_value_names_the_bytes(buf.subrange(16, 24));
        law_value_names_the_bytes(buf.subrange(24, 32));
    }
}

/// A trace decodes to fewer records than events exactly if it had more events than the
/// ring has slots for.
pub proof fn law_lost_records_show(state: TraceState, history: Seq<TraceRecord>)
    requires
        state.traces(history),
    ensures
        ({
            let first = state.first_ticket();
            let buf = dump_bytes(
                state.collected(first, state.cursor as int),
                state.cursor as nat,
                slot_of(first) as nat,
            );
            header_of(buf) matches Ok(header) && (header.wrapped() <==> history.len() > 1_048_576)
        }),
{
    law_trace_is_decoded_from_its_dump(state, history);
}

/// What one more record adds to the summary: one to the count of its code, its first
/// value to the pacing total if pacing blocked, and its first value to the limits if
/// the peer announced one.
pub proof fn law_summary_of_one_more_record(records: Seq<TraceRecord>, r: TraceRecord, code: u8)
    ensures
        count_of(records.push(r), code) == count_of(records, code) + if r.event == code {
            1int
        } else {
            0int
        },
        pacing_total(records.push(r)) == pacing_total(records) + if r.event == 2 {
            r.val0 as int
        } else {
            0int
        },
        highest_limit(records.push(r)) == (if r.event == 7 && r.val0 > highest_limit(records) {
            r.val0
        } else {
            highest_limit(records)
        }),
        count_of(Seq::empty(), code) == 0,
        pacing_total(Seq::empty()) == 0,
        highest_limit(Seq::empty()) == 0,
{
    assert(records.push(r).drop_last() =~= records);
    lemma_counts_of_longer(records.push(r), code);
    lemma_counts_of_longer(Seq::empty(), code);
}

} // verus!
