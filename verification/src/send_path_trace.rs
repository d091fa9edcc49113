//! Lightweight binary trace of the send path, for diagnosing throughput ceilings.
//!
//! Key decision points in the send path append fixed-size records to a ring
//! buffer. After the run the buffer is laid out as a file, to be decoded offline.
//!
//! - Fixed 48-byte records, 1M slots in the ring (about 48 MB)
//! - No allocation when a record is appended
//! - Records overwrite silently on wrap: the ring does not grow

use vstd::prelude::*;

use crate::time::{Instant, WORD_RANGE};
use crate::wire::{le_bytes, put};

verus! {

/// Event types recorded in the send path. In a record stands the event's `code`.
#[derive(Clone, Copy, Debug, PartialEq, Eq, Structural)]
pub enum SendPathEvent {
    /// poll_transmit exited: datagrams_emitted, exit_reason
    PollTransmitExit,
    /// Pacing blocked poll_transmit: delay_ns
    PacingBlocked,
    /// Congestion control blocked poll_transmit
    CongestionBlocked,
    /// Datagram cap reached (MAX_TRANSMIT_DATAGRAMS)
    DatagramCapReached,
    /// No more data to send
    NoData,
    /// write_source returned Blocked: the limit was zero
    WriteBlocked,
    /// MAX_DATA received from the peer: new limit
    MaxDataReceived,
    /// MAX_STREAM_DATA received from the peer
    MaxStreamDataReceived,
    /// Stream data written into the send buffer
    StreamDataQueued,
}

impl SendPathEvent {
    /// The number that stands for the event in a record.
    #[verifier::allow_in_spec]
    pub fn code(self) -> u8
        returns
            (match self {
                SendPathEvent::PollTransmitExit => 1u8,
                SendPathEvent::PacingBlocked => 2u8,
                SendPathEvent::CongestionBlocked => 3u8,
                SendPathEvent::DatagramCapReached => 4u8,
                SendPathEvent::NoData => 5u8,
                SendPathEvent::WriteBlocked => 6u8,
                SendPathEvent::MaxDataReceived => 7u8,
                SendPathEvent::MaxStreamDataReceived => 8u8,
                SendPathEvent::StreamDataQueued => 9u8,
            }),
    {
        match self {
            SendPathEvent::PollTransmitExit => 1,
            SendPathEvent::PacingBlocked => 2,
            SendPathEvent::CongestionBlocked => 3,
            SendPathEvent::DatagramCapReached => 4,
            SendPathEvent::NoData => 5,
            SendPathEvent::WriteBlocked => 6,
            SendPathEvent::MaxDataReceived => 7,
            SendPathEvent::MaxStreamDataReceived => 8,
            SendPathEvent::StreamDataQueued => 9,
        }
    }
}

/// Exit reasons for poll_transmit. In a record stands the reason's `code`.
#[derive(Clone, Copy, Debug, PartialEq, Eq, Structural)]
pub enum PollTransmitExitReason {
    /// Normal completion (no more data or space)
    Complete,
    /// Pacer blocked
    PacingBlocked,
    /// Congestion window full
    CongestionBlocked,
    /// MAX_TRANSMIT_DATAGRAMS cap
    DatagramCap,
    /// Anti-amplification limit
    AntiAmplification,
}

impl PollTransmitExitReason {
    /// The number that stands for the reason in a record.
    #[verifier::allow_in_spec]
    pub fn code(self) -> u8
        returns
            (match self {
                PollTransmitExitReason::Complete => 0u8,
                PollTransmitExitReason::PacingBlocked => 1u8,
                PollTransmitExitReason::CongestionBlocked => 2u8,
                PollTransmitExitReason::DatagramCap => 3u8,
                PollTransmitExitReason::AntiAmplification => 4u8,
            }),
    {
        match self {
            PollTransmitExitReason::Complete => 0,
            PollTransmitExitReason::PacingBlocked => 1,
            PollTransmitExitReason::CongestionBlocked => 2,
            PollTransmitExitReason::DatagramCap => 3,
            PollTransmitExitReason::AntiAmplification => 4,
        }
    }
}

/// Fixed-size 48-byte trace record
#[derive(Clone, Copy, Debug, PartialEq, Eq)]
pub struct TraceRecord {
    /// Nanoseconds since trace start
    pub ts_ns: u64,
    /// Event type
    pub event: u8,
    /// Sub-reason / exit reason
    pub reason: u8,
    /// Padding for alignment
    pub _pad: [u8; 6],
    /// Primary value (meaning depends on event)
    pub val0: u64,
    /// Secondary value
    pub val1: u64,
    /// Tertiary value
    pub val2: u64,
    /// Quaternary value
    pub val3: u64,
}

/// Record size in bytes
pub const RECORD_SIZE: usize = 48;

/// Ring buffer capacity (1M records, about 48 MB)
pub const RING_CAPACITY: usize = 0x10_0000;

/// Padding with nothing in it.
#[verifier::allow_in_spec]
pub fn no_padding() -> [u8; 6]
    returns
        [0u8, 0u8, 0u8, 0u8, 0u8, 0u8],
{
    [0u8, 0u8, 0u8, 0u8, 0u8, 0u8]
}

impl TraceRecord {
    /// This record with empty padding.
    pub open spec fn unpadded(self) -> TraceRecord {
        TraceRecord { _pad: no_padding(), ..self }
    }

    /// The bytes of this record in a file.
    pub open spec fn bytes(self) -> Seq<u8> {
        le_bytes(self.ts_ns as nat, 8) + seq![self.event, self.reason] + self._pad@ + le_bytes(
            self.val0 as nat,
            8,
        ) + le_bytes(self.val1 as nat, 8) + le_bytes(self.val2 as nat, 8) + le_bytes(
            self.val3 as nat,
            8,
        )
    }

    /// Appends the bytes of this record to `out`.
    pub fn write(&self, out: &mut Vec<u8>)
        ensures
            final(out)@ == old(out)@ + self.bytes(),
    {
        put(out, self.ts_ns, 8);
        out.push(self.event);
        out.push(self.reason);
        let ghost before = out@;
        let mut done: usize = 0;
        while done < 6
            invariant
                done <= 6,
                out@ == before + self._pad@.subrange(0, done as int),
            decreases 6 - done,
        {
            out.push(self._pad[done]);
            done = done + 1;
        }
        put(out, self.val0, 8);
        put(out, self.val1, 8);
        put(out, self.val2, 8);
        put(out, self.val3, 8);
        assert(self._pad@.subrange(0, 6) =~= self._pad@);
        assert(out@ =~= old(out)@ + self.bytes());
    }
}

/// One place in the ring.
#[derive(Clone, Copy, Debug, PartialEq, Eq, Structural)]
pub struct TraceSlot {
    /// The number of the record that stands here, counted from one; zero where
    /// none does.
    pub generation: u64,
    /// The record's time
    pub ts_ns: u64,
    /// The record's event in the lowest byte, its reason in the next
    pub metadata: u64,
    /// The record's values
    pub val0: u64,
    pub val1: u64,
    pub val2: u64,
    pub val3: u64,
}

impl Default for TraceSlot {
    fn default() -> (slot: Self)
        ensures
            slot == TraceSlot::vacant(),
    {
        TraceSlot { generation: 0, ts_ns: 0, metadata: 0, val0: 0, val1: 0, val2: 0, val3: 0 }
    }
}

impl TraceSlot {
    /// A slot that has held no record yet.
    pub open spec fn vacant() -> TraceSlot {
        TraceSlot { generation: 0, ts_ns: 0, metadata: 0, val0: 0, val1: 0, val2: 0, val3: 0 }
    }

    /// The slot that holds `record` as the given generation.
    pub open spec fn holding(generation: u64, record: TraceRecord) -> TraceSlot {
        TraceSlot {
            generation,
            ts_ns: record.ts_ns,
            metadata: (record.event + 256 * record.reason) as u64,
            val0: record.val0,
            val1: record.val1,
            val2: record.val2,
            val3: record.val3,
        }
    }

    /// The record that the fields of this slot spell.
    pub open spec fn content(self) -> TraceRecord {
        TraceRecord {
            ts_ns: self.ts_ns,
            event: (self.metadata % 256) as u8,
            reason: ((self.metadata / 256) % 256) as u8,
            _pad: no_padding(),
            val0: self.val0,
            val1: self.val1,
            val2: self.val2,
            val3: self.val3,
        }
    }

    /// The record of the given generation, if it stands here.
    pub open spec fn loaded(self, expected_generation: u64) -> Option<TraceRecord> {
        if self.generation == expected_generation {
            Some(self.content())
        } else {
            None
        }
    }

    /// Puts `record` here as the given generation.
    pub fn store(&mut self, generation: u64, record: TraceRecord)
        ensures
            *final(self) == TraceSlot::holding(generation, record),
    {
        self.ts_ns = record.ts_ns;
        self.metadata = record.event as u64 + 256 * (record.reason as u64);
        self.val0 = record.val0;
        self.val1 = record.val1;
        self.val2 = record.val2;
        self.val3 = record.val3;
        self.generation = generation;
    }

    /// The record of the given generation, if it stands here.
    pub fn load(&self, expected_generation: u64) -> (record: Option<TraceRecord>)
        ensures
            record == self.loaded(expected_generation),
    {
        if self.generation != expected_generation {
            return None;
        }
        Some(
            TraceRecord {
                ts_ns: self.ts_ns,
                event: (self.metadata % 256) as u8,
                reason: ((self.metadata / 256) % 256) as u8,
                _pad: no_padding(),
                val0: self.val0,
                val1: self.val1,
                val2: self.val2,
                val3: self.val3,
            },
        )
    }

    /// What a reader may rely on of a slot whose fields were read while writers
    /// were at work: nothing, if the generation read after the fields is not the
    /// one read before them.
    pub fn settled(self, generation_after: u64) -> (slot: TraceSlot)
        ensures
            self.generation == generation_after ==> slot == self,
            self.generation != generation_after ==> slot == (TraceSlot { generation: 0, ..self }),
            forall|expected: u64|
                expected > 0 ==> #[trigger] slot.loaded(expected) == (if self.generation == expected
                    && generation_after == expected {
                    Some(self.content())
                } else {
                    None
                }),
    {
        if self.generation == generation_after {
            self
        } else {
            TraceSlot { generation: 0, ..self }
        }
    }
}

/// What is stored is loaded, up to the padding; and under no other generation.
pub proof fn law_load_gives_back_the_store(record: TraceRecord, generation: u64, expected: u64)
    ensures
        TraceSlot::holding(generation, record).loaded(generation) == Some(record.unpadded()),
        expected != generation ==> TraceSlot::holding(generation, record).loaded(expected) is None,
{
    let metadata = (record.event + 256 * record.reason) as u64;
    assert(metadata % 256 == record.event && (metadata / 256) % 256 == record.reason);
}

/// The ring and what has been recorded so far.
pub struct TraceState {
    /// The slots
    pub ring: Vec<TraceSlot>,
    /// The number of records so far, overwritten ones included
    pub cursor: u64,
    /// The time of the start of the trace
    pub start: Instant,
}

/// The slot of the record with the given number.
pub open spec fn slot_of(ticket: int) -> int {
    ticket % (RING_CAPACITY as int)
}

/// The slot of the record with the given number.
pub fn slot_index(ticket: u64) -> (index: usize)
    ensures
        index == slot_of(ticket as int),
        index < RING_CAPACITY,
{
    (ticket % 0x10_0000) as usize
}

/// The record of an event at the time `now` of a trace begun at `start`.
pub open spec fn event_record(
    start: Instant,
    now: Instant,
    event: SendPathEvent,
    reason: u8,
    values: (u64, u64, u64, u64),
) -> TraceRecord {
    TraceRecord {
        ts_ns: (now.since(start).nanos % WORD_RANGE) as u64,
        event: event.code(),
        reason,
        _pad: no_padding(),
        val0: values.0,
        val1: values.1,
        val2: values.2,
        val3: values.3,
    }
}

/// The record of an event at the time `now` of a trace begun at `start`. Its time
/// is the nanoseconds since the start, reduced to 64 bits.
pub fn trace_record(
    start: Instant,
    now: Instant,
    event: SendPathEvent,
    reason: u8,
    val0: u64,
    val1: u64,
    val2: u64,
    val3: u64,
) -> (record: TraceRecord)
    ensures
        record == event_record(start, now, event, reason, (val0, val1, val2, val3)),
{
    TraceRecord {
        ts_ns: (now.since(start).nanos % WORD_RANGE) as u64,
        event: event.code(),
        reason,
        _pad: no_padding(),
        val0,
        val1,
        val2,
        val3,
    }
}

impl TraceState {
    /// The number of the oldest record that the ring can still hold.
    pub open spec fn first_ticket(self) -> int {
        if self.cursor > RING_CAPACITY {
            self.cursor - RING_CAPACITY
        } else {
            0
        }
    }

    /// Whether the ring is whole and each of the last records stands in its slot.
    pub open spec fn wf(self) -> bool {
        &&& self.ring@.len() == RING_CAPACITY
        &&& forall|ticket: int|
            self.first_ticket() <= ticket < self.cursor ==> self.ring@[#[trigger] slot_of(
                ticket,
            )].generation == ticket + 1
    }

    /// The records that stand in the ring, the oldest first.
    pub open spec fn records(self) -> Seq<TraceRecord> {
        Seq::new(
            (self.cursor - self.first_ticket()) as nat,
            |i: int| self.ring@[slot_of(self.first_ticket() + i)].content(),
        )
    }

    /// Whether the ring holds the last records of `history`, which is all that was
    /// recorded.
    pub open spec fn traces(self, history: Seq<TraceRecord>) -> bool {
        &&& self.wf()
        &&& self.cursor == history.len()
        &&& self.records() == history.subrange(self.first_ticket(), history.len() as int)
    }

    /// The records from one number up to another, without those whose slot was
    /// taken by another record.
    pub open spec fn collected(self, from: int, to: int) -> Seq<TraceRecord>
        decreases to - from,
    {
        if to <= from {
            Seq::empty()
        } else {
            match self.ring@[slot_of(to - 1)].loaded(to as u64) {
                Some(record) => self.collected(from, to - 1).push(record),
                None => self.collected(from, to - 1),
            }
        }
    }

    /// Whether this is the state of a trace that begins at `now`.
    pub open spec fn is_fresh(self, now: Instant) -> bool {
        &&& self.ring@.len() == RING_CAPACITY
        &&& forall|i: int| 0 <= i < RING_CAPACITY ==> #[trigger] self.ring@[i]
            == TraceSlot::vacant()
        &&& self.cursor == 0
        &&& self.start == now
    }

    /// Whether `after` is this state with one more record.
    pub open spec fn appends(self, after: TraceState, record: TraceRecord) -> bool {
        &&& after.ring@ == self.ring@.update(
            slot_of(self.cursor as int),
            TraceSlot::holding((self.cursor + 1) as u64, record),
        )
        &&& after.cursor == self.cursor + 1
        &&& after.start == self.start
    }

    /// An empty ring for a trace that begins at `now`.
    pub fn new(now: Instant) -> (state: TraceState)
        ensures
            state.is_fresh(now),
    {
        let mut ring: Vec<TraceSlot> = Vec::new();
        let mut made: usize = 0;
        while made < RING_CAPACITY
            invariant
                made <= RING_CAPACITY,
                ring@.len() == made,
                forall|i: int| 0 <= i < made ==> #[trigger] ring@[i] == TraceSlot::vacant(),
            decreases RING_CAPACITY - made,
        {
            ring.push(TraceSlot::default());
            made = made + 1;
        }
        TraceState { ring, cursor: 0, start: now }
    }

    /// Appends `record`, over the oldest one if the ring is full.
    pub fn append(&mut self, record: TraceRecord)
        requires
            old(self).ring@.len() == RING_CAPACITY,
            old(self).cursor < u64::MAX,
        ensures
            old(self).appends(*final(self), record),
    {
        let ticket: u64 = self.cursor;
        let index: usize = slot_index(ticket);
        let mut slot: TraceSlot = self.ring[index];
        slot.store(ticket + 1, record);
        self.ring.set(index, slot);
        self.cursor = ticket + 1;
    }

    /// The records that stand in the ring, the oldest first.
    pub fn collect(&self) -> (records: Vec<TraceRecord>)
        requires
            self.ring@.len() == RING_CAPACITY,
        ensures
            records@ == self.collected(self.first_ticket(), self.cursor as int),
    {
        let first: u64 = self.cursor.saturating_sub(0x10_0000);
        let mut records: Vec<TraceRecord> = Vec::new();
        let mut ticket: u64 = first;
        while ticket < self.cursor
            invariant
                self.ring@.len() == RING_CAPACITY,
                first == self.first_ticket(),
                first <= ticket <= self.cursor,
                records@ == self.collected(first as int, ticket as int),
            decreases self.cursor - ticket,
        {
            let loaded: Option<TraceRecord> = self.ring[slot_index(ticket)].load(ticket + 1);
            match loaded {
                Some(record) => {
                    records.push(record);
                },
                None => {},
            }
            ticket = ticket + 1;
        }
        records
    }
}

/// A trace that has just begun holds nothing.
pub proof fn law_new_trace_is_empty(state: TraceState, now: Instant)
    requires
        state.is_fresh(now),
    ensures
        state.traces(Seq::empty()),
{
    assert(state.records() =~= Seq::<TraceRecord>::empty().subrange(0, 0));
}

/// The ring holds the last records, as many as it has slots for, after each
/// record as before it.
pub proof fn law_ring_holds_the_last_records(
    before: TraceState,
    after: TraceState,
    record: TraceRecord,
    history: Seq<TraceRecord>,
)
    requires
        before.traces(history),
        before.cursor < u64::MAX,
        before.appends(after, record),
        record == record.unpadded(),
    ensures
        after.traces(history.push(record)),
        after.start == before.start,
{
    let longer = history.push(record);
    let first = after.first_ticket();
    law_load_gives_back_the_store(record, after.cursor, after.cursor);
    assert forall|ticket: int| first <= ticket < after.cursor implies after.ring@[
        #[trigger] slot_of(ticket)].generation == ticket + 1 && after.ring@[slot_of(
        ticket,
    )].content() == longer[ticket] by {
        if ticket < before.cursor {
            assert(slot_of(ticket) != slot_of(before.cursor as int));
            assert(before.ring@[slot_of(ticket)].generation == ticket + 1);
            let i = ticket - before.first_ticket();
            assert(before.records()[i] == history.subrange(
                before.first_ticket(),
                history.len() as int,
            )[i]);
        }
    }
    assert forall|i: int| 0 <= i < after.cursor - first implies after.records()[i]
        == longer.subrange(first, longer.len() as int)[i] by {
        assert(after.ring@[slot_of(first + i)].content() == longer[first + i]);
    }
    assert(after.records() =~= longer.subrange(first, longer.len() as int));
}

/// Where no writer is at work, collecting gives all that stands in the ring.
pub proof fn law_collecting_misses_nothing(state: TraceState, to: int)
    requires
        state.wf(),
        state.first_ticket() <= to <= state.cursor,
    ensures
        state.collected(state.first_ticket(), to) == state.records().subrange(
            0,
            to - state.first_ticket(),
        ),
    decreases to,
{
    let first = state.first_ticket();
    if to > first {
        law_collecting_misses_nothing(state, to - 1);
        assert(state.ring@[slot_of(to - 1)].generation == to);
        assert(state.records().subrange(0, to - first) =~= state.records().subrange(
            0,
            to - 1 - first,
        ).push(state.records()[to - 1 - first]));
    } else {
        assert(state.records().subrange(0, 0) =~= Seq::<TraceRecord>::empty());
    }
}

/// Begins the trace at `now`, unless it has begun before. Call once at startup.
pub fn init(trace: &mut Option<TraceState>, now: Instant) -> (begun: bool)
    ensures
        begun == (*old(trace) is None),
        !begun ==> *final(trace) == *old(trace),
        begun ==> (*final(trace) matches Some(state) && state.is_fresh(now)),
{
    match trace {
        Some(_) => false,
        None => {
            *trace = Some(TraceState::new(now));
            true
        },
    }
}

/// Records an event at the time `now`. Without a trace nothing happens.
pub fn record(
    trace: &mut Option<TraceState>,
    now: Instant,
    event: SendPathEvent,
    reason: u8,
    val0: u64,
    val1: u64,
    val2: u64,
    val3: u64,
)
    requires
        *old(trace) matches Some(state) ==> state.ring@.len() == RING_CAPACITY && state.cursor
            < u64::MAX,
    ensures
        *old(trace) is None ==> *final(trace) is None,
        *old(trace) matches Some(before) ==> (*final(trace) matches Some(after) && before.appends(
            after,
            event_record(before.start, now, event, reason, (val0, val1, val2, val3)),
        )),
{
    match trace {
        Some(state) => {
            let entry: TraceRecord = trace_record(
                state.start,
                now,
                event,
                reason,
                val0,
                val1,
                val2,
                val3,
            );
            state.append(entry);
        },
        None => {},
    }
}

/// Statistics of a dump
#[derive(Clone, Copy, Debug, PartialEq, Eq, Structural)]
pub struct DumpStats {
    /// Records written to the dump file
    pub records_written: u64,
    /// Events observed before the dump snapshot, including overwritten records
    pub total_events: u64,
    /// Whether the ring wrapped before the dump snapshot
    pub wrapped: bool,
}

/// The contents of a dump file and its statistics.
pub struct Dump {
    /// The bytes of the file; none where there is no trace, and no file is written
    pub image: Option<Vec<u8>>,
    /// What stands in it
    pub stats: DumpStats,
}

/// The first bytes of a dump file: `QSPT`.
pub open spec fn magic() -> Seq<u8> {
    seq![0x51u8, 0x53u8, 0x50u8, 0x54u8]
}

/// The header of a dump file: magic, version 1, the number of records in the file,
/// the number of all events, and the slot of the first record.
pub open spec fn header_bytes(count: nat, total: nat, start_slot: nat) -> Seq<u8> {
    magic() + le_bytes(1, 4) + le_bytes(count, 8) + le_bytes(total, 8) + le_bytes(start_slot, 8)
}

/// The bytes of the records, one after the other.
pub open spec fn records_bytes(records: Seq<TraceRecord>) -> Seq<u8>
    decreases records.len(),
{
    if records.len() == 0 {
        Seq::empty()
    } else {
        records_bytes(records.drop_last()) + records.last().bytes()
    }
}

/// The bytes of a dump file.
pub open spec fn dump_bytes(records: Seq<TraceRecord>, total: nat, start_slot: nat) -> Seq<u8> {
    header_bytes(records.len(), total, start_slot) + records_bytes(records)
}

/// The bytes of a dump file that holds `records`.
pub fn dump_image(records: &Vec<TraceRecord>, total: u64, start_slot: u64) -> (image: Vec<u8>)
    ensures
        image@ == dump_bytes(records@, total as nat, start_slot as nat),
{
    let mut image: Vec<u8> = Vec::new();
    image.push(0x51);
    image.push(0x53);
    image.push(0x50);
    image.push(0x54);
    assert(image@ =~= magic());
    put(&mut image, 1, 4);
    put(&mut image, records.len() as u64, 8);
    put(&mut image, total, 8);
    put(&mut image, start_slot, 8);
    let ghost header = image@;
    let mut done: usize = 0;
    assert(image@ =~= header + records_bytes(records@.subrange(0, 0)));
    while done < records.len()
        invariant
            done <= records@.len(),
            header == header_bytes(records@.len(), total as nat, start_slot as nat),
            image@ == header + records_bytes(records@.subrange(0, done as int)),
        decreases records.len() - done,
    {
        records[done].write(&mut image);
        proof {
            let longer = records@.subrange(0, done + 1);
            assert(longer.drop_last() =~= records@.subrange(0, done as int));
        }
        done = done + 1;
    }
    assert(records@.subrange(0, done as int) =~= records@);
    image
}

/// Lays out the ring as a dump file. Without a trace there is no file.
pub fn dump(trace: &Option<TraceState>) -> (dump: Dump)
    requires
        *trace matches Some(state) ==> state.ring@.len() == RING_CAPACITY,
    ensures
        *trace is None ==> dump.image is None && dump.stats == (DumpStats {
            records_written: 0,
            total_events: 0,
            wrapped: false,
        }),
        *trace matches Some(state) ==> {
            let records = state.collected(state.first_ticket(), state.cursor as int);
            &&& dump.image matches Some(image) && image@ == dump_bytes(
                records,
                state.cursor as nat,
                slot_of(state.first_ticket()) as nat,
            )
            &&& dump.stats.records_written == records.len()
            &&& dump.stats.total_events == state.cursor
            &&& dump.stats.wrapped == (state.cursor > RING_CAPACITY)
            &&& state.wf() ==> dump.stats.wrapped == (dump.stats.records_written
                < dump.stats.total_events)
        },
{
    match trace {
        None => Dump {
            image: None,
            stats: DumpStats { records_written: 0, total_events: 0, wrapped: false },
        },
        Some(state) => {
            let total: u64 = state.cursor;
            let start_slot: usize = slot_index(total.saturating_sub(0x10_0000));
            let records: Vec<TraceRecord> = state.collect();
            let image: Vec<u8> = dump_image(&records, total, start_slot as u64);
            proof {
                if state.wf() {
                    law_collecting_misses_nothing(*state, state.cursor as int);
                }
            }
            Dump {
                image: Some(image),
                stats: DumpStats {
                    records_written: records.len() as u64,
                    total_events: total,
                    wrapped: total > 0x10_0000,
                },
            }
        },
    }
}

/// What stands in the record of an event: the nanoseconds since the start of the trace,
/// the code of the event, the reason, and the four values in their order.
pub proof fn law_event_is_recorded_as_it_was(
    start: Instant,
    now: Instant,
    event: SendPathEvent,
    reason: u8,
    values: (u64, u64, u64, u64),
)
    ensures
        ({
            let r = event_record(start, now, event, reason, values);
            &&& start.nanos <= now.nanos && now.nanos - start.nanos <= u64::MAX ==> r.ts_ns
                == now.nanos - start.nanos
            &&& start.nanos > now.nanos ==> r.ts_ns == 0
            &&& r.event == event.code() && 1 <= r.event <= 9 && r.reason == reason
            &&& r.val0 == values.0 && r.val1 == values.1 && r.val2 == values.2 && r.val3
                == values.3
            &&& r == r.unpadded()
        }),
{
}

/// A slot that has held no record yet gives none, whatever record is asked for.
pub proof fn law_vacant_slot_gives_nothing(generation: u64)
    requires
        generation > 0,
    ensures
        TraceSlot::vacant().loaded(generation) is None,
        TraceSlot::vacant() == (TraceSlot {
            generation: 0,
            ..TraceSlot::holding(0, TraceRecord {
                ts_ns: 0,
                event: 0,
                reason: 0,
                _pad: no_padding(),
                val0: 0,
                val1: 0,
                val2: 0,
                val3: 0,
            })
        }),
{
}

/// Different events have different codes, and different reasons too.
pub proof fn law_codes_tell_events_apart(
    a: SendPathEvent,
    b: SendPathEvent,
    c: PollTransmitExitReason,
    d: PollTransmitExitReason,
)
    ensures
        a.code() == b.code() ==> a == b,
        c.code() == d.code() ==> c == d,
{
}

/// The ring holds the last 1048576 records, or all where there are no more, the oldest
/// first.
pub proof fn law_ring_holds_a_million_records(state: TraceState, history: Seq<TraceRecord>, k: int)
    requires
        state.traces(history),
    ensures
        state.records().len() == (if history.len() <= 1_048_576 {
            history.len()
        } else {
            1_048_576
        }),
        0 <= k < state.records().len() ==> state.records()[k] == history[history.len()
            - state.records().len() + k],
{
}

/// Collecting goes from ticket to ticket: a record is taken exactly if its slot still
/// holds it, and it is taken as it stands there.
pub proof fn law_collecting_takes_what_still_stands(state: TraceState, from: int, to: int)
    requires
        0 <= from < to <= u64::MAX,
    ensures
        ({
            let slot = state.ring@[(to - 1) % 1_048_576];
            let before = state.collected(from, to - 1);
            let after = state.collected(from, to);
            &&& slot.generation == to ==> after == before.push(slot.content())
            &&& slot.generation != to ==> after == before
            &&& state.collected(from, from).len() == 0
        }),
{
}

} // verus!
