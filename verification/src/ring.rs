//! The ring of PCM bytes that the managed player reads from.
//!
//! Bytes are numbered by the order in which they were ever written: byte `n`
//! stands in the buffer at position `n % BUFFER_SIZE`.
use crate::ffi_types::AudioFormat;
use crate::sink::{SinkError, SinkErrorKind, WritePosition};
use vstd::prelude::*;

verus! {

/// The size of the ring in bytes.
pub const BUFFER_SIZE: usize = 128 * 1024;

/// Where in the buffer byte number `n` stands.
pub open spec fn slot(n: int) -> int {
    n % 131072
}

/// The ring and the numbers that the player reads along with it.
pub struct RingBuffer {
    buffer: Option<Vec<u8>>,
    write_sequence: u64,
    read_sequence: u64,
    generation: u64,
    generation_start_sequence: u64,
    state_version: u32,
}

/// What became of an attempt to write to the ring.
#[derive(Debug, Clone, Copy, PartialEq, Eq, Structural)]
pub enum RingWrite {
    /// Another backend was selected: nothing is written, and the write ends.
    Yielded,
    /// There is no room yet: the write is to be tried again later.
    Wait,
    /// All bytes are in the ring.
    Written,
}

/// The numbers that are read together as the state of the ring.
#[derive(Debug, Clone, Copy, PartialEq, Eq, Structural)]
pub struct RingSnapshot {
    pub generation: u64,
    pub generation_start_sequence: u64,
    pub write_sequence: u64,
}

impl RingBuffer {
    /// Whether there is memory for the bytes.
    pub closed spec fn allocated(&self) -> bool {
        self.buffer is Some
    }

    /// The bytes in the buffer.
    pub closed spec fn bytes(&self) -> Seq<u8> {
        self.buffer->0@
    }

    /// The number of the byte that is written next.
    pub closed spec fn write_seq(&self) -> u64 {
        self.write_sequence
    }

    /// The number of the byte that the player reads next.
    pub closed spec fn read_seq(&self) -> u64 {
        self.read_sequence
    }

    /// The state version: odd while a generation begins.
    pub closed spec fn version(&self) -> u32 {
        self.state_version
    }

    /// The number of the generation.
    pub closed spec fn generation_number(&self) -> u64 {
        self.generation
    }

    /// The number of the byte at which the generation began.
    pub closed spec fn generation_start(&self) -> u64 {
        self.generation_start_sequence
    }

    /// The numbers that are read together.
    pub open spec fn snapshot(&self) -> RingSnapshot {
        RingSnapshot {
            generation: self.generation_number(),
            generation_start_sequence: self.generation_start(),
            write_sequence: self.write_seq(),
        }
    }

    /// What another thread sees of the state.
    pub open spec fn shared(&self) -> SharedState {
        SharedState {
            version: self.version() as nat,
            generation: self.snapshot().generation as nat,
            start: self.snapshot().generation_start_sequence as nat,
        }
    }

    /// The buffer has its size, and nothing is read before it is written.
    pub closed spec fn wf(&self) -> bool {
        &&& self.buffer matches Some(b) ==> b@.len() == BUFFER_SIZE
        &&& self.read_sequence <= self.write_sequence
        &&& self.generation_start_sequence <= self.write_sequence
        &&& self.state_version % 2 == 0
    }

    /// The number of bytes that are in the ring and not read yet.
    pub open spec fn used(&self) -> int {
        let behind = self.write_seq() - self.read_seq();
        if behind < BUFFER_SIZE {
            behind
        } else {
            BUFFER_SIZE as int
        }
    }

    /// The bytes that are in the ring and not read yet, in the order in which
    /// they were written.
    pub open spec fn unread(&self) -> Seq<u8> {
        Seq::new(
            self.used() as nat,
            |i: int| self.bytes()[slot(self.write_seq() - self.used() + i)],
        )
    }

    /// Everything but the bytes and the numbers of the next bytes is the same.
    pub open spec fn same_generation(&self, other: &RingBuffer) -> bool {
        &&& self.snapshot().generation == other.snapshot().generation
        &&& self.snapshot().generation_start_sequence == other.snapshot().generation_start_sequence
        &&& self.version() == other.version()
        &&& self.allocated() == other.allocated()
    }

    /// A ring without memory, to which nothing was ever written.
    pub fn new() -> (ring: RingBuffer)
        ensures
            ring.wf(),
            !ring.allocated(),
            ring.write_seq() == 0,
            ring.read_seq() == 0,
            ring.version() == 0,
            ring.snapshot() == (RingSnapshot {
                generation: 0,
                generation_start_sequence: 0,
                write_sequence: 0,
            }),
    {
        RingBuffer {
            buffer: None,
            write_sequence: 0,
            read_sequence: 0,
            generation: 0,
            generation_start_sequence: 0,
            state_version: 0,
        }
    }

    /// Gives the ring memory, filled with zeros, if it has none.
    pub fn ensure_buffer_allocated(&mut self) -> (allocated: bool)
        requires
            old(self).wf(),
        ensures
            allocated,
            final(self).wf(),
            final(self).allocated(),
            old(self).allocated() ==> final(self).bytes() == old(self).bytes(),
            !old(self).allocated() ==> final(self).bytes() == Seq::new(
                BUFFER_SIZE as nat,
                |i: int| 0u8,
            ),
            final(self).write_seq() == old(self).write_seq(),
            final(self).read_seq() == old(self).read_seq(),
            final(self).version() == old(self).version(),
            final(self).snapshot() == old(self).snapshot(),
    {
        if self.buffer.is_none() {
            let fresh: Vec<u8> = vec![0u8; BUFFER_SIZE];
            assert(fresh@ =~= Seq::new(BUFFER_SIZE as nat, |i: int| 0u8));
            self.buffer = Some(fresh);
        }
        true
    }

    /// Begins a generation of audio at the byte that is written next, and
    /// returns its number.
    pub fn begin_generation(&mut self) -> (generation: u64)
        requires
            old(self).wf(),
            old(self).snapshot().generation < u64::MAX,
        ensures
            final(self).wf(),
            generation == old(self).snapshot().generation + 1,
            final(self).snapshot() == (RingSnapshot {
                generation,
                generation_start_sequence: old(self).write_seq(),
                write_sequence: old(self).write_seq(),
            }),
            final(self).version() as int == (old(self).version() + 2) % 0x1_0000_0000,
            old(self).version() + 2 <= u32::MAX ==> begins_in_steps(
                old(self).shared(),
                final(self).shared(),
            ),
            final(self).allocated() == old(self).allocated(),
            final(self).bytes() == old(self).bytes(),
            final(self).write_seq() == old(self).write_seq(),
            final(self).read_seq() == old(self).read_seq(),
    {
        self.state_version = self.state_version.wrapping_add(1);
        self.generation_start_sequence = self.write_sequence;
        self.generation = self.generation + 1;
        self.state_version = self.state_version.wrapping_add(1);
        self.generation
    }
}

/// A producer of the ring. It stops writing once another backend is selected.
#[derive(Debug, Clone, Copy, PartialEq, Eq, Structural)]
pub struct RingBufferSink {
    pub format: AudioFormat,
    pub selection_version: u64,
}

/// Whether a backend was selected since a sink was made.
pub fn selection_changed(sink_version: u64, current_version: u64) -> (changed: bool)
    ensures
        changed == (sink_version != current_version),
{
    sink_version != current_version
}

/// Copies `data` into `buffer` from position `cursor` on, going on at the
/// start where the end is reached.
fn copy_into_ring(buffer: &mut Vec<u8>, cursor: usize, data: &[u8])
    requires
        old(buffer)@.len() == BUFFER_SIZE,
        cursor < BUFFER_SIZE,
        data@.len() <= BUFFER_SIZE,
    ensures
        final(buffer)@.len() == BUFFER_SIZE,
        forall|i: int|
            0 <= i < data@.len() ==> #[trigger] final(buffer)@[slot(cursor + i)]
                == data@[i],
        forall|k: int|
            0 <= k < BUFFER_SIZE && slot(k - cursor) >= data@.len()
                ==> #[trigger] final(buffer)@[k] == old(buffer)@[k],
{
    let mut i: usize = 0;
    let mut at: usize = cursor;
    while i < data.len()
        invariant
            buffer@.len() == BUFFER_SIZE,
            cursor < BUFFER_SIZE,
            at < BUFFER_SIZE,
            i <= data@.len() <= BUFFER_SIZE == 131072,
            at == slot(cursor + i),
            forall|j: int|
                0 <= j < i ==> #[trigger] buffer@[slot(cursor + j)] == data@[j],
            forall|k: int|
                0 <= k < BUFFER_SIZE && slot(k - cursor) >= i
                    ==> #[trigger] buffer@[k] == old(buffer)@[k],
        decreases data@.len() - i,
    {
        let ghost before = buffer@;
        buffer.set(at, data[i]);
        proof {
            assert forall|j: int| 0 <= j < i + 1 implies #[trigger] buffer@[slot(cursor + j)]
                == data@[j] by {
                if j < i {
                    assert(slot(cursor + j) != at);
                    assert(before[slot(cursor + j)] == data@[j]);
                }
            }
        }
        i = i + 1;
        at = if at + 1 == BUFFER_SIZE {
            0
        } else {
            at + 1
        };
    }
}

impl RingBufferSink {
    /// A producer for the backend selection of the given version.
    pub fn new(format: AudioFormat, selection_version: u64) -> (sink: RingBufferSink)
        ensures
            sink.format == format,
            sink.selection_version == selection_version,
    {
        RingBufferSink { format, selection_version }
    }

    /// Whether a backend was selected since this producer was made.
    pub fn backend_selection_changed(&self, current_version: u64) -> (changed: bool)
        ensures
            changed == (self.selection_version != current_version),
    {
        selection_changed(self.selection_version, current_version)
    }

    /// Tries to write all of `data` to the ring.
    pub fn write_bytes(
        &self,
        ring: &mut RingBuffer,
        position: &mut WritePosition,
        current_version: u64,
        data: &[u8],
    ) -> (result: Result<RingWrite, SinkError>)
        requires
            old(ring).wf(),
            old(ring).write_seq() + data@.len() <= u64::MAX,
        ensures
            final(ring).wf(),
            final(ring).read_seq() == old(ring).read_seq(),
            final(ring).same_generation(old(ring)),
            result matches Ok(RingWrite::Yielded) <==> self.selection_version != current_version,
            result is Err <==> self.selection_version == current_version && !old(ring).allocated(),
            result matches Err(error) ==> error.is(
                SinkErrorKind::NotConnected,
                "ring buffer was not allocated"@,
            ),
            result matches Ok(RingWrite::Wait) <==> self.selection_version == current_version
                && old(ring).allocated() && old(ring).used() + data@.len() > BUFFER_SIZE,
            result matches Ok(RingWrite::Written) ==> {
                &&& final(ring).write_seq() == old(ring).write_seq() + data@.len()
                &&& final(ring).unread() == old(ring).unread() + data@
                &&& forall|i: int|
                    0 <= i < data@.len() ==> #[trigger] final(ring).bytes()[slot(
                        old(ring).write_seq() + i,
                    )] == data@[i]
                &&& forall|k: int|
                    0 <= k < BUFFER_SIZE && slot(k - old(ring).write_seq()) >= data@.len()
                        ==> #[trigger] final(ring).bytes()[k] == old(ring).bytes()[k]
                &&& final(position).total == crate::sink::counted(
                    old(position).total,
                    data@.len() as int,
                )
            },
            !(result matches Ok(RingWrite::Written)) ==> {
                &&& final(ring).bytes() == old(ring).bytes()
                &&& final(ring).write_seq() == old(ring).write_seq()
                &&& final(position).total == old(position).total
            },
    {
        if self.backend_selection_changed(current_version) {
            return Ok(RingWrite::Yielded);
        }
        if ring.buffer.is_none() {
            return Err(SinkError::not_connected("ring buffer was not allocated"));
        }
        let len: usize = data.len();
        let behind: u64 = ring.write_sequence - ring.read_sequence;
        let used: usize = if behind < BUFFER_SIZE as u64 {
            behind as usize
        } else {
            BUFFER_SIZE
        };
        if BUFFER_SIZE - used < len {
            return Ok(RingWrite::Wait);
        }
        let ghost before = *ring;
        let cursor: usize = (ring.write_sequence % BUFFER_SIZE as u64) as usize;
        if let Some(buffer) = &mut ring.buffer {
            copy_into_ring(buffer, cursor, data);
        }
        ring.write_sequence = ring.write_sequence + len as u64;
        position.advance(len);
        proof {
            lemma_unread_grows(&before, ring, cursor as int, data@);
            let start = before.write_sequence as int;
            assert forall|i: int| 0 <= i < data@.len() implies #[trigger] ring.bytes()[slot(
                start + i,
            )] == data@[i] by {
                assert(slot(start + i) == slot(cursor + i)) by {
                    vstd::arithmetic::div_mod::lemma_add_mod_noop(start, i, 131072);
                    vstd::arithmetic::div_mod::lemma_add_mod_noop(cursor as int, i, 131072);
                }
            }
            assert forall|k: int|
                0 <= k < BUFFER_SIZE && slot(k - start) >= data@.len() implies #[trigger]
                ring.bytes()[k] == before.bytes()[k] by {
                assert(slot(k - start) == slot(k - cursor)) by {
                    vstd::arithmetic::div_mod::lemma_sub_mod_noop(k, start, 131072);
                    vstd::arithmetic::div_mod::lemma_sub_mod_noop(k, cursor as int, 131072);
                }
            }
        }
        Ok(RingWrite::Written)
    }
}

proof fn lemma_unread_grows(before: &RingBuffer, after: &RingBuffer, cursor: int, data: Seq<u8>)
    requires
        before.wf(),
        after.wf(),
        before.allocated(),
        after.allocated(),
        cursor == slot(before.write_seq() as int),
        before.used() + data.len() <= BUFFER_SIZE,
        after.write_seq() == before.write_seq() + data.len(),
        after.read_seq() == before.read_seq(),
        forall|i: int|
            0 <= i < data.len() ==> #[trigger] after.bytes()[slot(cursor + i)]
                == data[i],
        forall|k: int|
            0 <= k < BUFFER_SIZE && slot(k - cursor) >= data.len()
                ==> #[trigger] after.bytes()[k] == before.bytes()[k],
    ensures
        after.unread() == before.unread() + data,
{
    let size = BUFFER_SIZE as int;
    let old_used = before.used();
    let new_used = after.used();
    if before.write_seq() - before.read_seq() >= size {
        assert(data.len() == 0);
    }
    assert(new_used == old_used + data.len());
    assert forall|i: int| 0 <= i < new_used implies #[trigger] after.unread()[i] == (before.unread()
        + data)[i] by {
        if i < old_used {
            let k = slot(before.write_seq() - old_used + i);
            assert(after.write_seq() - new_used + i == before.write_seq() - old_used + i);
            assert(slot(k - cursor) >= data.len()) by {
                assert(slot(k - cursor) == slot(i - old_used));
                assert(slot(i - old_used) == size + i - old_used);
            }
            assert(after.bytes()[k] == before.bytes()[k]);
        } else {
            let j = i - old_used;
            assert(after.write_seq() - new_used + i == before.write_seq() + j);
            assert(slot(before.write_seq() + j) == slot(cursor + j));
            assert(after.bytes()[slot(cursor + j)] == data[j]);
        }
    }
    assert(after.unread() =~= before.unread() + data);
}

/// The size of the ring in bytes.
pub fn librespot_audio_get_capacity() -> (capacity: usize)
    ensures
        capacity == 131072,
{
    BUFFER_SIZE
}

/// The memory of the ring, if it has any.
pub fn librespot_audio_get_buffer(ring: &RingBuffer) -> (buffer: Option<&Vec<u8>>)
    ensures
        buffer is Some <==> ring.allocated(),
        buffer matches Some(bytes) ==> bytes@ == ring.bytes(),
{
    ring.buffer.as_ref()
}

/// The numbers of the ring that are read together, and the state version.
pub fn librespot_audio_get_state(ring: &RingBuffer) -> (state: (RingSnapshot, u32))
    ensures
        state.0 == ring.snapshot(),
        state.1 == ring.version(),
{
    (
        RingSnapshot {
            generation: ring.generation,
            generation_start_sequence: ring.generation_start_sequence,
            write_sequence: ring.write_sequence,
        },
        ring.state_version,
    )
}

/// Where in the buffer the next byte is written.
pub fn librespot_audio_get_write_cursor(ring: &RingBuffer) -> (cursor: usize)
    ensures
        cursor == slot(ring.write_seq() as int),
{
    (ring.write_sequence % BUFFER_SIZE as u64) as usize
}

/// How far the position `position` in the buffer lies behind the next byte.
pub open spec fn cursor_distance(write_seq: u64, position: usize) -> int {
    slot(write_seq - position)
}

/// The number of the byte that is read next where the player reads at a position
/// in the buffer.
pub open spec fn read_at_cursor(write_seq: u64, position: usize) -> int {
    if cursor_distance(write_seq, position) <= write_seq {
        write_seq - cursor_distance(write_seq, position)
    } else {
        0
    }
}

/// The number of the byte that is read next where the player says which it is.
pub open spec fn read_at_sequence(write_seq: u64, sequence: u64) -> u64 {
    if sequence < write_seq {
        sequence
    } else {
        write_seq
    }
}

/// Tells the ring where in the buffer the player reads next.
pub fn librespot_audio_set_read_cursor(ring: &mut RingBuffer, position: usize)
    requires
        old(ring).wf(),
    ensures
        final(ring).wf(),
        final(ring).write_seq() == old(ring).write_seq(),
        final(ring).bytes() == old(ring).bytes(),
        final(ring).same_generation(old(ring)),
        final(ring).read_seq() == read_at_cursor(old(ring).write_seq(), position),
{
    let write_cursor: usize = (ring.write_sequence % BUFFER_SIZE as u64) as usize;
    let distance: usize = (BUFFER_SIZE + write_cursor - (position % BUFFER_SIZE)) % BUFFER_SIZE;
    proof {
        let start = ring.write_sequence as int;
        assert(write_cursor == start % 131072);
        assert(distance == (131072 + start % 131072 - position as int % 131072) % 131072);
        vstd::arithmetic::div_mod::lemma_sub_mod_noop(start, position as int, 131072);
        let difference = start % 131072 - position as int % 131072;
        assert((131072 + difference) % 131072 == difference % 131072);
        assert(distance == cursor_distance(ring.write_sequence, position));
    }
    ring.read_sequence = ring.write_sequence.saturating_sub(distance as u64);
}

/// Tells the ring the number of the byte that the player reads next.
pub fn librespot_audio_set_read_sequence(ring: &mut RingBuffer, sequence: u64)
    requires
        old(ring).wf(),
    ensures
        final(ring).wf(),
        final(ring).write_seq() == old(ring).write_seq(),
        final(ring).bytes() == old(ring).bytes(),
        final(ring).same_generation(old(ring)),
        final(ring).read_seq() == read_at_sequence(old(ring).write_seq(), sequence),
{
    ring.read_sequence = if sequence < ring.write_sequence {
        sequence
    } else {
        ring.write_sequence
    };
}

/// Reading on consumes the oldest unread bytes: after the player has moved on
/// by `n` of them, what is unread is what came after those.
pub proof fn law_reading_consumes_in_order(before: &RingBuffer, after: &RingBuffer, n: nat)
    requires
        before.write_seq() - before.read_seq() <= BUFFER_SIZE,
        n <= before.write_seq() - before.read_seq(),
        after.read_seq() == before.read_seq() + n,
        after.write_seq() == before.write_seq(),
        after.bytes() == before.bytes(),
    ensures
        after.unread() == before.unread().skip(n as int),
{
    assert(after.unread() =~= before.unread().skip(n as int));
}

/// The read cursor is where the player says: the byte that is read next stands
/// at the given position, if so much was ever written.
pub proof fn law_read_cursor_is_kept(write_seq: u64, position: usize)
    requires
        cursor_distance(write_seq, position) <= write_seq,
    ensures
        slot(write_seq - cursor_distance(write_seq, position)) == slot(position as int),
        0 <= cursor_distance(write_seq, position) < BUFFER_SIZE,
{
}

/// What was read, in this order: the version, the generation, its start, the
/// next byte, and the version again.
#[derive(Debug, Clone, Copy, PartialEq, Eq, Structural)]
pub struct Observation {
    pub before: u32,
    pub seen: RingSnapshot,
    pub after: u32,
}

/// What to do with an observation of a ring that is written to meanwhile.
#[derive(Debug, Clone, Copy, PartialEq, Eq, Structural)]
pub enum StateRead {
    /// The numbers belong together.
    Consistent(RingSnapshot),
    /// Observe again.
    Retry,
    /// Read the numbers once more and take them as they are.
    TakeAnything,
}

/// A reader of the ring's state that does not stop its writer.
#[derive(Debug, Clone, Copy, PartialEq, Eq, Structural)]
pub struct StateReader {
    pub failed: u8,
}

/// Whether the version was even and did not change while the numbers were
/// read.
pub open spec fn is_consistent(observation: Observation) -> bool {
    observation.before == observation.after && observation.before % 2 == 0
}

/// What to do with an observation after as many that were not consistent.
pub open spec fn judged(failed: u8, observation: Observation) -> StateRead {
    if is_consistent(observation) {
        StateRead::Consistent(observation.seen)
    } else if failed < 2 {
        StateRead::Retry
    } else {
        StateRead::TakeAnything
    }
}

impl StateReader {
    /// A reader that has observed nothing yet.
    pub fn new() -> (reader: StateReader)
        ensures
            reader.failed == 0,
    {
        StateReader { failed: 0 }
    }

    /// Judges an observation. The third one that is not consistent is the last.
    pub fn observe(&mut self, observation: Observation) -> (read: StateRead)
        requires
            old(self).failed < 3,
        ensures
            read == judged(old(self).failed, observation),
            final(self).failed == old(self).failed + if is_consistent(observation) {
                0int
            } else {
                1int
            },
    {
        let version: u32 = observation.before;
        assert(version & 1 == 0 <==> version % 2 == 0) by (bit_vector);
        if version == observation.after && version & 1 == 0 {
            return StateRead::Consistent(observation.seen);
        }
        self.failed = self.failed + 1;
        if self.failed < 3 {
            StateRead::Retry
        } else {
            StateRead::TakeAnything
        }
    }
}

/// The numbers of a ring as another thread sees them while a generation
/// begins. The version is counted without an end.
pub struct SharedState {
    pub version: nat,
    pub generation: nat,
    pub start: nat,
}

/// What the writer can do to the shared numbers in one step: nothing, or one of
/// the four stores with which a generation begins. Between the first and the
/// last of these the version is odd.
pub open spec fn writer_step(before: SharedState, after: SharedState) -> bool {
    ||| after == before
    ||| {
        &&& after.version == before.version + 1
        &&& after.generation == before.generation
        &&& after.start == before.start
    }
    ||| {
        &&& before.version % 2 == 1
        &&& after.version == before.version
    }
}

/// Whether the shared numbers go from `before` to `after` in the four steps of
/// a writer that opens a generation, stores its start and its number, and
/// closes it.
pub open spec fn begins_in_steps(before: SharedState, after: SharedState) -> bool {
    let opened = SharedState { version: before.version + 1, ..before };
    let started = SharedState { start: after.start, ..opened };
    let numbered = SharedState { generation: after.generation, ..started };
    &&& writer_step(before, opened)
    &&& writer_step(opened, started)
    &&& writer_step(started, numbered)
    &&& writer_step(numbered, after)
}

proof fn lemma_version_grows(trace: Seq<SharedState>, from: int, to: int)
    requires
        forall|t: int| 0 <= t < trace.len() - 1 ==> #[trigger] writer_step(trace[t], trace[t + 1]),
        0 <= from <= to < trace.len(),
    ensures
        trace[from].version <= trace[to].version,
        trace[from].version == trace[to].version && trace[from].version % 2 == 0 ==> trace[from]
            == trace[to],
    decreases to - from,
{
    if from < to {
        lemma_version_grows(trace, from, to - 1);
        assert(writer_step(trace[to - 1], trace[to - 1 + 1]));
    }
}

/// A consistent observation never mixes two generations: whatever the writer
/// does while the four numbers are read at the times `t0 <= t1 <= t2 <= t3`, if
/// the version is even and the same at both ends, then the generation and its
/// start are those of the moment at which the reading began.
pub proof fn law_consistent_state_is_one_generation(
    trace: Seq<SharedState>,
    t0: int,
    t1: int,
    t2: int,
    t3: int,
)
    requires
        forall|t: int| 0 <= t < trace.len() - 1 ==> #[trigger] writer_step(trace[t], trace[t + 1]),
        0 <= t0 <= t1 <= t2 <= t3 < trace.len(),
        trace[t0].version == trace[t3].version,
        trace[t0].version % 2 == 0,
    ensures
        trace[t1].generation == trace[t0].generation,
        trace[t2].start == trace[t0].start,
{
    lemma_version_grows(trace, t0, t1);
    lemma_version_grows(trace, t1, t3);
    lemma_version_grows(trace, t0, t2);
    lemma_version_grows(trace, t2, t3);
}

/// What is in the ring and not read is what was written since, as far as the
/// ring can hold it.
pub proof fn law_the_ring_holds_what_was_not_read(ring: &RingBuffer)
    requires
        ring.wf(),
    ensures
        0 <= ring.used() <= 131_072,
        ring.write_seq() - ring.read_seq() <= 131_072 ==> ring.used() == ring.write_seq()
            - ring.read_seq(),
        ring.write_seq() - ring.read_seq() > 131_072 ==> ring.used() == 131_072,
        ring.unread().len() == ring.used(),
        forall|i: int|
            0 <= i < ring.used() ==> #[trigger] ring.unread()[i] == ring.bytes()[(ring.write_seq()
                - ring.used() + i) % 131_072],
{
}

/// An observation is taken only if the version was even and the same before and
/// after it, and then it never mixes two generations.
pub proof fn law_a_torn_observation_is_not_taken(
    observation: Observation,
    trace: Seq<SharedState>,
    t0: int,
    t1: int,
    t2: int,
    t3: int,
)
    requires
        is_consistent(observation),
        forall|t: int| 0 <= t < trace.len() - 1 ==> #[trigger] writer_step(trace[t], trace[t + 1]),
        0 <= t0 <= t1 <= t2 <= t3 < trace.len(),
        observation.before == trace[t0].version,
        observation.seen.generation == trace[t1].generation,
        observation.seen.generation_start_sequence == trace[t2].start,
        observation.after == trace[t3].version,
    ensures
        observation.seen.generation == trace[t0].generation,
        observation.seen.generation_start_sequence == trace[t0].start,
{
    law_consistent_state_is_one_generation(trace, t0, t1, t2, t3);
}

/// An observation with an even version that did not change is taken.
pub proof fn law_a_quiet_observation_is_taken(observation: Observation)
    requires
        observation.before == observation.after,
        observation.before % 2 == 0,
    ensures
        is_consistent(observation),
{
}

/// A reader hands on just what it observed, as soon as that belongs together, and
/// observes no more than three times.
pub proof fn law_a_reader_observes_three_times(failed: u8, observation: Observation)
    ensures
        is_consistent(observation) ==> judged(failed, observation) == StateRead::Consistent(
            observation.seen,
        ),
        !is_consistent(observation) ==> (judged(failed, observation) is Retry <==> failed + 1 < 3),
        !is_consistent(observation) ==> (judged(failed, observation) is TakeAnything <==> failed + 1
            >= 3),
{
}

/// The byte that the player reads next stands where the player says, if so much
/// was ever written, and is less than a whole ring behind the next one. A number
/// that was not written yet counts as the next one.
pub proof fn law_the_player_reads_where_it_says(write_seq: u64, position: usize, sequence: u64)
    ensures
        0 <= read_at_cursor(write_seq, position) <= write_seq,
        write_seq - read_at_cursor(write_seq, position) < 131_072,
        write_seq >= 131_072 ==> read_at_cursor(write_seq, position) % 131_072 == position as int
            % 131_072,
        read_at_sequence(write_seq, sequence) <= write_seq,
        sequence <= write_seq ==> read_at_sequence(write_seq, sequence) == sequence,
        sequence > write_seq ==> read_at_sequence(write_seq, sequence) == write_seq,
{
}

/// A generation begins in steps that another thread may look on: its version is
/// odd, and no other, while its start and its number change, and is even again
/// when all is done.
pub proof fn law_a_generation_begins_under_an_odd_version(
    before: SharedState,
    after: SharedState,
)
    requires
        before.version % 2 == 0,
        after.version == before.version + 2,
        begins_in_steps(before, after),
    ensures
        exists|opened: SharedState, numbered: SharedState|
            {
                &&& opened.version == before.version + 1 == numbered.version
                &&& opened.generation == before.generation && opened.start == before.start
                &&& numbered.generation == after.generation && numbered.start == after.start
                &&& #[trigger] writer_step(before, opened)
                &&& #[trigger] writer_step(numbered, after)
            },
{
    let opened = SharedState { version: before.version + 1, ..before };
    let numbered = SharedState {
        version: before.version + 1,
        generation: after.generation,
        start: after.start,
    };
    assert(writer_step(before, opened));
    assert(writer_step(numbered, after));
}

/// Writing and reading on leave the generation alone: whoever looks at the state
/// sees the version, the number and the start that it had.
pub proof fn law_the_generation_is_left_alone(before: RingBuffer, after: RingBuffer)
    requires
        after.same_generation(&before),
    ensures
        after.shared() == before.shared(),
        after.version() == before.version(),
        after.generation_number() == before.generation_number(),
        after.generation_start() == before.generation_start(),
        after.allocated() == before.allocated(),
        after.snapshot().write_sequence == after.write_seq(),
        after.snapshot().generation == after.generation_number(),
        after.snapshot().generation_start_sequence == after.generation_start(),
        after.shared().version == after.version(),
        after.shared().generation == after.generation_number(),
        after.shared().start == after.generation_start(),
{
}

} // verus!
