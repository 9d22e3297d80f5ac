//! The layout of the shared-memory file: one global header, then two rings.

use vstd::prelude::*;

use crate::error::{Error, Result};

verus! {

/// Magic number of the shared-memory file ("SHMC").
pub const MAGIC: u32 = 0x5348_4D43;

/// Protocol version.
pub const VERSION: u32 = 1;

/// Bytes reserved for the global header.
pub const GLOBAL_HEADER_SIZE: usize = 256;

/// Bytes of a ring header: two cache lines.
pub const RING_HEADER_SIZE: usize = 128;

/// The life of a channel.
///
/// ```text
/// Init(0) → ServerReady(1) → Connected(2) → Closing(3) → Closed(4)
/// ```
#[derive(Debug, Clone, Copy, PartialEq, Eq, Structural)]
pub enum ChannelState {
    /// Being initialised.
    Init,
    /// The server has written the headers; the client may connect.
    ServerReady,
    /// The client is connected.
    Connected,
    /// One side has begun to close.
    Closing,
    /// Closed.
    Closed,
}

impl ChannelState {
    /// The word that stands for this state in shared memory.
    pub open spec fn code(self) -> u32 {
        match self {
            ChannelState::Init => 0,
            ChannelState::ServerReady => 1,
            ChannelState::Connected => 2,
            ChannelState::Closing => 3,
            ChannelState::Closed => 4,
        }
    }

    /// Whether messages may be sent in this state.
    pub open spec fn active(self) -> bool {
        self == ChannelState::ServerReady || self == ChannelState::Connected
    }

    /// The word that stands for this state in shared memory.
    pub fn to_u32(self) -> (r: u32)
        ensures
            r == self.code(),
    {
        match self {
            ChannelState::Init => 0,
            ChannelState::ServerReady => 1,
            ChannelState::Connected => 2,
            ChannelState::Closing => 3,
            ChannelState::Closed => 4,
        }
    }

    /// The state that a word stands for.
    pub fn from_u32(v: u32) -> (r: Option<Self>)
        ensures
            r is Some ==> r->0.code() == v,
            r is None ==> stands_for_no_state(v),
    {
        match v {
            0 => Some(ChannelState::Init),
            1 => Some(ChannelState::ServerReady),
            2 => Some(ChannelState::Connected),
            3 => Some(ChannelState::Closing),
            4 => Some(ChannelState::Closed),
            _ => None,
        }
    }

    /// Whether messages may be sent in this state.
    pub fn is_active(self) -> (r: bool)
        ensures
            r == self.active(),
    {
        matches!(self, ChannelState::ServerReady | ChannelState::Connected)
    }
}

/// Whether no state has this word.
pub open spec fn stands_for_no_state(v: u32) -> bool {
    forall|state: ChannelState| #[trigger] state.code() != v
}

/// Whether the state word lets messages be sent.
pub open spec fn active_code(v: u32) -> bool {
    v == ChannelState::ServerReady.code() || v == ChannelState::Connected.code()
}

/// Different states have different words.
pub proof fn law_state_codes_distinct(a: ChannelState, b: ChannelState)
    requires
        a.code() == b.code(),
    ensures
        a == b,
{
}

/// The words of the global header, as read from or to be written to shared memory.
///
/// The server writes it when it creates the channel; the client checks it when it
/// connects.
#[derive(Debug, Clone, Copy, PartialEq, Eq, Structural)]
pub struct GlobalHeader {
    pub magic: u32,
    pub version: u32,
    pub ring_data_size: u32,
    pub server_pid: u64,
    pub client_pid: u64,
    pub server_heartbeat: u64,
    pub client_heartbeat: u64,
    pub state: u32,
}

impl GlobalHeader {
    /// Whether the header is one of this protocol version.
    pub open spec fn valid(self) -> bool {
        self.magic == MAGIC && self.version == VERSION
    }

    /// Checks magic number and version.
    pub fn validate(&self) -> (r: Result<()>)
        ensures
            self.valid() ==> r == Ok::<(), Error>(()),
            !self.valid() ==> r == Err::<(), Error>(Error::InvalidHeader),
    {
        if self.magic != MAGIC || self.version != VERSION {
            return Err(Error::InvalidHeader);
        }
        Ok(())
    }
}

/// The writer's cache line of a ring.
///
/// Only the writer moves `write_cursor`; the reader only reads it. The writer bumps
/// `notify` after each message. The reader sets `parked` right before it sleeps on
/// `notify` and clears it afterwards; the writer wakes it only where `parked` is set.
#[derive(Debug, Clone, Copy, PartialEq, Eq, Structural)]
pub struct WriteCursorLine {
    pub write_cursor: u64,
    pub notify: u32,
    pub parked: u32,
}

/// The reader's cache line of a ring.
///
/// Only the reader moves `read_cursor`; the writer only reads it. The reader bumps
/// `notify` after each message. The writer sets `parked` right before it sleeps on
/// `notify` and clears it afterwards.
#[derive(Debug, Clone, Copy, PartialEq, Eq, Structural)]
pub struct ReadCursorLine {
    pub read_cursor: u64,
    pub notify: u32,
    pub parked: u32,
}

/// The header of one ring.
#[derive(Debug, Clone, Copy, PartialEq, Eq, Structural)]
pub struct RingHeader {
    pub writer: WriteCursorLine,
    pub reader: ReadCursorLine,
}

impl RingHeader {
    /// The header of a ring that nothing was written to.
    pub open spec fn fresh() -> Self {
        RingHeader {
            writer: WriteCursorLine { write_cursor: 0, notify: 0, parked: 0 },
            reader: ReadCursorLine { read_cursor: 0, notify: 0, parked: 0 },
        }
    }

    /// The notification word of a line.
    pub open spec fn word(self, line: RingLine) -> u32 {
        match line {
            RingLine::Writer => self.writer.notify,
            RingLine::Reader => self.reader.notify,
        }
    }

    /// The header with both notification words bumped, so that whoever sleeps on
    /// either wakes and looks again.
    pub open spec fn bumped(self) -> Self {
        RingHeader {
            writer: WriteCursorLine { notify: bump(self.writer.notify), ..self.writer },
            reader: ReadCursorLine { notify: bump(self.reader.notify), ..self.reader },
        }
    }

    /// The header of a ring that nothing was written to.
    pub fn new() -> (r: Self)
        ensures
            r == Self::fresh(),
    {
        RingHeader {
            writer: WriteCursorLine { write_cursor: 0, notify: 0, parked: 0 },
            reader: ReadCursorLine { read_cursor: 0, notify: 0, parked: 0 },
        }
    }

    /// Bumps both notification words.
    pub fn notify_all(&mut self)
        ensures
            *final(self) == old(self).bumped(),
    {
        self.writer.notify = self.writer.notify.wrapping_add(1);
        self.reader.notify = self.reader.notify.wrapping_add(1);
    }
}

/// The next value of a notification word.
pub open spec fn bump(v: u32) -> u32 {
    if v == u32::MAX {
        0
    } else {
        (v + 1) as u32
    }
}

/// A bumped word differs from the word before: a sleeper that compares the two wakes.
pub proof fn law_bump_changes(v: u32)
    ensures
        bump(v) != v,
{
}

/// `word` after it was bumped `times` times.
pub open spec fn bumped_times(word: u32, times: nat) -> u32
    decreases times,
{
    if times == 0 {
        word
    } else {
        bump(bumped_times(word, (times - 1) as nat))
    }
}

/// Bumping counts modulo 2^32.
pub proof fn lemma_bumped_times(word: u32, times: nat)
    ensures
        bumped_times(word, times) == (word + times) % 0x1_0000_0000,
    decreases times,
{
    if times > 0 {
        lemma_bumped_times(word, (times - 1) as nat);
    }
}

/// Where each part of the shared-memory file begins.
#[derive(Debug, Clone, Copy, PartialEq, Eq, Structural)]
pub struct RingOffsets {
    /// Header of ring A, server to client.
    pub ring_a_header: usize,
    /// Data of ring A.
    pub ring_a_data: usize,
    /// Header of ring B, client to server.
    pub ring_b_header: usize,
    /// Data of ring B.
    pub ring_b_data: usize,
    /// Size of the whole file.
    pub total_size: usize,
}

/// The size of the file for rings of `ring_data_size` bytes.
pub open spec fn file_size(ring_data_size: int) -> int {
    GLOBAL_HEADER_SIZE + 2 * (RING_HEADER_SIZE + ring_data_size)
}

/// One of the two rings of a channel.
#[derive(Debug, Clone, Copy, PartialEq, Eq, Structural)]
pub enum RingId {
    /// Server to client.
    A,
    /// Client to server.
    B,
}

/// One of the two lines of a ring's header. Each holds a cursor, the notification word that
/// whoever moves the cursor bumps, and the parked word of whoever waits for that.
#[derive(Debug, Clone, Copy, PartialEq, Eq, Structural)]
pub enum RingLine {
    /// The writer's line: the reader waits on it.
    Writer,
    /// The reader's line: the writer waits on it.
    Reader,
}

/// The words that a wait is on: those of one line of one ring.
#[derive(Debug, Clone, Copy, PartialEq, Eq, Structural)]
pub struct WaitTarget {
    pub ring: RingId,
    pub line: RingLine,
}

impl RingOffsets {
    /// The layout: global header, header and data of ring A, header and data of ring
    /// B, without a gap.
    pub open spec fn layout(ring_data_size: int) -> Self {
        let ring = RING_HEADER_SIZE + ring_data_size;
        RingOffsets {
            ring_a_header: GLOBAL_HEADER_SIZE,
            ring_a_data: (GLOBAL_HEADER_SIZE + RING_HEADER_SIZE) as usize,
            ring_b_header: (GLOBAL_HEADER_SIZE + ring) as usize,
            ring_b_data: (GLOBAL_HEADER_SIZE + ring + RING_HEADER_SIZE) as usize,
            total_size: file_size(ring_data_size) as usize,
        }
    }

    /// Where the header and the data of a ring lie.
    pub open spec fn place(self, ring: RingId) -> (usize, usize) {
        match ring {
            RingId::A => (self.ring_a_header, self.ring_a_data),
            RingId::B => (self.ring_b_header, self.ring_b_data),
        }
    }

    /// Lays the file out.
    pub fn new(ring_data_size: usize) -> (r: Self)
        requires
            file_size(ring_data_size as int) <= usize::MAX,
        ensures
            r == RingOffsets::layout(ring_data_size as int),
    {
        let ring_total: usize = RING_HEADER_SIZE + ring_data_size;
        RingOffsets {
            ring_a_header: GLOBAL_HEADER_SIZE,
            ring_a_data: GLOBAL_HEADER_SIZE + RING_HEADER_SIZE,
            ring_b_header: GLOBAL_HEADER_SIZE + ring_total,
            ring_b_data: GLOBAL_HEADER_SIZE + ring_total + RING_HEADER_SIZE,
            total_size: GLOBAL_HEADER_SIZE + ring_total * 2,
        }
    }

    /// Where the header and the data of a ring lie.
    pub fn ring(&self, ring: RingId) -> (r: (usize, usize))
        ensures
            r == self.place(ring),
    {
        match ring {
            RingId::A => (self.ring_a_header, self.ring_a_data),
            RingId::B => (self.ring_b_header, self.ring_b_data),
        }
    }
}

/// The parts of the file follow one another: the global header, then header and data of
/// either ring. So no two of them overlap and all of them lie in the file.
pub proof fn law_parts_of_the_file_do_not_overlap(ring_data_size: int)
    requires
        0 <= ring_data_size,
        file_size(ring_data_size) <= usize::MAX,
    ensures
        ({
            let layout = RingOffsets::layout(ring_data_size);
            let (a_header, a_data) = layout.place(RingId::A);
            let (b_header, b_data) = layout.place(RingId::B);
            &&& GLOBAL_HEADER_SIZE <= a_header
            &&& a_header + RING_HEADER_SIZE <= a_data
            &&& a_data + ring_data_size <= b_header
            &&& b_header + RING_HEADER_SIZE <= b_data
            &&& b_data + ring_data_size <= layout.total_size
        }),
{
}

/// The words of the states, in both directions: 0 to 4, in the order of a channel's life. A word
/// above 4 stands for no state. Messages may be sent in states 1 and 2 alone.
pub proof fn law_states_and_their_words(
    state: ChannelState,
    word: u32,
    told: u32,
    heard: Option<ChannelState>,
    active: bool,
)
    requires
        call_ensures(ChannelState::to_u32, (state,), told),
        call_ensures(ChannelState::from_u32, (word,), heard),
        call_ensures(ChannelState::is_active, (state,), active),
    ensures
        state is Init <==> told == 0,
        state is ServerReady <==> told == 1,
        state is Connected <==> told == 2,
        state is Closing <==> told == 3,
        state is Closed <==> told == 4,
        told <= 4,
        heard is Some <==> word <= 4,
        word == told ==> heard == Some(state),
        active <==> told == 1 || told == 2,
        active_code(word) <==> word == 1 || word == 2,
{
    if word <= 4 && heard is None {
        assert(ChannelState::Init.code() != word);
        assert(ChannelState::ServerReady.code() != word);
        assert(ChannelState::Connected.code() != word);
        assert(ChannelState::Closing.code() != word);
        assert(ChannelState::Closed.code() != word);
    }
}

/// A header is one of this protocol where it begins with "SHMC" and the version is 1, and is
/// refused otherwise, whatever else it holds.
pub proof fn law_foreign_header_is_refused(header: GlobalHeader, r: Result<()>)
    requires
        call_ensures(GlobalHeader::validate, (&header,), r),
    ensures
        r is Ok <==> header.magic == 0x5348_4D43 && header.version == 1,
        r is Err ==> r == Err::<(), Error>(Error::InvalidHeader),
{
}

/// A new ring is empty, with nothing to be told and nobody parked. Waking everybody counts both
/// notification words up by one, round from the last to 0, and touches nothing else.
pub proof fn law_everybody_is_told(fresh: RingHeader)
    requires
        call_ensures(RingHeader::new, (), fresh),
    ensures
        fresh.writer.write_cursor == 0 && fresh.writer.notify == 0 && fresh.writer.parked == 0,
        fresh.reader.read_cursor == 0 && fresh.reader.notify == 0 && fresh.reader.parked == 0,
        forall|ring: &mut RingHeader| #[trigger]
            call_ensures(RingHeader::notify_all, (ring,), ()) ==> {
                &&& final(ring).writer.notify == (ring.writer.notify + 1) % 0x1_0000_0000
                &&& final(ring).reader.notify == (ring.reader.notify + 1) % 0x1_0000_0000
                &&& final(ring).writer.write_cursor == ring.writer.write_cursor
                &&& final(ring).reader.read_cursor == ring.reader.read_cursor
                &&& final(ring).writer.parked == ring.writer.parked
                &&& final(ring).reader.parked == ring.reader.parked
            },
{
}

/// The file is 256 bytes of global header, then for either ring 128 bytes of header and its data,
/// without a gap: the server's ring first.
pub proof fn law_file_has_no_gaps(
    size: usize,
    layout: RingOffsets,
    a: (usize, usize),
    b: (usize, usize),
)
    requires
        512 + 2 * size <= usize::MAX,
        call_ensures(RingOffsets::new, (size,), layout),
        call_ensures(RingOffsets::ring, (&layout, RingId::A), a),
        call_ensures(RingOffsets::ring, (&layout, RingId::B), b),
    ensures
        call_requires(RingOffsets::new, (size,)),
        a.0 == 256,
        a.1 == 384,
        b.0 == 384 + size,
        b.1 == 512 + size,
        layout.total_size == 512 + 2 * size,
        layout.ring_a_header == a.0 && layout.ring_a_data == a.1,
        layout.ring_b_header == b.0 && layout.ring_b_data == b.1,
{
}

} // verus!
