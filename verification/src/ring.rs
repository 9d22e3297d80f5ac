//! One direction of a channel: a writer and a reader on a ring of bytes.
//!
//! The writer owns the write cursor and the free bytes, the reader owns the read
//! cursor; each only loads what the other owns. What an endpoint loaded from shared
//! memory is handed in as plain values, what it is to store comes back in the line it
//! owns and in the data.

use vstd::arithmetic::power2::is_pow2;
use vstd::prelude::*;

use crate::circular::{read_ring, write_ring};
#[allow(unused_imports)]
use crate::circular::{lemma_overwrite_joins, overwrite, window};
use crate::error::{Error, Result};
use crate::header::{ChannelState, ReadCursorLine, RingLine, WriteCursorLine};
#[allow(unused_imports)]
use crate::header::{active_code, bump};
use crate::platform::peer::PeerState;
use crate::record::{from_le32, to_le32, MSG_HEADER_SIZE};
#[allow(unused_imports)]
use crate::record::{le32, record, record_len, record_seq};
use crate::wait::{WaitAction, WaitEvent, WaitStrategy};

verus! {

/// Bytes of a ring unless the configuration says otherwise.
pub const DEFAULT_RING_DATA_SIZE: usize = 16 * 1024 * 1024;

/// Whether the channel may be used, as loaded: first what the watch over the peer's
/// process has found, then the state word.
#[derive(Debug, Clone, Copy)]
pub struct ChannelStatus {
    pub peer: PeerState,
    pub state: u32,
}

impl ChannelStatus {
    /// Why the channel may not be used: a published close comes before whatever the
    /// watch over the peer's process has found.
    pub open spec fn terminal(self) -> Option<Error> {
        if !active_code(self.state) {
            Some(Error::ChannelClosed)
        } else {
            self.peer.terminal_error()
        }
    }

    /// Whether the channel may be used.
    pub fn check_channel_active(&self) -> (r: Result<()>)
        ensures
            match self.terminal() {
                None => r == Ok::<(), Error>(()),
                Some(e) => r == Err::<(), Error>(e),
            },
    {
        match ChannelState::from_u32(self.state) {
            Some(state) => {
                if !state.is_active() {
                    return Err(Error::ChannelClosed);
                }
            },
            None => {
                proof {
                    assert(ChannelState::ServerReady.code() != self.state);
                    assert(ChannelState::Connected.code() != self.state);
                }
                return Err(Error::ChannelClosed);
            },
        }
        match self.peer.error() {
            Some(e) => Err(e),
            None => Ok(()),
        }
    }
}

/// What a writer loads before it acts.
#[derive(Debug, Clone, Copy)]
pub struct SendView {
    pub status: ChannelStatus,
    pub read_cursor: u64,
}

/// What a reader loads before it acts: the write cursor, the status, and the write
/// cursor once more, so that what was published before the channel ended is seen.
#[derive(Debug, Clone, Copy)]
pub struct RecvView {
    pub write_cursor: u64,
    pub status: ChannelStatus,
    pub write_cursor_again: u64,
}

/// Whether a message could be put in the ring.
#[derive(Debug, Clone, Copy, PartialEq, Eq, Structural)]
pub enum TrySendResult {
    Sent,
    Full,
}

/// A message that was found and not yet taken.
#[derive(Debug, Clone, Copy, PartialEq, Eq, Structural)]
pub struct PeekedMessage {
    pub read_cursor: u64,
    pub payload_len: usize,
    pub seq: u32,
}

impl PeekedMessage {
    /// The length of the payload.
    pub fn payload_len(self) -> (r: usize)
        ensures
            r == self.payload_len,
    {
        self.payload_len
    }

    /// Where the message after this one begins.
    pub open spec fn end(self) -> int {
        self.read_cursor + MSG_HEADER_SIZE + self.payload_len
    }
}

/// Whether a message was found.
#[derive(Debug, Clone, Copy, PartialEq, Eq, Structural)]
pub enum TryPeekResult {
    Empty,
    Ready(PeekedMessage),
}

/// What a writer knows: the size of the ring, the number of the next message, where it
/// will be written, and up to where the reader was last seen to have read.
pub struct SenderView {
    pub size: int,
    pub next_seq: u32,
    pub wc: int,
    pub rc: int,
}

impl SenderView {
    /// Never more unread bytes than the ring holds.
    pub open spec fn valid(self) -> bool {
        &&& is_pow2(self.size)
        &&& 0 < self.size <= usize::MAX
        &&& 0 <= self.rc <= self.wc <= u64::MAX
        &&& self.wc - self.rc <= self.size
    }

    /// Whether `rc` can be how far the reader has read.
    pub open spec fn plausible(self, rc: int) -> bool {
        rc <= self.wc <= rc + self.size
    }

    /// Whether a message fits while the reader has read up to `rc`.
    pub open spec fn has_room(self, rc: int, payload_len: int) -> bool {
        self.size - (self.wc - rc) >= MSG_HEADER_SIZE + payload_len
    }

    /// Whether a message fits in the empty ring.
    pub open spec fn can_hold(self, payload_len: int) -> bool {
        MSG_HEADER_SIZE + payload_len <= self.size
    }

    /// The longest payload that the ring can hold.
    pub open spec fn max_payload(self) -> int {
        self.size - MSG_HEADER_SIZE
    }

    /// Whether the write cursor can count a message of `payload_len` bytes more.
    pub open spec fn can_count(self, payload_len: int) -> bool {
        self.wc + MSG_HEADER_SIZE + payload_len <= u64::MAX
    }

    /// Whether sending `payload_len` bytes can be tried on a ring of `ring_len` bytes. While
    /// the channel is in use the ring can hold a record; the read cursor is plausible where
    /// it is looked at, and the write cursor can be moved where the message is published.
    pub open spec fn may_try(self, view: SendView, ring_len: int, payload_len: int) -> bool {
        &&& self.valid()
        &&& self.size == ring_len
        &&& view.status.terminal() is None ==> self.size >= MSG_HEADER_SIZE
        &&& view.status.terminal() is None && self.can_hold(payload_len) ==> {
            &&& self.has_room(self.rc, payload_len) || self.plausible(view.read_cursor as int)
            &&& self.has_room(self.rc, payload_len) || self.has_room(
                view.read_cursor as int,
                payload_len,
            ) ==> self.can_count(payload_len)
        }
    }

    /// Whether a step of a blocking send of `payload_len` bytes can be taken on a ring of
    /// `ring_len` bytes. A message that the ring cannot hold is refused before anything is
    /// looked at; the first step tries to send; a later one looks at the read cursor.
    pub open spec fn ready(
        self,
        view: SendView,
        ring_len: int,
        payload_len: int,
        waiting: bool,
    ) -> bool {
        &&& self.valid()
        &&& self.size == ring_len
        &&& self.size >= MSG_HEADER_SIZE
        &&& self.can_hold(payload_len) && !waiting ==> self.may_try(view, ring_len, payload_len)
        &&& self.can_hold(payload_len) && waiting ==> {
            &&& self.plausible(view.read_cursor as int)
            &&& view.status.terminal() is None && self.has_room(
                view.read_cursor as int,
                payload_len,
            ) ==> self.can_count(payload_len)
        }
    }

    /// The writer after it saw the reader at `rc`.
    pub open spec fn seeing(self, rc: int) -> SenderView {
        SenderView { rc, ..self }
    }

    /// The writer after it published a message.
    pub open spec fn advanced(self, payload_len: int) -> SenderView {
        SenderView {
            wc: self.wc + MSG_HEADER_SIZE + payload_len,
            next_seq: bump(self.next_seq),
            ..self
        }
    }

    /// The writer after it tried to send: it looks at a fresh read cursor only where the
    /// one it knows leaves too little room.
    pub open spec fn looked(self, rc: int, payload_len: int) -> SenderView {
        if self.has_room(self.rc, payload_len) {
            self
        } else {
            self.seeing(rc)
        }
    }
}

/// What an attempt to send comes to.
pub open spec fn send_result(v: SenderView, view: SendView, payload_len: int) -> Result<
    TrySendResult,
> {
    match view.status.terminal() {
        Some(e) => Err(e),
        None => if !v.can_hold(payload_len) {
            Err(
                Error::MessageTooLarge {
                    size: payload_len as usize,
                    max: v.max_payload() as usize,
                },
            )
        } else if v.looked(view.read_cursor as int, payload_len).has_room(
            v.looked(view.read_cursor as int, payload_len).rc,
            payload_len,
        ) {
            Ok(TrySendResult::Sent)
        } else {
            Ok(TrySendResult::Full)
        },
    }
}

/// The writer's line after a message was published.
pub open spec fn published(line: WriteCursorLine, wc: int) -> WriteCursorLine {
    WriteCursorLine { write_cursor: wc as u64, notify: bump(line.notify), parked: line.parked }
}

/// A message was published and nothing else changed.
pub open spec fn message_sent(
    before: SenderView,
    after: SenderView,
    line_before: WriteCursorLine,
    line_after: WriteCursorLine,
    data_before: Seq<u8>,
    data_after: Seq<u8>,
    payload: Seq<u8>,
) -> bool {
    &&& after == before.advanced(payload.len() as int)
    &&& line_after == published(line_before, after.wc)
    &&& data_after == overwrite(data_before, before.wc, record(payload, before.next_seq))
}

/// What a writer that waits for room sees: enough room, or that the wait is pointless,
/// or neither.
pub open spec fn room_look(v: SenderView, view: SendView, payload_len: int) -> Result<bool> {
    if v.has_room(view.read_cursor as int, payload_len) {
        Ok(true)
    } else {
        match view.status.terminal() {
            Some(e) => Err(e),
            None => Ok(false),
        }
    }
}

/// The writer of a ring.
pub struct RingSender {
    ring_data_size: usize,
    next_seq: u32,
    cached_wc: u64,
    cached_rc: u64,
}

/// Where a blocking operation stands after a step.
#[derive(Debug)]
pub enum Step<T> {
    /// The action to perform before the next step. The notification word and the parked
    /// word that it speaks of are those of this line of the ring.
    Act(RingLine, WaitAction),
    /// The operation is over; where `unpark` names a line, 0 is to be stored to its parked
    /// word first.
    Done { unpark: Option<RingLine>, result: Result<T> },
}

/// A blocking operation under way.
#[derive(Debug)]
pub enum BlockingOp<Op> {
    /// Nothing done yet.
    Start,
    /// Waiting for the peer.
    Waiting(Op),
}

/// The wait inside a blocking operation, and the event that it is to take next.
pub open spec fn current_wait<W: WaitStrategy>(
    wait: &W,
    timeout: Option<u128>,
    op: BlockingOp<W::Op>,
    event: WaitEvent,
) -> (W::Op, WaitEvent) {
    match op {
        BlockingOp::Start => (wait.fresh(timeout), WaitEvent::Proceed),
        BlockingOp::Waiting(w) => (w, event),
    }
}

/// Whether `event` answers the last action of a blocking operation.
pub open spec fn op_answers<W: WaitStrategy>(
    wait: &W,
    op: BlockingOp<W::Op>,
    event: WaitEvent,
) -> bool {
    op matches BlockingOp::Waiting(w) ==> wait.answers(w, event)
}

impl View for RingSender {
    type V = SenderView;

    closed spec fn view(&self) -> SenderView {
        SenderView {
            size: self.ring_data_size as int,
            next_seq: self.next_seq,
            wc: self.cached_wc as int,
            rc: self.cached_rc as int,
        }
    }
}

impl RingSender {
    /// A writer at the start of a ring of `ring_data_size` bytes.
    pub fn new(ring_data_size: usize) -> (r: Self)
        requires
            is_pow2(ring_data_size as int),
        ensures
            r@ == (SenderView { size: ring_data_size as int, next_seq: 1, wc: 0, rc: 0 }),
            r@.valid(),
    {
        proof {
            reveal(is_pow2);
        }
        RingSender { ring_data_size, next_seq: 1, cached_wc: 0, cached_rc: 0 }
    }

    /// The bytes that a message takes, unless the ring cannot hold it.
    pub fn message_size(&self, payload_len: usize) -> (r: Result<usize>)
        requires
            self@.size >= MSG_HEADER_SIZE,
        ensures
            self@.can_hold(payload_len as int) ==> r == Ok::<usize, Error>(
                (MSG_HEADER_SIZE + payload_len) as usize,
            ),
            !self@.can_hold(payload_len as int) ==> r == Err::<usize, Error>(
                Error::MessageTooLarge { size: payload_len, max: self@.max_payload() as usize },
            ),
    {
        let max: usize = self.ring_data_size - MSG_HEADER_SIZE;
        if payload_len > max {
            return Err(Error::MessageTooLarge { size: payload_len, max });
        }
        Ok(MSG_HEADER_SIZE + payload_len)
    }

    /// Whether `read_cursor` can be how far the reader has read.
    fn is_plausible(&self, read_cursor: u64) -> (r: bool)
        requires
            self@.valid(),
        ensures
            r == self@.plausible(read_cursor as int),
    {
        read_cursor <= self.cached_wc && self.cached_wc - read_cursor
            <= self.ring_data_size as u64
    }

    /// Whether the write cursor can count a message of `payload_len` bytes more.
    fn is_countable(&self, payload_len: usize) -> (r: bool)
        requires
            self@.valid(),
        ensures
            r == self@.can_count(payload_len as int),
    {
        let left: u64 = u64::MAX - self.cached_wc;
        left >= MSG_HEADER_SIZE as u64 && left - MSG_HEADER_SIZE as u64 >= payload_len as u64
    }

    /// Whether sending `payload_len` bytes can be tried on a ring of `ring_len` bytes: what
    /// `try_send_once` asks for.
    pub fn is_free_to_try(&self, view: &SendView, ring_len: usize, payload_len: usize) -> (r: bool)
        requires
            self@.valid(),
        ensures
            r == self@.may_try(*view, ring_len as int, payload_len as int),
    {
        if self.ring_data_size != ring_len {
            return false;
        }
        if view.status.check_channel_active().is_err() {
            return true;
        }
        if self.ring_data_size < MSG_HEADER_SIZE {
            return false;
        }
        if payload_len > self.ring_data_size - MSG_HEADER_SIZE {
            return true;
        }
        let msg_len: usize = MSG_HEADER_SIZE + payload_len;
        if self.has_space(msg_len) {
            return self.is_countable(payload_len);
        }
        if !self.is_plausible(view.read_cursor) {
            return false;
        }
        let free: u64 = self.ring_data_size as u64 - (self.cached_wc - view.read_cursor);
        free < msg_len as u64 || self.is_countable(payload_len)
    }

    /// Whether a step of a blocking send of `payload_len` bytes can be taken on a ring of
    /// `ring_len` bytes: what `send` asks for.
    pub fn is_ready(
        &self,
        view: &SendView,
        ring_len: usize,
        payload_len: usize,
        waiting: bool,
    ) -> (r: bool)
        requires
            self@.valid(),
        ensures
            r == self@.ready(*view, ring_len as int, payload_len as int, waiting),
    {
        if self.ring_data_size != ring_len || self.ring_data_size < MSG_HEADER_SIZE {
            return false;
        }
        if payload_len > self.ring_data_size - MSG_HEADER_SIZE {
            return true;
        }
        if !waiting {
            return self.is_free_to_try(view, ring_len, payload_len);
        }
        if !self.is_plausible(view.read_cursor) {
            return false;
        }
        let free: u64 = self.ring_data_size as u64 - (self.cached_wc - view.read_cursor);
        view.status.check_channel_active().is_err() || free < (MSG_HEADER_SIZE + payload_len) as u64
            || self.is_countable(payload_len)
    }

    /// Whether `msg_len` bytes are free, as far as this writer knows.
    fn has_space(&self, msg_len: usize) -> (r: bool)
        requires
            self@.valid(),
        ensures
            r == (self@.size - (self@.wc - self@.rc) >= msg_len),
    {
        let free: u64 = self.ring_data_size as u64 - (self.cached_wc - self.cached_rc);
        free >= msg_len as u64
    }

    /// Writes the record of a message behind the write cursor and moves the cursor past
    /// it.
    fn publish_message(
        &mut self,
        line: &mut WriteCursorLine,
        data: &mut [u8],
        payload: &[u8],
    )
        requires
            old(self)@.valid(),
            old(self)@.size == old(data)@.len(),
            old(self)@.has_room(old(self)@.rc, payload@.len() as int),
            old(self)@.wc + MSG_HEADER_SIZE + payload@.len() <= u64::MAX,
        ensures
            final(self)@.valid(),
            message_sent(
                old(self)@,
                final(self)@,
                *old(line),
                *final(line),
                old(data)@,
                final(data)@,
                payload@,
            ),
    {
        let wc: u64 = self.cached_wc;
        let mask: usize = self.ring_data_size - 1;
        let ghost before = data@;
        // The length field holds 32 bits.
        let len: u32 = ((payload.len() as u64) % 0x1_0000_0000) as u32;
        let len_bytes = to_le32(len);
        let seq_bytes = to_le32(self.next_seq);
        proof {
            let n = payload@.len();
            assert(le32(n % 0x1_0000_0000) =~= le32(n)) by {
                lemma_le32_truncates(n);
            }
        }
        write_ring(data, mask, wc, len_bytes.as_slice());
        write_ring(data, mask, wc + 4, seq_bytes.as_slice());
        write_ring(data, mask, wc + MSG_HEADER_SIZE as u64, payload);
        proof {
            let seq = old(self)@.next_seq;
            lemma_overwrite_joins(before, wc as int, le32(payload@.len()), le32(seq as nat));
            lemma_overwrite_joins(
                before,
                wc as int,
                le32(payload@.len()) + le32(seq as nat),
                payload@,
            );
        }
        let new_wc: u64 = wc + (MSG_HEADER_SIZE as u64 + payload.len() as u64);
        line.write_cursor = new_wc;
        self.cached_wc = new_wc;
        self.next_seq = self.next_seq.wrapping_add(1);
        line.notify = line.notify.wrapping_add(1);
    }

    /// Sends a message if there is room for it now.
    ///
    /// Nothing but the writer's own knowledge of the read cursor changes unless the
    /// message was sent.
    pub fn try_send_once(
        &mut self,
        view: &SendView,
        line: &mut WriteCursorLine,
        data: &mut [u8],
        payload: &[u8],
    ) -> (r: Result<TrySendResult>)
        requires
            old(self)@.may_try(*view, old(data)@.len() as int, payload@.len() as int),
        ensures
            final(self)@.valid(),
            r == send_result(old(self)@, *view, payload@.len() as int),
            match r {
                Err(e) => {
                    &&& final(self)@ == old(self)@
                    &&& *final(line) == *old(line)
                    &&& final(data)@ == old(data)@
                },
                Ok(TrySendResult::Full) => {
                    &&& final(self)@ == old(self)@.seeing(view.read_cursor as int)
                    &&& *final(line) == *old(line)
                    &&& final(data)@ == old(data)@
                },
                Ok(TrySendResult::Sent) => message_sent(
                    old(self)@.looked(view.read_cursor as int, payload@.len() as int),
                    final(self)@,
                    *old(line),
                    *final(line),
                    old(data)@,
                    final(data)@,
                    payload@,
                ),
            },
    {
        match view.status.check_channel_active() {
            Ok(()) => {},
            Err(e) => {
                return Err(e);
            },
        }
        let msg_len: usize = match self.message_size(payload.len()) {
            Ok(len) => len,
            Err(e) => {
                return Err(e);
            },
        };
        if !self.has_space(msg_len) {
            self.cached_rc = view.read_cursor;
            if !self.has_space(msg_len) {
                return Ok(TrySendResult::Full);
            }
        }
        self.publish_message(line, data, payload);
        Ok(TrySendResult::Sent)
    }

    /// Whether `msg_len` bytes are free, or why waiting for them is pointless.
    fn look_for_room(&self, view: &SendView, payload_len: usize) -> (r: Result<bool>)
        requires
            self@.valid(),
            self@.can_hold(payload_len as int),
            self@.plausible(view.read_cursor as int),
        ensures
            r == room_look(self@, *view, payload_len as int),
    {
        let msg_len: usize = MSG_HEADER_SIZE + payload_len;
        let free: u64 = self.ring_data_size as u64 - (self.cached_wc - view.read_cursor);
        if free >= msg_len as u64 {
            Ok(true)
        } else {
            match view.status.check_channel_active() {
                Ok(()) => Ok(false),
                Err(e) => Err(e),
            }
        }
    }

    /// One step of a blocking send: tries the message, and waits for room where there
    /// is too little. It waits on the words of the reader's line.
    ///
    /// A message longer than the ring can hold is refused before anything else.
    pub fn send<W: WaitStrategy>(
        &mut self,
        wait: &W,
        timeout: Option<u128>,
        op: BlockingOp<W::Op>,
        event: WaitEvent,
        view: &SendView,
        line: &mut WriteCursorLine,
        data: &mut [u8],
        payload: &[u8],
    ) -> (r: (BlockingOp<W::Op>, Step<()>))
        requires
            old(self)@.ready(
                *view,
                old(data)@.len() as int,
                payload@.len() as int,
                op is Waiting,
            ),
            op_answers(wait, op, event),
        ensures
            final(self)@.valid(),
            send_stepped(
                wait,
                timeout,
                op,
                event,
                *view,
                payload@,
                r,
                (old(self)@, *old(line), old(data)@),
                (final(self)@, *final(line), final(data)@),
            ),
    {
        match self.message_size(payload.len()) {
            Ok(_) => {},
            Err(e) => {
                return (op, Step::Done { unpark: None, result: Err(e) });
            },
        }
        let (waiting, action) = match op {
            BlockingOp::Start => {
                match self.try_send_once(view, line, data, payload) {
                    Err(e) => {
                        return (BlockingOp::Start, Step::Done { unpark: None, result: Err(e) });
                    },
                    Ok(TrySendResult::Sent) => {
                        return (BlockingOp::Start, Step::Done { unpark: None, result: Ok(()) });
                    },
                    Ok(TrySendResult::Full) => {
                        let fresh = wait.begin(timeout);
                        proof {
                            wait.begins_with_proceed(timeout);
                            wait.ends_as_the_condition_says(
                                fresh,
                                WaitEvent::Proceed,
                                Ok(false),
                            );
                        }
                        wait.wait_until(fresh, WaitEvent::Proceed, Ok(false))
                    },
                }
            },
            BlockingOp::Waiting(w) => {
                let look = self.look_for_room(view, payload.len());
                proof {
                    wait.ends_as_the_condition_says(w, event, look);
                }
                wait.wait_until(w, event, look)
            },
        };
        let unpark = match action {
            WaitAction::Finish(Ok(())) => None,
            WaitAction::UnparkFinish(Ok(())) => Some(RingLine::Reader),
            WaitAction::Finish(Err(e)) => {
                return (BlockingOp::Waiting(waiting), Step::Done { unpark: None, result: Err(e) });
            },
            WaitAction::UnparkFinish(Err(e)) => {
                let unpark = Some(RingLine::Reader);
                return (BlockingOp::Waiting(waiting), Step::Done { unpark, result: Err(e) });
            },
            other => {
                return (BlockingOp::Waiting(waiting), Step::Act(RingLine::Reader, other));
            },
        };
        // There was room at the read cursor just loaded.
        self.cached_rc = view.read_cursor;
        let result = match self.try_send_once(view, line, data, payload) {
            Err(e) => Err(e),
            Ok(_) => Ok(()),
        };
        (BlockingOp::Start, Step::Done { unpark, result })
    }
}

/// The line whose parked word is to be cleared at the end of a wait on it.
pub open spec fn unparks(line: RingLine, action: WaitAction) -> Option<RingLine> {
    if action is UnparkFinish {
        Some(line)
    } else {
        None
    }
}

/// The step that the wait inside a blocking send takes.
pub open spec fn wait_move<W: WaitStrategy>(
    wait: &W,
    timeout: Option<u128>,
    op: BlockingOp<W::Op>,
    event: WaitEvent,
    v: SenderView,
    view: SendView,
    payload_len: int,
) -> (W::Op, WaitAction) {
    let (w, next) = current_wait(wait, timeout, op, event);
    wait.stepped(
        w,
        next,
        if op is Start {
            Ok(false)
        } else {
            room_look(v, view, payload_len)
        },
    )
}

/// What a step of a blocking send does to the writer, its line and the data, and what
/// it answers.
pub open spec fn send_stepped<W: WaitStrategy>(
    wait: &W,
    timeout: Option<u128>,
    op: BlockingOp<W::Op>,
    event: WaitEvent,
    view: SendView,
    payload: Seq<u8>,
    r: (BlockingOp<W::Op>, Step<()>),
    before: (SenderView, WriteCursorLine, Seq<u8>),
    after: (SenderView, WriteCursorLine, Seq<u8>),
) -> bool {
    let v = before.0;
    let len = payload.len() as int;
    let rc = view.read_cursor as int;
    let sent_from = |seen: SenderView|
        message_sent(seen, after.0, before.1, after.1, before.2, after.2, payload);
    let (next, waited) = wait_move(wait, timeout, op, event, v, view, len);
    let step = r.1;
    let unpark = unparks(RingLine::Reader, waited);
    if !v.can_hold(len) {
        &&& step == Step::<()>::Done {
            unpark: None,
            result: Err(
                Error::MessageTooLarge { size: len as usize, max: v.max_payload() as usize },
            ),
        }
        &&& after == before
    } else if op is Start && send_result(v, view, len) is Err {
        &&& step == Step::<()>::Done {
            unpark: None,
            result: Err(send_result(v, view, len)->Err_0),
        }
        &&& after == before
    } else if op is Start && send_result(v, view, len) == Ok::<TrySendResult, Error>(
        TrySendResult::Sent,
    ) {
        &&& step == Step::<()>::Done { unpark: None, result: Ok(()) }
        &&& sent_from(v.looked(rc, len))
    } else {
        match waited {
            WaitAction::Finish(Ok(())) | WaitAction::UnparkFinish(Ok(())) => {
                // The wait found room: the message goes out unless the channel ended.
                match view.status.terminal() {
                    Some(e) => {
                        &&& step == Step::<()>::Done {
                            unpark,
                            result: Err(e),
                        }
                        &&& after == (v.seeing(rc), before.1, before.2)
                    },
                    None => {
                        &&& step == Step::<()>::Done {
                            unpark,
                            result: Ok(()),
                        }
                        &&& sent_from(v.seeing(rc))
                    },
                }
            },
            WaitAction::Finish(Err(e)) | WaitAction::UnparkFinish(Err(e)) => {
                &&& step == Step::<()>::Done { unpark, result: Err(e) }
                &&& after == (if op is Start {
                    v.seeing(rc)
                } else {
                    v
                }, before.1, before.2)
            },
            other => {
                &&& r == (BlockingOp::Waiting(next), Step::<()>::Act(RingLine::Reader, other))
                &&& after == (if op is Start {
                    v.seeing(rc)
                } else {
                    v
                }, before.1, before.2)
            },
        }
    }
}

/// What a reader knows: the size of the ring, the number of the next message, and
/// where it begins.
pub struct ReceiverView {
    pub size: int,
    pub expected_seq: u32,
    pub rc: int,
}

impl ReceiverView {
    pub open spec fn valid(self) -> bool {
        &&& is_pow2(self.size)
        &&& 0 < self.size <= usize::MAX
        &&& 0 <= self.rc <= u64::MAX
    }

    /// Whether a reader of a ring of `ring_len` bytes can look for a message where the writer
    /// has published up to `wc`: not behind the read cursor, and nothing at all in a ring that
    /// is too small for a record.
    pub open spec fn may_look(self, wc: int, ring_len: int) -> bool {
        &&& self.valid()
        &&& self.size == ring_len
        &&& self.rc <= wc <= u64::MAX
        &&& self.size < MSG_HEADER_SIZE ==> wc - self.rc < MSG_HEADER_SIZE
    }

    /// Whether a step of receiving can be taken on a ring of `ring_len` bytes.
    pub open spec fn ready(self, view: RecvView, ring_len: int) -> bool {
        &&& self.may_look(view.write_cursor as int, ring_len)
        &&& self.may_look(view.write_cursor_again as int, ring_len)
    }

    /// Whether `message` can have been found by a reader of this ring.
    pub open spec fn found(self, message: PeekedMessage) -> bool {
        &&& message.payload_len <= self.size - MSG_HEADER_SIZE
        &&& message.end() <= u64::MAX
    }

    /// The reader after it took `message`.
    pub open spec fn past(self, message: PeekedMessage) -> ReceiverView {
        ReceiverView {
            rc: message.end(),
            expected_seq: bump(self.expected_seq),
            ..self
        }
    }
}

/// What a reader finds where the writer has published up to `wc`.
pub open spec fn peek_result(v: ReceiverView, wc: int, data: Seq<u8>) -> Result<TryPeekResult> {
    let header = window(data, v.rc, MSG_HEADER_SIZE as int);
    let len = record_len(header);
    if wc - v.rc < MSG_HEADER_SIZE {
        Ok(TryPeekResult::Empty)
    } else if len > v.size - MSG_HEADER_SIZE {
        Err(
            Error::MessageTooLarge {
                size: len as usize,
                max: (v.size - MSG_HEADER_SIZE) as usize,
            },
        )
    } else if wc - v.rc < MSG_HEADER_SIZE + len {
        Ok(TryPeekResult::Empty)
    } else {
        Ok(
            TryPeekResult::Ready(
                PeekedMessage {
                    read_cursor: v.rc as u64,
                    payload_len: len as usize,
                    seq: record_seq(header) as u32,
                },
            ),
        )
    }
}

/// What a reader that waits for a message finds: a message if there is one, whatever
/// became of the channel; else why there will be none, after one more look.
pub open spec fn peek_or_closed_result(v: ReceiverView, view: RecvView, data: Seq<u8>) -> Result<
    Option<PeekedMessage>,
> {
    match peek_result(v, view.write_cursor as int, data) {
        Err(e) => Err(e),
        Ok(TryPeekResult::Ready(message)) => Ok(Some(message)),
        Ok(TryPeekResult::Empty) => match view.status.terminal() {
            None => Ok(None),
            Some(end) => match peek_result(v, view.write_cursor_again as int, data) {
                Err(e) => Err(e),
                Ok(TryPeekResult::Ready(message)) => Ok(Some(message)),
                Ok(TryPeekResult::Empty) => Err(end),
            },
        },
    }
}

/// The payload of a message that was found.
pub open spec fn payload_of(message: PeekedMessage, data: Seq<u8>) -> Seq<u8> {
    window(data, message.read_cursor + MSG_HEADER_SIZE, message.payload_len as int)
}

/// Whether a message may be taken: only if it is the next one.
pub open spec fn take_result(v: ReceiverView, message: PeekedMessage) -> Result<()> {
    if message.seq == v.expected_seq {
        Ok(())
    } else {
        Err(Error::SequenceMismatch { expected: v.expected_seq, got: message.seq })
    }
}

/// The reader's line after a message was taken.
pub open spec fn consumed(line: ReadCursorLine, message: PeekedMessage) -> ReadCursorLine {
    ReadCursorLine {
        read_cursor: message.end() as u64,
        notify: bump(line.notify),
        parked: line.parked,
    }
}

/// The reader and its line moved past `message`, or stayed where it is not the next one.
pub open spec fn message_taken(
    before: ReceiverView,
    after: ReceiverView,
    line_before: ReadCursorLine,
    line_after: ReadCursorLine,
    message: PeekedMessage,
) -> bool {
    if take_result(before, message) is Ok {
        after == before.past(message) && line_after == consumed(line_before, message)
    } else {
        after == before && line_after == line_before
    }
}

/// The reader of a ring.
pub struct RingReceiver {
    ring_data_size: usize,
    expected_seq: u32,
    cached_rc: u64,
}

impl View for RingReceiver {
    type V = ReceiverView;

    closed spec fn view(&self) -> ReceiverView {
        ReceiverView {
            size: self.ring_data_size as int,
            expected_seq: self.expected_seq,
            rc: self.cached_rc as int,
        }
    }
}

impl RingReceiver {
    /// A reader at the start of a ring of `ring_data_size` bytes.
    pub fn new(ring_data_size: usize) -> (r: Self)
        requires
            is_pow2(ring_data_size as int),
        ensures
            r@ == (ReceiverView { size: ring_data_size as int, expected_seq: 1, rc: 0 }),
            r@.valid(),
    {
        proof {
            reveal(is_pow2);
        }
        RingReceiver { ring_data_size, expected_seq: 1, cached_rc: 0 }
    }

    /// Whether a step of receiving can be taken on a ring of `ring_len` bytes: what the
    /// receiving functions ask for.
    pub fn is_ready(&self, view: &RecvView, ring_len: usize) -> (r: bool)
        requires
            self@.valid(),
        ensures
            r == self@.ready(*view, ring_len as int),
    {
        self.ring_data_size == ring_len && self.is_behind(view.write_cursor) && self.is_behind(
            view.write_cursor_again,
        )
    }

    /// Whether the writer can have published up to `write_cursor`.
    fn is_behind(&self, write_cursor: u64) -> (r: bool)
        requires
            self@.valid(),
        ensures
            r == self@.may_look(write_cursor as int, self@.size),
    {
        self.cached_rc <= write_cursor && (self.ring_data_size >= MSG_HEADER_SIZE || write_cursor
            - self.cached_rc < MSG_HEADER_SIZE as u64)
    }

    /// Payload length and sequence number of the record at `cursor`.
    fn read_msg_header(&self, data: &[u8], cursor: u64) -> (r: (usize, u32))
        requires
            self@.valid(),
            self@.size >= MSG_HEADER_SIZE,
            self@.size == data@.len(),
        ensures
            r.0 == record_len(window(data@, cursor as int, MSG_HEADER_SIZE as int)),
            r.1 == record_seq(window(data@, cursor as int, MSG_HEADER_SIZE as int)),
    {
        let mut header: Vec<u8> = vec![0u8; MSG_HEADER_SIZE];
        read_ring(data, self.ring_data_size - 1, cursor, &mut header, MSG_HEADER_SIZE);
        assert(header@ =~= window(data@, cursor as int, MSG_HEADER_SIZE as int));
        let len: u32 = from_le32(header.as_slice(), 0);
        let seq: u32 = from_le32(header.as_slice(), 4);
        (len as usize, seq)
    }

    /// Looks for a message without taking it. `write_cursor` is how far the writer has
    /// published.
    pub fn try_peek_message(&self, write_cursor: u64, data: &[u8]) -> (r: Result<TryPeekResult>)
        requires
            self@.may_look(write_cursor as int, data@.len() as int),
        ensures
            r == peek_result(self@, write_cursor as int, data@),
            r matches Ok(TryPeekResult::Ready(message)) ==> self@.found(message),
    {
        let rc: u64 = self.cached_rc;
        if write_cursor - rc < MSG_HEADER_SIZE as u64 {
            return Ok(TryPeekResult::Empty);
        }
        let (payload_len, seq) = self.read_msg_header(data, rc);
        let max: usize = self.ring_data_size - MSG_HEADER_SIZE;
        if payload_len > max {
            return Err(Error::MessageTooLarge { size: payload_len, max });
        }
        let msg_len: usize = MSG_HEADER_SIZE + payload_len;
        if write_cursor - rc < msg_len as u64 {
            return Ok(TryPeekResult::Empty);
        }
        Ok(TryPeekResult::Ready(PeekedMessage { read_cursor: rc, payload_len, seq }))
    }

    /// Copies the payload of a message that was found to the front of `buf`.
    pub fn copy_current_message(
        &self,
        message: PeekedMessage,
        data: &[u8],
        buf: &mut [u8],
    ) -> (r: Result<usize>)
        requires
            self@.valid(),
            self@.size == data@.len(),
            self@.found(message),
        ensures
            message.payload_len > old(buf)@.len() ==> {
                &&& r == Err::<usize, Error>(
                    Error::MessageTooLarge {
                        size: message.payload_len,
                        max: old(buf)@.len() as usize,
                    },
                )
                &&& final(buf)@ == old(buf)@
            },
            message.payload_len <= old(buf)@.len() ==> {
                &&& r == Ok::<usize, Error>(message.payload_len)
                &&& final(buf)@ == payload_of(message, data@) + old(buf)@.skip(
                    message.payload_len as int,
                )
            },
    {
        if message.payload_len > buf.len() {
            return Err(
                Error::MessageTooLarge { size: message.payload_len, max: buf.len() },
            );
        }
        read_ring(
            data,
            self.ring_data_size - 1,
            message.read_cursor + MSG_HEADER_SIZE as u64,
            buf,
            message.payload_len,
        );
        Ok(message.payload_len)
    }

    /// Takes a message that was found: the cursor moves past it. A message that is not
    /// the next one is not taken.
    pub fn commit_current_message(
        &mut self,
        message: PeekedMessage,
        line: &mut ReadCursorLine,
    ) -> (r: Result<()>)
        requires
            old(self)@.valid(),
            old(self)@.found(message),
        ensures
            final(self)@.valid(),
            r == take_result(old(self)@, message),
            message_taken(old(self)@, final(self)@, *old(line), *final(line), message),
    {
        match self.validate_seq(message.seq) {
            Ok(()) => {},
            Err(e) => {
                return Err(e);
            },
        }
        let new_rc: u64 = message.read_cursor + (MSG_HEADER_SIZE as u64
            + message.payload_len as u64);
        line.read_cursor = new_rc;
        self.cached_rc = new_rc;
        line.notify = line.notify.wrapping_add(1);
        Ok(())
    }

    /// Counts a message whose number is the expected one.
    fn validate_seq(&mut self, seq: u32) -> (r: Result<()>)
        requires
            old(self)@.valid(),
        ensures
            final(self)@.valid(),
            seq == old(self)@.expected_seq ==> {
                &&& r == Ok::<(), Error>(())
                &&& final(self)@ == (ReceiverView {
                    expected_seq: bump(old(self)@.expected_seq),
                    ..old(self)@
                })
            },
            seq != old(self)@.expected_seq ==> {
                &&& r == Err::<(), Error>(
                    Error::SequenceMismatch { expected: old(self)@.expected_seq, got: seq },
                )
                &&& final(self)@ == old(self)@
            },
    {
        if seq != self.expected_seq {
            return Err(Error::SequenceMismatch { expected: self.expected_seq, got: seq });
        }
        self.expected_seq = self.expected_seq.wrapping_add(1);
        Ok(())
    }

    /// Looks for a message; where there is none, tells whether there can be one still.
    pub fn try_peek_or_closed(&self, view: &RecvView, data: &[u8]) -> (r: Result<
        Option<PeekedMessage>,
    >)
        requires
            self@.ready(*view, data@.len() as int),
        ensures
            r == peek_or_closed_result(self@, *view, data@),
            r matches Ok(Some(message)) ==> self@.found(message),
    {
        match self.try_peek_message(view.write_cursor, data) {
            Err(e) => Err(e),
            Ok(TryPeekResult::Ready(message)) => Ok(Some(message)),
            Ok(TryPeekResult::Empty) => match view.status.check_channel_active() {
                Ok(()) => Ok(None),
                Err(end) => match self.try_peek_message(view.write_cursor_again, data) {
                    Err(e) => Err(e),
                    Ok(TryPeekResult::Ready(message)) => Ok(Some(message)),
                    Ok(TryPeekResult::Empty) => Err(end),
                },
            },
        }
    }

    /// Copies a message that was found to a vector of its own and takes it.
    pub fn commit_message_to_vec(
        &mut self,
        message: PeekedMessage,
        line: &mut ReadCursorLine,
        data: &[u8],
    ) -> (r: Result<Vec<u8>>)
        requires
            old(self)@.valid(),
            old(self)@.size == data@.len(),
            old(self)@.found(message),
        ensures
            final(self)@.valid(),
            match take_result(old(self)@, message) {
                Err(e) => r == Err::<Vec<u8>, Error>(e),
                Ok(()) => r matches Ok(buf) && buf@ == payload_of(message, data@),
            },
            message_taken(old(self)@, final(self)@, *old(line), *final(line), message),
    {
        let mut buf: Vec<u8> = vec![0u8; message.payload_len];
        match self.copy_current_message(message, data, &mut buf) {
            Ok(_) => {},
            Err(e) => {
                return Err(e);
            },
        }
        assert(buf@ =~= payload_of(message, data@));
        match self.commit_current_message(message, line) {
            Ok(()) => Ok(buf),
            Err(e) => Err(e),
        }
    }

    /// Copies a message that was found to the front of `buf` and takes it. A message
    /// longer than `buf` is taken all the same, and reported.
    pub fn commit_message_into(
        &mut self,
        message: PeekedMessage,
        line: &mut ReadCursorLine,
        data: &[u8],
        buf: &mut [u8],
    ) -> (r: Result<usize>)
        requires
            old(self)@.valid(),
            old(self)@.size == data@.len(),
            old(self)@.found(message),
        ensures
            final(self)@.valid(),
            into_result(old(self)@, message, data@, old(buf)@, final(buf)@, r),
            message_taken(old(self)@, final(self)@, *old(line), *final(line), message),
    {
        let payload_len: usize = message.payload_len;
        if payload_len > buf.len() {
            return match self.commit_current_message(message, line) {
                Ok(()) => Err(Error::MessageTooLarge { size: payload_len, max: buf.len() }),
                Err(e) => Err(e),
            };
        }
        match self.copy_current_message(message, data, buf) {
            Ok(_) => {},
            Err(e) => {
                return Err(e);
            },
        }
        match self.commit_current_message(message, line) {
            Ok(()) => Ok(payload_len),
            Err(e) => Err(e),
        }
    }

    /// Takes a message if there is one now.
    pub fn try_recv(
        &mut self,
        write_cursor: u64,
        line: &mut ReadCursorLine,
        data: &[u8],
    ) -> (r: Result<Option<Vec<u8>>>)
        requires
            old(self)@.may_look(write_cursor as int, data@.len() as int),
        ensures
            final(self)@.valid(),
            try_recv_stepped(
                write_cursor as int,
                data@,
                r,
                (old(self)@, *old(line)),
                (final(self)@, *final(line)),
            ),
    {
        match self.try_peek_message(write_cursor, data) {
            Err(e) => Err(e),
            Ok(TryPeekResult::Empty) => Ok(None),
            Ok(TryPeekResult::Ready(message)) => {
                match self.commit_message_to_vec(message, line, data) {
                    Ok(buf) => Ok(Some(buf)),
                    Err(e) => Err(e),
                }
            },
        }
    }

    /// The look inside a blocking receive, and the step its wait takes.
    fn wait_for_message<W: WaitStrategy>(
        &self,
        wait: &W,
        timeout: Option<u128>,
        op: BlockingOp<W::Op>,
        event: WaitEvent,
        view: &RecvView,
        data: &[u8],
    ) -> (r: (BlockingOp<W::Op>, Step<PeekedMessage>))
        requires
            self@.ready(*view, data@.len() as int),
            op_answers(wait, op, event),
        ensures
            r == message_step(wait, timeout, op, event, self@, *view, data@),
            r.1 matches Step::Done { unpark, result: Ok(message) } ==> self@.found(message),
    {
        let found = self.try_peek_or_closed(view, data);
        let look = match found {
            Ok(Some(_)) => Ok(true),
            Ok(None) => Ok(false),
            Err(e) => Err(e),
        };
        let (w, next) = match op {
            BlockingOp::Start => {
                proof {
                    wait.begins_with_proceed(timeout);
                }
                (wait.begin(timeout), WaitEvent::Proceed)
            },
            BlockingOp::Waiting(w) => (w, event),
        };
        proof {
            wait.ends_as_the_condition_says(w, next, look);
        }
        let (w, action) = wait.wait_until(w, next, look);
        let step = match action {
            WaitAction::Finish(Ok(())) | WaitAction::UnparkFinish(Ok(())) => {
                let unpark = if matches!(action, WaitAction::UnparkFinish(_)) {
                    Some(RingLine::Writer)
                } else {
                    None
                };
                match found {
                    Ok(Some(message)) => Step::Done { unpark, result: Ok(message) },
                    _ => Step::Act(RingLine::Writer, action),
                }
            },
            WaitAction::Finish(Err(e)) => Step::Done { unpark: None, result: Err(e) },
            WaitAction::UnparkFinish(Err(e)) => Step::Done {
                unpark: Some(RingLine::Writer),
                result: Err(e),
            },
            other => Step::Act(RingLine::Writer, other),
        };
        (BlockingOp::Waiting(w), step)
    }

    /// One step of a blocking receive. It waits on the words of the writer's line.
    pub fn recv<W: WaitStrategy>(
        &mut self,
        wait: &W,
        timeout: Option<u128>,
        op: BlockingOp<W::Op>,
        event: WaitEvent,
        view: &RecvView,
        line: &mut ReadCursorLine,
        data: &[u8],
    ) -> (r: (BlockingOp<W::Op>, Step<Vec<u8>>))
        requires
            old(self)@.ready(*view, data@.len() as int),
            op_answers(wait, op, event),
        ensures
            final(self)@.valid(),
            recv_stepped(
                wait,
                timeout,
                op,
                event,
                *view,
                data@,
                r,
                (old(self)@, *old(line)),
                (final(self)@, *final(line)),
            ),
    {
        let (next, step) = self.wait_for_message(wait, timeout, op, event, view, data);
        match step {
            Step::Act(on, action) => (next, Step::Act(on, action)),
            Step::Done { unpark, result: Err(e) } => (
                next,
                Step::Done { unpark, result: Err(e) },
            ),
            Step::Done { unpark, result: Ok(message) } => {
                let result = self.commit_message_to_vec(message, line, data);
                (next, Step::Done { unpark, result })
            },
        }
    }

    /// One step of a blocking receive into a buffer of the caller's.
    pub fn recv_into<W: WaitStrategy>(
        &mut self,
        wait: &W,
        timeout: Option<u128>,
        op: BlockingOp<W::Op>,
        event: WaitEvent,
        view: &RecvView,
        line: &mut ReadCursorLine,
        data: &[u8],
        buf: &mut [u8],
    ) -> (r: (BlockingOp<W::Op>, Step<usize>))
        requires
            old(self)@.ready(*view, data@.len() as int),
            op_answers(wait, op, event),
        ensures
            final(self)@.valid(),
            recv_into_stepped(
                wait,
                timeout,
                op,
                event,
                *view,
                data@,
                r,
                (old(self)@, *old(line), old(buf)@),
                (final(self)@, *final(line), final(buf)@),
            ),
    {
        let (next, step) = self.wait_for_message(wait, timeout, op, event, view, data);
        match step {
            Step::Act(on, action) => (next, Step::Act(on, action)),
            Step::Done { unpark, result: Err(e) } => (
                next,
                Step::Done { unpark, result: Err(e) },
            ),
            Step::Done { unpark, result: Ok(message) } => {
                let result = self.commit_message_into(message, line, data, buf);
                (next, Step::Done { unpark, result })
            },
        }
    }
}

/// The step that the wait inside a blocking receive takes, and the message that it ends
/// with.
pub open spec fn message_step<W: WaitStrategy>(
    wait: &W,
    timeout: Option<u128>,
    op: BlockingOp<W::Op>,
    event: WaitEvent,
    v: ReceiverView,
    view: RecvView,
    data: Seq<u8>,
) -> (BlockingOp<W::Op>, Step<PeekedMessage>) {
    let found = peek_or_closed_result(v, view, data);
    let look: Result<bool> = match found {
        Ok(Some(_)) => Ok(true),
        Ok(None) => Ok(false),
        Err(e) => Err(e),
    };
    let (w, next) = current_wait(wait, timeout, op, event);
    let (waited, action) = wait.stepped(w, next, look);
    let unpark = unparks(RingLine::Writer, action);
    (
        BlockingOp::Waiting(waited),
        match action {
            WaitAction::Finish(Ok(())) | WaitAction::UnparkFinish(Ok(())) => Step::Done {
                unpark,
                result: Ok(found->Ok_0->0),
            },
            WaitAction::Finish(Err(e)) | WaitAction::UnparkFinish(Err(e)) => Step::Done {
                unpark,
                result: Err(e),
            },
            other => Step::Act(RingLine::Writer, other),
        },
    )
}

/// What a receive that does not wait answers and does to the reader and its line.
pub open spec fn try_recv_stepped(
    wc: int,
    data: Seq<u8>,
    r: Result<Option<Vec<u8>>>,
    before: (ReceiverView, ReadCursorLine),
    after: (ReceiverView, ReadCursorLine),
) -> bool {
    match peek_result(before.0, wc, data) {
        Err(e) => r == Err::<Option<Vec<u8>>, Error>(e) && after == before,
        Ok(TryPeekResult::Empty) => r == Ok::<Option<Vec<u8>>, Error>(None) && after == before,
        Ok(TryPeekResult::Ready(message)) => {
            &&& match take_result(before.0, message) {
                Err(e) => r == Err::<Option<Vec<u8>>, Error>(e),
                Ok(()) => r matches Ok(Some(buf)) && buf@ == payload_of(message, data),
            }
            &&& message_taken(before.0, after.0, before.1, after.1, message)
        },
    }
}

/// What a step of a blocking receive answers and does to the reader and its line: only
/// a message that the wait ended with moves them.
pub open spec fn recv_stepped<W: WaitStrategy>(
    wait: &W,
    timeout: Option<u128>,
    op: BlockingOp<W::Op>,
    event: WaitEvent,
    view: RecvView,
    data: Seq<u8>,
    r: (BlockingOp<W::Op>, Step<Vec<u8>>),
    before: (ReceiverView, ReadCursorLine),
    after: (ReceiverView, ReadCursorLine),
) -> bool {
    let (next, step) = message_step(wait, timeout, op, event, before.0, view, data);
    let answer = r.1;
    &&& r.0 == next
    &&& match step {
        Step::Act(on, action) => answer == Step::<Vec<u8>>::Act(on, action) && after == before,
        Step::Done { unpark, result: Err(e) } => answer == Step::<Vec<u8>>::Done {
            unpark,
            result: Err(e),
        } && after == before,
        Step::Done { unpark, result: Ok(message) } => {
            &&& match take_result(before.0, message) {
                Err(e) => answer == Step::<Vec<u8>>::Done { unpark, result: Err(e) },
                Ok(()) => answer matches Step::Done { unpark: u, result: Ok(buf) } && u == unpark
                    && buf@ == payload_of(message, data),
            }
            &&& message_taken(before.0, after.0, before.1, after.1, message)
        },
    }
}

/// The same where the message goes to a buffer of the caller's.
pub open spec fn recv_into_stepped<W: WaitStrategy>(
    wait: &W,
    timeout: Option<u128>,
    op: BlockingOp<W::Op>,
    event: WaitEvent,
    view: RecvView,
    data: Seq<u8>,
    r: (BlockingOp<W::Op>, Step<usize>),
    before: (ReceiverView, ReadCursorLine, Seq<u8>),
    after: (ReceiverView, ReadCursorLine, Seq<u8>),
) -> bool {
    let (next, step) = message_step(wait, timeout, op, event, before.0, view, data);
    let answer = r.1;
    &&& r.0 == next
    &&& match step {
        Step::Act(on, action) => answer == Step::<usize>::Act(on, action) && after == before,
        Step::Done { unpark, result: Err(e) } => answer == Step::<usize>::Done {
            unpark,
            result: Err(e),
        } && after == before,
        Step::Done { unpark, result: Ok(message) } => {
            &&& answer matches Step::Done { unpark: u, result } && u == unpark && into_result(
                before.0,
                message,
                data,
                before.2,
                after.2,
                result,
            )
            &&& message_taken(before.0, after.0, before.1, after.1, message)
        },
    }
}

/// What becomes of a message that is to be copied to a buffer: a message that is not the
/// next one is refused, one that is longer than the buffer is reported with both sizes,
/// any other is copied to the front.
pub open spec fn into_result(
    v: ReceiverView,
    message: PeekedMessage,
    data: Seq<u8>,
    buf_before: Seq<u8>,
    buf_after: Seq<u8>,
    r: Result<usize>,
) -> bool {
    let filled = payload_of(message, data) + buf_before.skip(message.payload_len as int);
    let fits = message.payload_len <= buf_before.len();
    &&& r == match take_result(v, message) {
        Err(e) => Err::<usize, Error>(e),
        Ok(()) => if fits {
            Ok(message.payload_len)
        } else {
            Err(
                Error::MessageTooLarge {
                    size: message.payload_len,
                    max: buf_before.len() as usize,
                },
            )
        },
    }
    &&& buf_after == (if fits {
        filled
    } else {
        buf_before
    })
}

/// Only the lowest 32 bits of a number reach its four bytes.
proof fn lemma_le32_truncates(n: nat)
    ensures
        le32(n % 0x1_0000_0000) == le32(n),
{
    let m = n % 0x1_0000_0000;
    let k = n / 0x1_0000_0000;
    lemma_byte_of_sum(k, m, 1, 0x100_0000);
    lemma_byte_of_sum(k, m, 256, 0x1_0000);
    lemma_byte_of_sum(k, m, 65536, 0x100);
    lemma_byte_of_sum(k, m, 16777216, 1);
    assert(n == 0x1_0000_0000 * k + m);
}

/// A multiple of 2^32 does not show in a byte below.
proof fn lemma_byte_of_sum(k: nat, m: nat, d: nat, e: nat)
    requires
        d > 0,
        d * e * 256 == 0x1_0000_0000,
    ensures
        (0x1_0000_0000 * k + m) / d % 256 == m / d % 256,
{
    let j = (256 * (e * k)) as int;
    assert(0x1_0000_0000 * k == j * d) by (nonlinear_arith)
        requires
            d * e * 256 == 0x1_0000_0000,
            j == 256 * (e * k),
    ;
    vstd::arithmetic::div_mod::lemma_hoist_over_denominator(m as int, j, d);
    vstd::arithmetic::div_mod::lemma_mod_multiples_vanish((e * k) as int, (m / d) as int, 256);
}

} // verus!
