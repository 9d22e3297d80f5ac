//! What holds of a ring as a whole: messages come out as they went in, in order,
//! whatever the two sides do in between.

use vstd::prelude::*;

use crate::circular::{lemma_window_of_overwrite, lemma_window_splits, lemma_window_untouched};
use crate::circular::{overwrite, slot, window};
use crate::error::Error;
use crate::header::{active_code, bump, bumped_times, ReadCursorLine, WriteCursorLine};
use crate::publish::PublishStage;
use crate::record::{lemma_record_names_its_parts, record, MSG_HEADER_SIZE};
use crate::ring::{
    current_wait, message_sent, message_taken, op_answers, payload_of, peek_or_closed_result,
    peek_result, published, recv_into_stepped, recv_stepped, room_look, send_result, send_stepped,
    take_result, try_recv_stepped, BlockingOp, ChannelStatus, PeekedMessage, ReceiverView,
    RecvView, SendView, SenderView, Step, TryPeekResult, TrySendResult,
};
use crate::wait::{WaitEvent, WaitStrategy};

verus! {

/// The records of `messages`, the first one numbered `seq`.
pub open spec fn records(messages: Seq<Seq<u8>>, seq: u32) -> Seq<u8>
    decreases messages.len(),
{
    if messages.len() == 0 {
        Seq::empty()
    } else {
        record(messages[0], seq) + records(messages.drop_first(), bump(seq))
    }
}

/// Whether the length of every message can be written in its record.
pub open spec fn all_short(messages: Seq<Seq<u8>>) -> bool {
    forall|i: int| 0 <= i < messages.len() ==> (#[trigger] messages[i]).len() < 0x1_0000_0000
}

/// One ring with both its ends: the bytes, the two published cursors, what each end
/// knows, and what was sent and received so far.
pub struct RingWorld {
    pub data: Seq<u8>,
    pub write_cursor: int,
    pub read_cursor: int,
    pub sender: SenderView,
    pub receiver: ReceiverView,
    pub sent: Seq<Seq<u8>>,
    pub received: Seq<Seq<u8>>,
}

impl RingWorld {
    /// The messages that were sent and not yet received.
    pub open spec fn queue(self) -> Seq<Seq<u8>> {
        self.sent.skip(self.received.len() as int)
    }

    /// The two ends agree: what was received is how what was sent begins, and the bytes
    /// between the cursors are the records of the rest. The writer may know an older
    /// read cursor than the one published.
    pub open spec fn in_step(self) -> bool {
        &&& self.sender.valid()
        &&& self.receiver.valid()
        &&& self.sender.size == self.data.len() == self.receiver.size
        &&& self.data.len() >= MSG_HEADER_SIZE
        &&& self.sender.wc == self.write_cursor
        &&& self.receiver.rc == self.read_cursor
        &&& self.sender.rc <= self.read_cursor <= self.write_cursor
        &&& self.received.len() <= self.sent.len()
        &&& self.received == self.sent.take(self.received.len() as int)
        &&& self.sender.next_seq == bumped_times(1, self.sent.len())
        &&& self.receiver.expected_seq == bumped_times(1, self.received.len())
        &&& all_short(self.sent)
        &&& window(self.data, self.read_cursor, self.write_cursor - self.read_cursor) == records(
            self.queue(),
            self.receiver.expected_seq,
        )
    }

    /// `after` is this ring with one more message sent. The writer acted on a read
    /// cursor that the reader had published some time before.
    pub open spec fn sends(self, after: RingWorld, view: SendView, payload: Seq<u8>) -> bool {
        &&& self.sender.rc <= view.read_cursor <= self.read_cursor
        &&& self.write_cursor + MSG_HEADER_SIZE + payload.len() <= u64::MAX
        &&& send_result(self.sender, view, payload.len() as int) == Ok::<TrySendResult, Error>(
            TrySendResult::Sent,
        )
        &&& exists|line: WriteCursorLine, line_after: WriteCursorLine|
            #[trigger] message_sent(
                self.sender.looked(view.read_cursor as int, payload.len() as int),
                after.sender,
                line,
                line_after,
                self.data,
                after.data,
                payload,
            ) && after.write_cursor == line_after.write_cursor
        &&& after.sent == self.sent.push(payload)
        &&& after.read_cursor == self.read_cursor
        &&& after.receiver == self.receiver
        &&& after.received == self.received
    }

    /// `after` is this ring with one more message received. The reader acted on a write
    /// cursor that the writer had published some time before.
    pub open spec fn receives(self, after: RingWorld, wc: int) -> bool {
        &&& self.read_cursor <= wc <= self.write_cursor
        &&& peek_result(self.receiver, wc, self.data) matches Ok(TryPeekResult::Ready(message))
            && take_result(self.receiver, message) is Ok && after == (RingWorld {
            read_cursor: message.end(),
            receiver: self.receiver.past(message),
            received: self.received.push(payload_of(message, self.data)),
            ..self
        })
    }

    /// `after` is this ring with some bytes that lie outside the published ones changed.
    pub open spec fn scribbles(self, after: RingWorld) -> bool {
        &&& after == (RingWorld { data: after.data, ..self })
        &&& after.data.len() == self.data.len()
        &&& forall|c: int|
            self.read_cursor <= c < self.write_cursor ==> #[trigger] after.data[slot(
                c,
                self.data.len() as int,
            )] == self.data[slot(c, self.data.len() as int)]
    }
}

/// A ring that nothing was written to.
pub open spec fn fresh_ring(data: Seq<u8>) -> RingWorld {
    RingWorld {
        data,
        write_cursor: 0,
        read_cursor: 0,
        sender: SenderView { size: data.len() as int, next_seq: 1, wc: 0, rc: 0 },
        receiver: ReceiverView { size: data.len() as int, expected_seq: 1, rc: 0 },
        sent: Seq::empty(),
        received: Seq::empty(),
    }
}

/// The ends of a ring that nothing was written to agree, whatever its bytes are.
pub proof fn law_fresh_ring_in_step(data: Seq<u8>)
    requires
        vstd::arithmetic::power2::is_pow2(data.len() as int),
        MSG_HEADER_SIZE <= data.len() <= usize::MAX,
    ensures
        fresh_ring(data).in_step(),
{
    let w = fresh_ring(data);
    assert(w.sent.take(0) =~= w.received);
    assert(w.queue() =~= Seq::<Seq<u8>>::empty());
    assert(window(data, 0, 0) =~= Seq::<u8>::empty());
}

proof fn lemma_records_push(messages: Seq<Seq<u8>>, seq: u32, last: Seq<u8>)
    ensures
        records(messages.push(last), seq) == records(messages, seq) + record(
            last,
            bumped_times(seq, messages.len()),
        ),
    decreases messages.len(),
{
    let all = messages.push(last);
    if messages.len() == 0 {
        assert(all.drop_first() =~= Seq::<Seq<u8>>::empty());
        assert(records(all.drop_first(), bump(seq)) =~= Seq::<u8>::empty());
        assert(records(all, seq) =~= record(last, seq));
    } else {
        let rest = messages.drop_first();
        assert(all.drop_first() =~= rest.push(last));
        lemma_records_push(rest, bump(seq), last);
        lemma_bump_first(seq, rest.len());
        assert(records(all, seq) =~= record(messages[0], seq) + (records(rest, bump(seq)) + record(
            last,
            bumped_times(seq, messages.len()),
        )));
    }
}

proof fn lemma_bump_first(seq: u32, times: nat)
    ensures
        bumped_times(bump(seq), times) == bumped_times(seq, times + 1),
    decreases times,
{
    if times > 0 {
        lemma_bump_first(seq, (times - 1) as nat);
    } else {
        assert(bumped_times(seq, 1) == bump(bumped_times(seq, 0)));
    }
}

proof fn lemma_bump_adds(seq: u32, a: nat, b: nat)
    ensures
        bumped_times(bumped_times(seq, a), b) == bumped_times(seq, a + b),
    decreases b,
{
    if b > 0 {
        lemma_bump_adds(seq, a, (b - 1) as nat);
    }
}

/// A message that was sent is the last one of the queue, and nothing else changed: the
/// ends still agree.
pub proof fn law_send_appends(w: RingWorld, after: RingWorld, view: SendView, payload: Seq<u8>)
    requires
        w.in_step(),
        w.sends(after, view, payload),
        payload.len() < 0x1_0000_0000,
    ensures
        after.in_step(),
        after.queue() == w.queue().push(payload),
{
    let len = payload.len() as int;
    let seen = w.sender.looked(view.read_cursor as int, len);
    let rec = record(payload, w.sender.next_seq);
    let rc = w.read_cursor;
    let wc = w.write_cursor;
    assert(seen.has_room(seen.rc, len));
    assert(seen.rc <= rc);
    assert(after.data == overwrite(w.data, wc, rec));
    assert(rec.len() == MSG_HEADER_SIZE + len);
    lemma_window_untouched(w.data, wc, rec, rc, wc - rc);
    lemma_window_of_overwrite(w.data, wc, rec);
    lemma_window_splits(after.data, rc, wc - rc, rec.len() as int);
    assert(after.queue() =~= w.queue().push(payload));
    lemma_records_push(w.queue(), w.receiver.expected_seq, payload);
    lemma_bump_adds(1, w.received.len(), w.queue().len());
    assert(after.received =~= after.sent.take(after.received.len() as int));
    assert(after.sender.next_seq == bumped_times(1, after.sent.len()));
}

/// A reader that looks finds the oldest message of the queue, as soon as it has seen it
/// published, and else nothing.
pub proof fn law_peek_finds_the_oldest(w: RingWorld, wc: int)
    requires
        w.in_step(),
        w.read_cursor <= wc <= w.write_cursor,
    ensures
        ({
            let oldest = w.queue()[0];
            let message = PeekedMessage {
                read_cursor: w.read_cursor as u64,
                payload_len: oldest.len() as usize,
                seq: w.receiver.expected_seq,
            };
            if w.queue().len() > 0 && wc - w.read_cursor >= MSG_HEADER_SIZE + oldest.len() {
                &&& peek_result(w.receiver, wc, w.data) == Ok::<TryPeekResult, Error>(
                    TryPeekResult::Ready(message),
                )
                &&& payload_of(message, w.data) == oldest
                &&& take_result(w.receiver, message) is Ok
                &&& message.end() == w.read_cursor + MSG_HEADER_SIZE + oldest.len()
                    <= w.write_cursor
            } else {
                peek_result(w.receiver, wc, w.data) == Ok::<TryPeekResult, Error>(
                    TryPeekResult::Empty,
                )
            }
        }),
{
    let rc = w.read_cursor;
    let span = w.write_cursor - rc;
    let all = window(w.data, rc, span);
    let queue = w.queue();
    if queue.len() == 0 {
        assert(all.len() == 0);
    } else {
        let oldest = queue[0];
        assert(oldest == w.sent[w.received.len() as int]);
        let seq = w.receiver.expected_seq;
        let rest = records(queue.drop_first(), bump(seq));
        lemma_record_names_its_parts(oldest, seq, rest);
        assert(all == record(oldest, seq) + rest);
        let header = window(w.data, rc, MSG_HEADER_SIZE as int);
        assert(header =~= all.subrange(0, MSG_HEADER_SIZE as int));
        assert(header.subrange(0, 4) =~= all.subrange(0, 4));
        assert(header.subrange(4, 8) =~= all.subrange(4, 8));
        let message = PeekedMessage {
            read_cursor: rc as u64,
            payload_len: oldest.len() as usize,
            seq,
        };
        assert(payload_of(message, w.data) =~= all.subrange(8, 8 + oldest.len() as int));
    }
}

/// A message that was received is the first one of the queue, which loses it: the ends
/// still agree.
pub proof fn law_receive_takes_the_oldest(w: RingWorld, after: RingWorld, wc: int)
    requires
        w.in_step(),
        w.receives(after, wc),
    ensures
        w.queue().len() > 0,
        after.in_step(),
        after.received == w.received.push(w.queue()[0]),
        after.queue() == w.queue().drop_first(),
{
    law_peek_finds_the_oldest(w, wc);
    let rc = w.read_cursor;
    let queue = w.queue();
    let oldest = queue[0];
    let seq = w.receiver.expected_seq;
    let rec = record(oldest, seq);
    assert(oldest == w.sent[w.received.len() as int]);
    assert(rec.len() == MSG_HEADER_SIZE + oldest.len());
    lemma_window_splits(
        w.data,
        rc,
        rec.len() as int,
        w.write_cursor - rc - rec.len(),
    );
    let all = window(w.data, rc, w.write_cursor - rc);
    assert(all == rec + records(queue.drop_first(), bump(seq)));
    assert(window(w.data, after.read_cursor, after.write_cursor - after.read_cursor) =~= all.skip(
        rec.len() as int,
    ));
    assert(all.skip(rec.len() as int) =~= records(queue.drop_first(), bump(seq)));
    assert(after.queue() =~= queue.drop_first());
    assert(after.received =~= after.sent.take(after.received.len() as int));
    assert(after.receiver.expected_seq == bumped_times(1, after.received.len()));
}

/// Bytes outside the published ones are not seen: the ends still agree.
pub proof fn law_unpublished_bytes_do_not_matter(w: RingWorld, after: RingWorld)
    requires
        w.in_step(),
        w.scribbles(after),
    ensures
        after.in_step(),
        after.queue() == w.queue(),
{
    let rc = w.read_cursor;
    let span = w.write_cursor - rc;
    assert forall|i: int| 0 <= i < span implies window(after.data, rc, span)[i] == window(
        w.data,
        rc,
        span,
    )[i] by {
        assert(after.data[slot(rc + i, w.data.len() as int)] == w.data[slot(
            rc + i,
            w.data.len() as int,
        )]);
    }
    assert(window(after.data, rc, span) =~= window(w.data, rc, span));
}

/// A message that is being written, as far as it is written, changes bytes outside the
/// published ones only. A writer that stops half way leaves nothing to be seen.
pub proof fn law_half_written_message_is_not_seen(
    w: RingWorld,
    after: RingWorld,
    view: SendView,
    payload: Seq<u8>,
)
    requires
        w.in_step(),
        w.sender.rc <= view.read_cursor <= w.read_cursor,
        send_result(w.sender, view, payload.len() as int) == Ok::<TrySendResult, Error>(
            TrySendResult::Sent,
        ),
        after == (RingWorld { data: after.data, ..w }),
        after.data.len() == w.data.len(),
        forall|p: int|
            0 <= p < w.data.len() && slot(p - w.write_cursor, w.data.len() as int)
                >= MSG_HEADER_SIZE + payload.len() ==> #[trigger] after.data[p] == w.data[p],
    ensures
        w.scribbles(after),
        after.in_step(),
        after.queue() == w.queue(),
{
    let size = w.data.len() as int;
    let len = MSG_HEADER_SIZE + payload.len();
    assert forall|c: int| w.read_cursor <= c < w.write_cursor implies #[trigger] after.data[slot(
        c,
        size,
    )] == w.data[slot(c, size)] by {
        vstd::arithmetic::div_mod::lemma_mod_bound(c, size);
        let p = slot(c, size);
        let k = slot(p - w.write_cursor, size);
        if k < len {
            vstd::arithmetic::div_mod::lemma_mod_bound(p - w.write_cursor, size);
            vstd::arithmetic::div_mod::lemma_add_mod_noop_right(
                w.write_cursor,
                p - w.write_cursor,
                size,
            );
            vstd::arithmetic::div_mod::lemma_mod_twice(c, size);
            crate::circular::lemma_slot_injective(w.write_cursor + k, c, size);
        }
    }
    law_unpublished_bytes_do_not_matter(w, after);
}

/// One thing that can happen to a ring: a message is sent, a message is received, the
/// writer sees a newer read cursor, or unpublished bytes change.
pub open spec fn ring_step(a: RingWorld, b: RingWorld) -> bool {
    ||| exists|view: SendView, payload: Seq<u8>|
        payload.len() < 0x1_0000_0000 && #[trigger] a.sends(b, view, payload)
    ||| exists|wc: int| #[trigger] a.receives(b, wc)
    ||| a.scribbles(b)
    ||| a.sender.rc <= b.sender.rc <= a.read_cursor && b == (RingWorld {
        sender: a.sender.seeing(b.sender.rc),
        ..a
    })
}

/// First in, first out: after any run of a ring, in whatever order its ends took turns,
/// what was received is how what was sent begins, and the rest is queued.
pub proof fn law_first_in_first_out(run: Seq<RingWorld>)
    requires
        run.len() > 0,
        run[0].in_step(),
        forall|i: int| 0 <= i < run.len() - 1 ==> ring_step(#[trigger] run[i], run[i + 1]),
    ensures
        run.last().in_step(),
        run.last().sent == run.last().received + run.last().queue(),
    decreases run.len(),
{
    if run.len() > 1 {
        let shorter = run.drop_last();
        assert forall|i: int| 0 <= i < shorter.len() - 1 implies ring_step(
            #[trigger] shorter[i],
            shorter[i + 1],
        ) by {
            assert(ring_step(run[i], run[i + 1]));
        }
        law_first_in_first_out(shorter);
        let a = shorter.last();
        let b = run.last();
        assert(ring_step(run[run.len() - 2], run[run.len() - 1]));
        if exists|view: SendView, payload: Seq<u8>|
            payload.len() < 0x1_0000_0000 && #[trigger] a.sends(b, view, payload) {
            let (view, payload) = choose|view: SendView, payload: Seq<u8>|
                payload.len() < 0x1_0000_0000 && #[trigger] a.sends(b, view, payload);
            law_send_appends(a, b, view, payload);
        } else if exists|wc: int| #[trigger] a.receives(b, wc) {
            let wc = choose|wc: int| #[trigger] a.receives(b, wc);
            law_receive_takes_the_oldest(a, b, wc);
        } else if a.scribbles(b) {
            law_unpublished_bytes_do_not_matter(a, b);
        } else {
            assert(b.in_step());
        }
    }
    let w = run.last();
    assert(w.sent =~= w.received + w.queue());
}

/// What a read gives back of a write: a message sent on an empty ring is the one that
/// is received next.
pub proof fn law_received_as_sent(
    w: RingWorld,
    sent: RingWorld,
    received: RingWorld,
    view: SendView,
    payload: Seq<u8>,
    wc: int,
)
    requires
        w.in_step(),
        w.queue().len() == 0,
        payload.len() < 0x1_0000_0000,
        w.sends(sent, view, payload),
        sent.receives(received, wc),
    ensures
        received.received == w.received.push(payload),
        received.queue().len() == 0,
{
    law_send_appends(w, sent, view, payload);
    law_receive_takes_the_oldest(sent, received, wc);
}

/// A writer that knows an old read cursor never sees more room than there is: what it
/// sends fits in front of what the reader has not read.
pub proof fn law_old_cursor_is_safe(v: SenderView, newer: int, payload_len: int)
    requires
        v.valid(),
        v.rc <= newer <= v.wc,
        v.has_room(v.rc, payload_len),
    ensures
        v.has_room(newer, payload_len),
{
}

/// A ring whose messages were all read takes any message that it can hold at all; the
/// longest one leaves no byte free.
pub proof fn law_empty_ring_takes_what_it_can_hold(v: SenderView, view: SendView, payload_len: int)
    requires
        v.valid(),
        v.size >= MSG_HEADER_SIZE,
        0 <= payload_len <= usize::MAX,
        view.read_cursor == v.wc,
        view.status.terminal() is None,
    ensures
        payload_len <= v.size - MSG_HEADER_SIZE <==> send_result(v, view, payload_len) == Ok::<
            TrySendResult,
            Error,
        >(TrySendResult::Sent),
        payload_len > v.size - MSG_HEADER_SIZE <==> send_result(v, view, payload_len) == Err::<
            TrySendResult,
            Error,
        >(
            Error::MessageTooLarge {
                size: payload_len as usize,
                max: (v.size - MSG_HEADER_SIZE) as usize,
            },
        ),
{
}

/// Messages that were published are received before the end of the channel is
/// reported, however it ended; without an end, an empty ring is waited on.
pub proof fn law_queue_is_drained_before_the_end(w: RingWorld, view: RecvView)
    requires
        w.in_step(),
        view.write_cursor == w.write_cursor,
        view.write_cursor_again == w.write_cursor,
    ensures
        w.queue().len() > 0 ==> (peek_or_closed_result(w.receiver, view, w.data) matches Ok(
            Some(message),
        ) && payload_of(message, w.data) == w.queue()[0]),
        w.queue().len() == 0 ==> peek_or_closed_result(w.receiver, view, w.data) == (
        match view.status.terminal() {
            Some(e) => Err::<Option<PeekedMessage>, Error>(e),
            None => Ok(None),
        }),
{
    law_peek_finds_the_oldest(w, w.write_cursor);
    if w.queue().len() > 0 {
        let seq = w.receiver.expected_seq;
        let oldest = w.queue()[0];
        let all = window(w.data, w.read_cursor, w.write_cursor - w.read_cursor);
        assert(all == record(oldest, seq) + records(w.queue().drop_first(), bump(seq)));
        assert(all.len() >= MSG_HEADER_SIZE + oldest.len());
    }
}

/// A message published between the first look and the end of the channel is received:
/// the second look finds it.
pub proof fn law_last_message_is_not_lost(w: RingWorld, view: RecvView)
    requires
        w.in_step(),
        w.queue().len() > 0,
        w.read_cursor <= view.write_cursor <= w.write_cursor,
        view.write_cursor_again == w.write_cursor,
        view.status.terminal() is Some,
    ensures
        peek_or_closed_result(w.receiver, view, w.data) matches Ok(Some(message)) && payload_of(
            message,
            w.data,
        ) == w.queue()[0],
{
    let full = RecvView { write_cursor: view.write_cursor_again, ..view };
    law_queue_is_drained_before_the_end(w, full);
    law_peek_finds_the_oldest(w, view.write_cursor as int);
    law_peek_finds_the_oldest(w, w.write_cursor);
}

/// A published close is reported as such, whatever was found about the peer's process.
pub proof fn law_close_comes_before_peer_death(status: ChannelStatus)
    requires
        !active_code(status.state),
    ensures
        status.terminal() == Some(Error::ChannelClosed),
{
}

/// Without a close, a peer that exited is reported as disconnected, and a watch that
/// failed keeps its own error.
pub proof fn law_peer_death_without_a_close(status: ChannelStatus)
    requires
        active_code(status.state),
    ensures
        status.peer.terminal matches Some(Ok(())) ==> status.terminal() == Some(
            Error::PeerDisconnected,
        ),
        status.peer.terminal matches Some(Err(e)) ==> status.terminal() == Some(Error::Io(e)),
        status.peer.terminal is None ==> status.terminal() is None,
{
}

/// Once the channel has ended nothing more is sent, room or no room.
pub proof fn law_nothing_is_sent_after_the_end(v: SenderView, view: SendView, payload_len: int)
    requires
        view.status.terminal() is Some,
    ensures
        send_result(v, view, payload_len) == Err::<TrySendResult, Error>(
            view.status.terminal()->0,
        ),
{
}

/// Once the channel has ended, by a close or by what the watch has found, no look finds a reason
/// to go on waiting: neither that of a writer that waits for room, nor that of a reader that
/// waits for a message.
pub proof fn law_no_look_waits_past_the_end(
    sender: SenderView,
    send: SendView,
    payload_len: int,
    receiver: ReceiverView,
    recv: RecvView,
    data: Seq<u8>,
)
    ensures
        send.status.terminal() is Some ==> room_look(sender, send, payload_len) != Ok::<
            bool,
            Error,
        >(false),
        recv.status.terminal() is Some ==> peek_or_closed_result(receiver, recv, data) != Ok::<
            Option<PeekedMessage>,
            Error,
        >(None),
{
}

/// A step of a blocking send that answers `Ok` has published the whole message; any other
/// step, and so any send that fails, runs out of time or is given up, has published
/// nothing and written nothing.
pub proof fn law_blocking_send_is_all_or_nothing<W: WaitStrategy>(
    wait: &W,
    timeout: Option<u128>,
    op: BlockingOp<W::Op>,
    event: WaitEvent,
    view: SendView,
    payload: Seq<u8>,
    r: (BlockingOp<W::Op>, Step<()>),
    before: (SenderView, WriteCursorLine, Seq<u8>),
    after: (SenderView, WriteCursorLine, Seq<u8>),
)
    requires
        send_stepped(wait, timeout, op, event, view, payload, r, before, after),
    ensures
        r.1 matches Step::Done { unpark, result: Ok(()) } ==> {
            &&& after.0.wc == before.0.wc + MSG_HEADER_SIZE + payload.len()
            &&& after.0.next_seq == bump(before.0.next_seq)
            &&& after.1 == published(before.1, after.0.wc)
            &&& after.2 == overwrite(before.2, before.0.wc, record(payload, before.0.next_seq))
        },
        !(r.1 matches Step::Done { unpark, result: Ok(()) }) ==> {
            &&& after.0 == before.0.seeing(after.0.rc)
            &&& after.1 == before.1
            &&& after.2 == before.2
        },
{
}

/// A blocking send that answers `Ok` appends its message to the queue.
pub proof fn law_blocking_send_appends<W: WaitStrategy>(
    wait: &W,
    timeout: Option<u128>,
    op: BlockingOp<W::Op>,
    event: WaitEvent,
    view: SendView,
    payload: Seq<u8>,
    r: (BlockingOp<W::Op>, Step<()>),
    lines: (WriteCursorLine, WriteCursorLine),
    w: RingWorld,
    after: RingWorld,
)
    requires
        w.in_step(),
        w.sender.rc <= view.read_cursor <= w.read_cursor,
        w.sender.ready(view, w.data.len() as int, payload.len() as int, op is Waiting),
        payload.len() < 0x1_0000_0000,
        op_answers(wait, op, event),
        send_stepped(
            wait,
            timeout,
            op,
            event,
            view,
            payload,
            r,
            (w.sender, lines.0, w.data),
            (after.sender, lines.1, after.data),
        ),
        r.1 matches Step::Done { unpark, result: Ok(()) },
        after == (RingWorld {
            sender: after.sender,
            data: after.data,
            write_cursor: lines.1.write_cursor as int,
            sent: w.sent.push(payload),
            ..w
        }),
    ensures
        after.in_step(),
        after.queue() == w.queue().push(payload),
{
    let len = payload.len() as int;
    let rc = view.read_cursor as int;
    let v = w.sender;
    if op is Start && send_result(v, view, len) is Ok {
        if send_result(v, view, len) == Ok::<TrySendResult, Error>(TrySendResult::Sent) {
            assert(message_sent(
                v.looked(rc, len),
                after.sender,
                lines.0,
                lines.1,
                w.data,
                after.data,
                payload,
            ));
            assert(w.sends(after, view, payload));
            law_send_appends(w, after, view, payload);
        } else {
            wait.begins_with_proceed(timeout);
            wait.ends_as_the_condition_says(wait.fresh(timeout), WaitEvent::Proceed, Ok(false));
        }
    } else if let BlockingOp::Waiting(o) = op {
        wait.ends_as_the_condition_says(o, event, room_look(v, view, len));
        // The writer first sees the newer read cursor, then sends.
        let seen = RingWorld { sender: v.seeing(rc), ..w };
        assert(seen.in_step());
        assert(seen.sender.looked(rc, len) == seen.sender);
        assert(message_sent(
            seen.sender.looked(rc, len),
            after.sender,
            lines.0,
            lines.1,
            seen.data,
            after.data,
            payload,
        ));
        assert(seen.sends(after, view, payload));
        law_send_appends(seen, after, view, payload);
    }
}

/// A step of a blocking receive that answers `Ok` has taken one message, the oldest of the
/// queue; a receive that is given up has taken none.
pub proof fn law_blocking_recv_takes_the_oldest<W: WaitStrategy>(
    wait: &W,
    timeout: Option<u128>,
    op: BlockingOp<W::Op>,
    event: WaitEvent,
    view: RecvView,
    r: (BlockingOp<W::Op>, Step<Vec<u8>>),
    lines: (ReadCursorLine, ReadCursorLine),
    w: RingWorld,
    receiver: ReceiverView,
)
    requires
        w.in_step(),
        w.read_cursor <= view.write_cursor <= w.write_cursor,
        w.read_cursor <= view.write_cursor_again <= w.write_cursor,
        op_answers(wait, op, event),
        recv_stepped(
            wait,
            timeout,
            op,
            event,
            view,
            w.data,
            r,
            (w.receiver, lines.0),
            (receiver, lines.1),
        ),
    ensures
        r.1 matches Step::Done { unpark, result: Ok(buf) } ==> {
            let after = RingWorld {
                receiver,
                read_cursor: lines.1.read_cursor as int,
                received: w.received.push(buf@),
                ..w
            };
            &&& w.queue().len() > 0
            &&& buf@ == w.queue()[0]
            &&& after.in_step()
            &&& after.queue() == w.queue().drop_first()
        },
        !(r.1 matches Step::Done { unpark, result: Ok(buf) }) ==> receiver == w.receiver && lines.1
            == lines.0,
{
    let (o, next) = current_wait(wait, timeout, op, event);
    let found = peek_or_closed_result(w.receiver, view, w.data);
    let look: std::result::Result<bool, Error> = match found {
        Ok(Some(_)) => Ok(true),
        Ok(None) => Ok(false),
        Err(e) => Err(e),
    };
    wait.begins_with_proceed(timeout);
    wait.ends_as_the_condition_says(o, next, look);
    lemma_found_is_the_oldest(w, view);
    if let Step::Done { unpark, result: Ok(buf) } = r.1 {
        let message = found->Ok_0->0;
        let wc = if peek_result(w.receiver, view.write_cursor as int, w.data)
            == Ok::<TryPeekResult, Error>(TryPeekResult::Empty) {
            view.write_cursor_again as int
        } else {
            view.write_cursor as int
        };
        let after = RingWorld {
            receiver,
            read_cursor: lines.1.read_cursor as int,
            received: w.received.push(buf@),
            ..w
        };
        assert(w.receives(after, wc));
        law_receive_takes_the_oldest(w, after, wc);
    }
}

/// A step of a blocking receive into a buffer takes the oldest message of the queue: it
/// fills the front of the buffer with it, or reports a buffer that is too short and leaves
/// it alone. Either way the message is taken, and the next one can be received.
pub proof fn law_blocking_recv_into_takes_the_oldest<W: WaitStrategy>(
    wait: &W,
    timeout: Option<u128>,
    op: BlockingOp<W::Op>,
    event: WaitEvent,
    view: RecvView,
    r: (BlockingOp<W::Op>, Step<usize>),
    lines: (ReadCursorLine, ReadCursorLine),
    bufs: (Seq<u8>, Seq<u8>),
    w: RingWorld,
    receiver: ReceiverView,
)
    requires
        w.in_step(),
        w.read_cursor <= view.write_cursor <= w.write_cursor,
        w.read_cursor <= view.write_cursor_again <= w.write_cursor,
        op_answers(wait, op, event),
        bufs.0.len() <= usize::MAX,
        recv_into_stepped(
            wait,
            timeout,
            op,
            event,
            view,
            w.data,
            r,
            (w.receiver, lines.0, bufs.0),
            (receiver, lines.1, bufs.1),
        ),
    ensures
        receiver == w.receiver && lines.1 == lines.0 && bufs.1 == bufs.0 || {
            let oldest = w.queue()[0];
            let after = RingWorld {
                receiver,
                read_cursor: lines.1.read_cursor as int,
                received: w.received.push(oldest),
                ..w
            };
            &&& w.queue().len() > 0
            &&& after.in_step()
            &&& after.queue() == w.queue().drop_first()
            &&& r.1 matches Step::Done { unpark, result }
            &&& if oldest.len() <= bufs.0.len() {
                &&& result == Ok::<usize, Error>(oldest.len() as usize)
                &&& bufs.1 == oldest + bufs.0.skip(oldest.len() as int)
            } else {
                &&& result == Err::<usize, Error>(
                    Error::MessageTooLarge {
                        size: oldest.len() as usize,
                        max: bufs.0.len() as usize,
                    },
                )
                &&& bufs.1 == bufs.0
            }
        },
        r.1 matches Step::Done { unpark, result: Ok(n) } ==> receiver != w.receiver,
{
    let (o, next) = current_wait(wait, timeout, op, event);
    let found = peek_or_closed_result(w.receiver, view, w.data);
    let look: std::result::Result<bool, Error> = match found {
        Ok(Some(_)) => Ok(true),
        Ok(None) => Ok(false),
        Err(e) => Err(e),
    };
    wait.begins_with_proceed(timeout);
    wait.ends_as_the_condition_says(o, next, look);
    lemma_found_is_the_oldest(w, view);
    if receiver != w.receiver {
        let message = found->Ok_0->0;
        let wc = if peek_result(w.receiver, view.write_cursor as int, w.data)
            == Ok::<TryPeekResult, Error>(TryPeekResult::Empty) {
            view.write_cursor_again as int
        } else {
            view.write_cursor as int
        };
        let after = RingWorld {
            receiver,
            read_cursor: lines.1.read_cursor as int,
            received: w.received.push(w.queue()[0]),
            ..w
        };
        assert(w.receives(after, wc));
        law_receive_takes_the_oldest(w, after, wc);
    }
}

/// A receive that does not wait takes the oldest message of the queue if it has seen it
/// published, and else answers that there is none: it never reports the end of the
/// channel.
pub proof fn law_try_recv_takes_the_oldest_or_nothing(
    wc: int,
    r: std::result::Result<Option<Vec<u8>>, Error>,
    lines: (ReadCursorLine, ReadCursorLine),
    w: RingWorld,
    receiver: ReceiverView,
)
    requires
        w.in_step(),
        w.read_cursor <= wc <= w.write_cursor,
        try_recv_stepped(wc, w.data, r, (w.receiver, lines.0), (receiver, lines.1)),
    ensures
        r is Ok,
        wc == w.write_cursor ==> (r->Ok_0 is None <==> w.queue().len() == 0),
        r->Ok_0 is None ==> receiver == w.receiver && lines.1 == lines.0,
        r->Ok_0 matches Some(buf) ==> {
            let after = RingWorld {
                receiver,
                read_cursor: lines.1.read_cursor as int,
                received: w.received.push(buf@),
                ..w
            };
            &&& w.queue().len() > 0
            &&& buf@ == w.queue()[0]
            &&& after.in_step()
            &&& after.queue() == w.queue().drop_first()
        },
{
    law_peek_finds_the_oldest(w, wc);
    if wc == w.write_cursor {
        let status = ChannelStatus { peer: arbitrary(), state: 0 };
        let view = RecvView { write_cursor: wc as u64, status, write_cursor_again: wc as u64 };
        law_queue_is_drained_before_the_end(w, view);
    }
    if let Ok(Some(buf)) = r {
        let after = RingWorld {
            receiver,
            read_cursor: lines.1.read_cursor as int,
            received: w.received.push(buf@),
            ..w
        };
        assert(w.receives(after, wc));
        law_receive_takes_the_oldest(w, after, wc);
    }
}

/// A step of a blocking send that has published its message leaves a line that is to be
/// announced; one that has not leaves nothing to announce.
pub proof fn law_sent_message_is_announced<W: WaitStrategy>(
    wait: &W,
    timeout: Option<u128>,
    op: BlockingOp<W::Op>,
    event: WaitEvent,
    view: SendView,
    payload: Seq<u8>,
    r: (BlockingOp<W::Op>, Step<()>),
    before: (SenderView, WriteCursorLine, Seq<u8>),
    after: (SenderView, WriteCursorLine, Seq<u8>),
)
    requires
        send_stepped(wait, timeout, op, event, view, payload, r, before, after),
    ensures
        before.1.announced(after.1) == (if r.1 matches Step::Done { unpark, result: Ok(()) } {
            PublishStage::Store
        } else {
            PublishStage::Over
        }),
{
    crate::header::law_bump_changes(before.1.notify);
}

/// A reader that has taken a message leaves a line that is to be announced; one that has not
/// leaves nothing to announce.
pub proof fn law_taken_message_is_announced(
    before: ReceiverView,
    after: ReceiverView,
    lines: (ReadCursorLine, ReadCursorLine),
    message: PeekedMessage,
)
    requires
        message_taken(before, after, lines.0, lines.1, message),
    ensures
        lines.0.announced(lines.1) == (if take_result(before, message) is Ok {
            PublishStage::Store
        } else {
            PublishStage::Over
        }),
{
    crate::header::law_bump_changes(lines.0.notify);
}

/// Where nobody watches the peer's process, as with a channel that was created and opened
/// directly and with the connection made from it, nothing is ever found about it: a status
/// reports a close or nothing.
pub proof fn law_unwatched_peer_is_never_found_dead(status: ChannelStatus)
    requires
        status.peer.terminal is None,
    ensures
        status.terminal() is None || status.terminal() == Some(Error::ChannelClosed),
{
}

/// Where nobody watches the peer's process, no step of sending reports it as gone.
pub proof fn law_unwatched_send_never_reports_peer_death<W: WaitStrategy>(
    wait: &W,
    timeout: Option<u128>,
    op: BlockingOp<W::Op>,
    event: WaitEvent,
    view: SendView,
    payload: Seq<u8>,
    r: (BlockingOp<W::Op>, Step<()>),
    before: (SenderView, WriteCursorLine, Seq<u8>),
    after: (SenderView, WriteCursorLine, Seq<u8>),
)
    requires
        view.status.peer.terminal is None,
        op_answers(wait, op, event),
        send_stepped(wait, timeout, op, event, view, payload, r, before, after),
    ensures
        r.1 matches Step::Done { unpark, result } ==> result != Err::<(), Error>(
            Error::PeerDisconnected,
        ),
{
    let (o, next) = current_wait(wait, timeout, op, event);
    let look: std::result::Result<bool, Error> = if op is Start {
        Ok(false)
    } else {
        room_look(before.0, view, payload.len() as int)
    };
    wait.begins_with_proceed(timeout);
    wait.ends_as_the_condition_says(o, next, look);
}

/// Where nobody watches the peer's process, no step of receiving reports it as gone: neither
/// one that answers with the message, nor one that fills a buffer, nor one that does not wait.
pub proof fn law_unwatched_receive_never_reports_peer_death<W: WaitStrategy>(
    wait: &W,
    timeout: Option<u128>,
    op: BlockingOp<W::Op>,
    event: WaitEvent,
    view: RecvView,
    data: Seq<u8>,
    before: (ReceiverView, ReadCursorLine, Seq<u8>),
    after: (ReceiverView, ReadCursorLine, Seq<u8>),
    message: (BlockingOp<W::Op>, Step<Vec<u8>>),
    filled: (BlockingOp<W::Op>, Step<usize>),
    tried: std::result::Result<Option<Vec<u8>>, Error>,
)
    requires
        view.status.peer.terminal is None,
        op_answers(wait, op, event),
    ensures
        recv_stepped(
            wait,
            timeout,
            op,
            event,
            view,
            data,
            message,
            (before.0, before.1),
            (after.0, after.1),
        ) ==> (message.1 matches Step::Done { unpark, result } ==> result != Err::<Vec<u8>, Error>(
            Error::PeerDisconnected,
        )),
        recv_into_stepped(wait, timeout, op, event, view, data, filled, before, after) ==> (
        filled.1 matches Step::Done { unpark, result } ==> result != Err::<usize, Error>(
            Error::PeerDisconnected,
        )),
        try_recv_stepped(
            view.write_cursor as int,
            data,
            tried,
            (before.0, before.1),
            (after.0, after.1),
        ) ==> tried != Err::<Option<Vec<u8>>, Error>(Error::PeerDisconnected),
{
    let (o, next) = current_wait(wait, timeout, op, event);
    let look: std::result::Result<bool, Error> = match peek_or_closed_result(
        before.0,
        view,
        data,
    ) {
        Ok(Some(_)) => Ok(true),
        Ok(None) => Ok(false),
        Err(e) => Err(e),
    };
    wait.begins_with_proceed(timeout);
    wait.ends_as_the_condition_says(o, next, look);
}

/// What a look finds is the oldest message of the queue, and it may be taken.
pub proof fn lemma_found_is_the_oldest(w: RingWorld, view: RecvView)
    requires
        w.in_step(),
        w.read_cursor <= view.write_cursor <= w.write_cursor,
        w.read_cursor <= view.write_cursor_again <= w.write_cursor,
    ensures
        peek_or_closed_result(w.receiver, view, w.data) matches Ok(Some(message)) ==> {
            &&& w.queue().len() > 0
            &&& payload_of(message, w.data) == w.queue()[0]
            &&& take_result(w.receiver, message) is Ok
            &&& message.end() <= w.write_cursor
        },
{
    law_peek_finds_the_oldest(w, view.write_cursor as int);
    law_peek_finds_the_oldest(w, view.write_cursor_again as int);
}

} // verus!
