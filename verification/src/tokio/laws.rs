//! What holds of operations in tasks: a task that is dropped half way has done nothing,
//! and a task that waits is woken.

use vstd::prelude::*;

use crate::circular::overwrite;
use crate::error::Error;
use crate::header::{bump, ReadCursorLine, WriteCursorLine};
use crate::laws::{
    law_peek_finds_the_oldest, law_receive_takes_the_oldest, law_send_appends,
    lemma_found_is_the_oldest, RingWorld,
};
use crate::record::{record, MSG_HEADER_SIZE};
use crate::ring::{
    consumed, message_sent, payload_of, peek_or_closed_result, peek_result, published,
    ReceiverView, RecvView, SendView, SenderView, TryPeekResult,
};
use crate::tokio::{
    async_recv_into_stepped, async_recv_stepped, async_send_stepped, drained, ends_the_channel,
    recv_many_stepped, AsyncAction, AsyncEvent, AsyncOp, AsyncStep, ManyOp,
};

verus! {

/// A step of sending in a task that answers `Ok` has published the whole message; any
/// other step has published nothing and written nothing. So a task that is dropped while
/// it sends has sent nothing.
pub proof fn law_dropped_send_publishes_nothing(
    spins: u32,
    op: AsyncOp,
    event: AsyncEvent,
    view: SendView,
    payload: Seq<u8>,
    r: (AsyncOp, AsyncStep<()>),
    before: (SenderView, WriteCursorLine, Seq<u8>),
    after: (SenderView, WriteCursorLine, Seq<u8>),
)
    requires
        async_send_stepped(spins, op, event, view, payload, r, before, after),
    ensures
        r.1 == AsyncStep::<()>::Done(Ok(())) ==> {
            &&& after.0.wc == before.0.wc + MSG_HEADER_SIZE + payload.len()
            &&& after.0.next_seq == bump(before.0.next_seq)
            &&& after.1 == published(before.1, after.0.wc)
            &&& after.2 == overwrite(before.2, before.0.wc, record(payload, before.0.next_seq))
        },
        r.1 != AsyncStep::<()>::Done(Ok(())) ==> {
            &&& after.0 == before.0.seeing(after.0.rc)
            &&& after.1 == before.1
            &&& after.2 == before.2
        },
{
}

/// Sending in a task that answers `Ok` appends the message to the queue.
pub proof fn law_task_send_appends(
    spins: u32,
    op: AsyncOp,
    event: AsyncEvent,
    view: SendView,
    payload: Seq<u8>,
    r: (AsyncOp, AsyncStep<()>),
    lines: (WriteCursorLine, WriteCursorLine),
    w: RingWorld,
    after: RingWorld,
)
    requires
        w.in_step(),
        w.sender.rc <= view.read_cursor <= w.read_cursor,
        w.sender.may_try(view, w.data.len() as int, payload.len() as int),
        payload.len() < 0x1_0000_0000,
        async_send_stepped(
            spins,
            op,
            event,
            view,
            payload,
            r,
            (w.sender, lines.0, w.data),
            (after.sender, lines.1, after.data),
        ),
        r.1 == AsyncStep::<()>::Done(Ok(())),
        after == (RingWorld {
            sender: after.sender,
            data: after.data,
            write_cursor: lines.1.write_cursor as int,
            sent: w.sent.push(payload),
            ..w
        }),
    ensures
        after.in_step(),
        after.queue() == w.queue().push(payload),
{
    assert(message_sent(
        w.sender.looked(view.read_cursor as int, payload.len() as int),
        after.sender,
        lines.0,
        lines.1,
        w.data,
        after.data,
        payload,
    ));
    assert(w.sends(after, view, payload));
    law_send_appends(w, after, view, payload);
}

/// A step of receiving in a task that does not answer leaves the reader and its line as
/// they were. So a task that is dropped while it waits for a message has taken none.
pub proof fn law_dropped_receive_takes_nothing(
    spins: u32,
    op: AsyncOp,
    event: AsyncEvent,
    view: RecvView,
    data: Seq<u8>,
    r: (AsyncOp, AsyncStep<Vec<u8>>),
    before: (ReceiverView, ReadCursorLine),
    after: (ReceiverView, ReadCursorLine),
)
    requires
        async_recv_stepped(spins, op, event, view, data, r, before, after),
        r.1 is Act,
    ensures
        after == before,
{
}

/// The same where the message goes to a buffer of the caller's, which is left alone too.
pub proof fn law_dropped_receive_into_takes_nothing(
    spins: u32,
    op: AsyncOp,
    event: AsyncEvent,
    view: RecvView,
    data: Seq<u8>,
    r: (AsyncOp, AsyncStep<usize>),
    before: (ReceiverView, ReadCursorLine, Seq<u8>),
    after: (ReceiverView, ReadCursorLine, Seq<u8>),
)
    requires
        async_recv_into_stepped(spins, op, event, view, data, r, before, after),
        r.1 is Act,
    ensures
        after == before,
{
}

/// Receiving in a task that answers `Ok` takes the oldest message of the queue.
pub proof fn law_task_recv_takes_the_oldest(
    spins: u32,
    op: AsyncOp,
    event: AsyncEvent,
    view: RecvView,
    r: (AsyncOp, AsyncStep<Vec<u8>>),
    lines: (ReadCursorLine, ReadCursorLine),
    w: RingWorld,
    receiver: ReceiverView,
)
    requires
        w.in_step(),
        w.read_cursor <= view.write_cursor <= w.write_cursor,
        w.read_cursor <= view.write_cursor_again <= w.write_cursor,
        async_recv_stepped(
            spins,
            op,
            event,
            view,
            w.data,
            r,
            (w.receiver, lines.0),
            (receiver, lines.1),
        ),
    ensures
        r.1 matches AsyncStep::Done(Ok(buf)) ==> {
            let after = RingWorld {
                receiver,
                read_cursor: lines.1.read_cursor as int,
                received: w.received.push(buf@),
                ..w
            };
            &&& w.queue().len() > 0
            &&& buf@ == w.queue()[0]
            &&& after.in_step()
            &&& after.queue() == w.queue().drop_first()
        },
{
    lemma_found_is_the_oldest(w, view);
    if let AsyncStep::Done(Ok(buf)) = r.1 {
        let wc = lemma_where_found(w.receiver, view, w.data);
        let after = RingWorld {
            receiver,
            read_cursor: lines.1.read_cursor as int,
            received: w.received.push(buf@),
            ..w
        };
        assert(w.receives(after, wc));
        law_receive_takes_the_oldest(w, after, wc);
    }
}

/// A step of receiving several messages appends the oldest message of the queue, or
/// nothing.
pub proof fn law_batch_grows_by_the_oldest(
    spins: u32,
    max: usize,
    many: ManyOp,
    event: AsyncEvent,
    view: RecvView,
    r: (ManyOp, AsyncStep<usize>),
    lines: (ReadCursorLine, ReadCursorLine),
    outs: (Seq<Seq<u8>>, Seq<Seq<u8>>),
    w: RingWorld,
    receiver: ReceiverView,
)
    requires
        w.in_step(),
        w.read_cursor <= view.write_cursor <= w.write_cursor,
        w.read_cursor <= view.write_cursor_again <= w.write_cursor,
        recv_many_stepped(
            spins,
            max,
            many,
            event,
            view,
            w.data,
            r,
            (w.receiver, lines.0, outs.0),
            (receiver, lines.1, outs.1),
        ),
    ensures
        outs.1 == outs.0 && receiver == w.receiver && lines.1 == lines.0 || {
            let after = RingWorld {
                receiver,
                read_cursor: lines.1.read_cursor as int,
                received: w.received.push(w.queue()[0]),
                ..w
            };
            &&& w.queue().len() > 0
            &&& outs.1 == outs.0.push(w.queue()[0])
            &&& after.in_step()
            &&& after.queue() == w.queue().drop_first()
        },
{
    lemma_found_is_the_oldest(w, view);
    if peek_or_closed_result(w.receiver, view, w.data) matches Ok(Some(_)) && receiver
        != w.receiver {
        let wc = lemma_where_found(w.receiver, view, w.data);
        let after = RingWorld {
            receiver,
            read_cursor: lines.1.read_cursor as int,
            received: w.received.push(w.queue()[0]),
            ..w
        };
        assert(w.receives(after, wc));
        law_receive_takes_the_oldest(w, after, wc);
    }
}

/// Which of the two loads of the write cursor a message was found by.
proof fn lemma_where_found(v: ReceiverView, view: RecvView, data: Seq<u8>) -> (wc: int)
    requires
        peek_or_closed_result(v, view, data) matches Ok(Some(_)),
    ensures
        wc == view.write_cursor || wc == view.write_cursor_again,
        peek_result(v, wc, data) == Ok::<TryPeekResult, Error>(
            TryPeekResult::Ready(peek_or_closed_result(v, view, data)->Ok_0->0),
        ),
{
    if peek_result(v, view.write_cursor as int, data) == Ok::<TryPeekResult, Error>(
        TryPeekResult::Empty,
    ) {
        view.write_cursor_again as int
    } else {
        view.write_cursor as int
    }
}

/// Coming to the channel's end makes a batch of what was collected before, and the end is
/// reported by the receive that follows; by a receive that has collected nothing it is
/// reported at once.
pub proof fn law_batch_comes_before_the_end(
    spins: u32,
    maxes: (usize, usize),
    many: ManyOp,
    views: (RecvView, RecvView),
    data: Seq<u8>,
    rs: ((ManyOp, AsyncStep<usize>), (ManyOp, AsyncStep<usize>)),
    before: (ReceiverView, ReadCursorLine, Seq<Seq<u8>>),
    between: (ReceiverView, ReadCursorLine, Seq<Seq<u8>>),
    after: (ReceiverView, ReadCursorLine, Seq<Seq<u8>>),
    end: Error,
)
    requires
        0 < many.collected < maxes.0,
        0 < maxes.1,
        many.op is Looking,
        ends_the_channel(end),
        peek_or_closed_result(before.0, views.0, data) matches Err(e) && e == end,
        peek_or_closed_result(before.0, views.1, data) matches Err(e) && e == end,
        recv_many_stepped(
            spins,
            maxes.0,
            many,
            AsyncEvent::Proceed,
            views.0,
            data,
            rs.0,
            before,
            between,
        ),
        recv_many_stepped(
            spins,
            maxes.1,
            ManyOp { op: AsyncOp::start(spins), collected: 0 },
            AsyncEvent::Proceed,
            views.1,
            data,
            rs.1,
            between,
            after,
        ),
    ensures
        rs.0.1 == AsyncStep::<usize>::Done(Ok(many.collected)),
        between == before,
        rs.1.1 == AsyncStep::<usize>::Done(Err(end)),
        after == before,
{
}

/// A task waits only for a word to change that it noted before its last looks, all of
/// which found nothing: what is published after the note changes the word, and what was
/// published before is found by a look.
pub proof fn law_task_waits_on_a_noted_word(op: AsyncOp, spins: u32, event: AsyncEvent)
    requires
        op.answers(event),
        AsyncOp::broken(event) is None,
    ensures
        op.unsuccessful(spins, event).1 matches AsyncAction::WaitChanged { observed } ==> {
            ||| op == (AsyncOp::Looking { left: 0, observed: Some(observed) })
            ||| op is Noting && spins == 0 && event == AsyncEvent::Noted(Ok(observed))
        },
        op is Noting ==> (event matches AsyncEvent::Noted(Ok(noted)) && op.look(spins, event) == (
            spins,
            Some(noted),
        )),
        op.unsuccessful(spins, event).0 matches AsyncOp::Looking { left, observed } ==> observed
            == op.look(spins, event).1 && left + 1 == op.look(spins, event).0,
{
}

/// Draining a ring takes its queue from the front, in order, as much of it as was asked
/// for; it ends well, whatever became of the channel.
pub proof fn law_drain_takes_the_queue_in_order(w: RingWorld, line: ReadCursorLine, max: nat)
    requires
        w.in_step(),
    ensures
        ({
            let d = drained(w.receiver, line, w.write_cursor, w.data, max);
            let n = if max <= w.queue().len() {
                max
            } else {
                w.queue().len()
            };
            &&& d.end is Ok
            &&& d.taken == w.queue().take(n as int)
            &&& RingWorld {
                receiver: d.receiver,
                read_cursor: d.receiver.rc,
                received: w.received + d.taken,
                ..w
            }.in_step()
        }),
    decreases max,
{
    law_peek_finds_the_oldest(w, w.write_cursor);
    let d = drained(w.receiver, line, w.write_cursor, w.data, max);
    assert(w.received + Seq::<Seq<u8>>::empty() =~= w.received);
    if max == 0 || w.queue().len() == 0 {
        assert(d.taken =~= Seq::<Seq<u8>>::empty());
        assert(w.queue().take(0) =~= Seq::<Seq<u8>>::empty());
    } else {
        crate::laws::law_queue_is_drained_before_the_end(
            w,
            RecvView {
                write_cursor: w.write_cursor as u64,
                write_cursor_again: w.write_cursor as u64,
                status: arbitrary(),
            },
        );
        let message = match peek_result(w.receiver, w.write_cursor, w.data) {
            Ok(TryPeekResult::Ready(message)) => message,
            _ => arbitrary(),
        };
        let next = RingWorld {
            read_cursor: message.end(),
            receiver: w.receiver.past(message),
            received: w.received.push(payload_of(message, w.data)),
            ..w
        };
        assert(w.receives(next, w.write_cursor));
        law_receive_takes_the_oldest(w, next, w.write_cursor);
        law_drain_takes_the_queue_in_order(next, consumed(line, message), (max - 1) as nat);
        let rest = drained(
            next.receiver,
            consumed(line, message),
            w.write_cursor,
            w.data,
            (max - 1) as nat,
        );
        assert(d.taken == seq![w.queue()[0]] + rest.taken);
        let n = if max <= w.queue().len() {
            max
        } else {
            w.queue().len()
        };
        assert(w.queue().take(n as int) =~= seq![w.queue()[0]] + w.queue().drop_first().take(
            n - 1,
        ));
        assert(w.received + d.taken =~= next.received + rest.taken);
    }
}

/// Where nobody watches the peer's process, no operation of a task reports it as gone. (What
/// tells a task that the word has changed fails with errors of the operating system only.)
pub proof fn law_unwatched_task_never_reports_peer_death(
    spins: u32,
    max: usize,
    op: AsyncOp,
    collected: usize,
    event: AsyncEvent,
    send: SendView,
    recv: RecvView,
    payload: Seq<u8>,
    data: Seq<u8>,
    sender: ((SenderView, WriteCursorLine, Seq<u8>), (SenderView, WriteCursorLine, Seq<u8>)),
    before: (ReceiverView, ReadCursorLine, Seq<u8>),
    after: (ReceiverView, ReadCursorLine, Seq<u8>),
    batch: (Seq<Seq<u8>>, Seq<Seq<u8>>),
    sent: (AsyncOp, AsyncStep<()>),
    received: (AsyncOp, AsyncStep<Vec<u8>>),
    filled: (AsyncOp, AsyncStep<usize>),
    many: (ManyOp, AsyncStep<usize>),
)
    requires
        send.status.peer.terminal is None,
        recv.status.peer.terminal is None,
        AsyncOp::broken(event) matches Some(e) ==> e is Io,
    ensures
        async_send_stepped(spins, op, event, send, payload, sent, sender.0, sender.1) ==> sent.1
            != AsyncStep::<()>::Done(Err(Error::PeerDisconnected)),
        async_recv_stepped(
            spins,
            op,
            event,
            recv,
            data,
            received,
            (before.0, before.1),
            (after.0, after.1),
        ) ==> received.1 != AsyncStep::<Vec<u8>>::Done(Err(Error::PeerDisconnected)),
        async_recv_into_stepped(spins, op, event, recv, data, filled, before, after) ==> filled.1
            != AsyncStep::<usize>::Done(Err(Error::PeerDisconnected)),
        recv_many_stepped(
            spins,
            max,
            ManyOp { op, collected },
            event,
            recv,
            data,
            many,
            (before.0, before.1, batch.0),
            (after.0, after.1, batch.1),
        ) ==> many.1 != AsyncStep::<usize>::Done(Err(Error::PeerDisconnected)),
{
}

} // verus!
