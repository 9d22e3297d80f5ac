//! What sending and receiving promise their callers, told in cursors, bytes and messages.
//!
//! A ring that is in step holds a queue of messages. There is room for a message where the
//! bytes that were not read leave enough of the ring free for its header of eight bytes and
//! its payload; a message is there where its record lies in front of the write cursor that
//! the reader has loaded. What becomes of an operation follows from these alone.

use vstd::prelude::*;

use crate::channel::Channel;
use crate::circular::{lemma_window_of_overwrite, overwrite, window};
use crate::connection::{RecvHalf, SendHalf, ShmemConnection};
use crate::error::Error;
use crate::header::{ReadCursorLine, RingLine, WriteCursorLine};
use crate::laws::{
    law_peek_finds_the_oldest, law_receive_takes_the_oldest, law_send_appends, RingWorld,
};
use crate::record::{law_record_is_header_and_payload, record};
use crate::ring::{
    into_result, message_sent, message_taken, op_answers, payload_of, peek_or_closed_result,
    peek_result, recv_into_stepped, recv_stepped, send_result, send_stepped, take_result,
    BlockingOp, ChannelStatus, PeekedMessage, ReceiverView, RecvView, RingReceiver, RingSender,
    SendView, SenderView, Step, TryPeekResult, TrySendResult,
};
use crate::wait::{
    ParkOp, ParkPhase, SpinOnly, SpinOp, SpinPhase, SpinThenWait, WaitAction, WaitEvent,
    WaitStrategy,
};

verus! {

/// Why an end of the channel may not be used: the state word says neither that the server is
/// ready nor that the client is connected, or the watch over the peer has found something.
pub proof fn law_channel_is_used_while_it_lasts(status: ChannelStatus, r: Result<(), Error>)
    requires
        call_ensures(ChannelStatus::check_channel_active, (&status,), r),
    ensures
        r is Ok <==> (status.state == 1 || status.state == 2) && status.peer.terminal is None,
        status.state != 1 && status.state != 2 ==> r == Err::<(), Error>(Error::ChannelClosed),
        status.state == 1 || status.state == 2 ==> match status.peer.terminal {
            None => r == Ok::<(), Error>(()),
            Some(Ok(())) => r == Err::<(), Error>(Error::PeerDisconnected),
            Some(Err(e)) => r == Err::<(), Error>(Error::Io(e)),
        },
        r == match status.terminal() {
            None => Ok::<(), Error>(()),
            Some(e) => Err(e),
        },
{
}

/// The payload is the last message of the queue, its record lies behind the old write cursor,
/// and the line tells of it: the cursor is past the record and the notification word counts one
/// more.
pub open spec fn went_out(
    w: RingWorld,
    payload: Seq<u8>,
    lines: (WriteCursorLine, WriteCursorLine),
    sender: SenderView,
    data: Seq<u8>,
) -> bool {
    let after = RingWorld {
        sender,
        data,
        write_cursor: lines.1.write_cursor as int,
        sent: w.sent.push(payload),
        ..w
    };
    &&& after.in_step()
    &&& after.queue() == w.queue().push(payload)
    &&& lines.1.write_cursor == w.write_cursor + 8 + payload.len()
    &&& lines.1.notify == (lines.0.notify + 1) % 0x1_0000_0000
    &&& lines.1.parked == lines.0.parked
    &&& sender.next_seq == (w.sender.next_seq + 1) % 0x1_0000_0000
    &&& record_written(w.data, data, w.write_cursor, payload, w.sender.next_seq)
}

/// The record of a message was written at a position of the stream: the length of the payload,
/// the number of the message and the payload, and no other byte.
pub open spec fn record_written(
    before: Seq<u8>,
    data: Seq<u8>,
    cursor: int,
    payload: Seq<u8>,
    seq: u32,
) -> bool {
    let size = before.len() as int;
    &&& data.len() == size
    &&& number_at(data, cursor) == payload.len()
    &&& number_at(data, cursor + 4) == seq
    &&& forall|i: int|
        0 <= i < payload.len() ==> data[(cursor + 8 + i) % size] == #[trigger] payload[i]
    &&& forall|p: int|
        0 <= p < size && (p - cursor) % size >= 8 + payload.len() ==> #[trigger] data[p]
            == before[p]
}

/// The number that the four bytes at a position of the stream stand for, the least significant
/// one first.
pub open spec fn number_at(data: Seq<u8>, cursor: int) -> int {
    let size = data.len() as int;
    data[cursor % size] + 256 * data[(cursor + 1) % size] + 65536 * data[(cursor + 2) % size]
        + 16777216 * data[(cursor + 3) % size]
}

/// Nothing went out: the line and the bytes are as before, and the writer has at most seen how
/// far the reader is.
pub open spec fn stayed_in(
    w: RingWorld,
    lines: (WriteCursorLine, WriteCursorLine),
    sender: SenderView,
    data: Seq<u8>,
) -> bool {
    &&& lines.1 == lines.0
    &&& data == w.data
    &&& sender.size == w.sender.size
    &&& sender.next_seq == w.sender.next_seq
    &&& sender.wc == w.sender.wc
    &&& w.sender.rc <= sender.rc <= w.read_cursor
}

/// The oldest message has left the queue, and the line tells of it: the cursor is past its
/// record and the notification word counts one more.
pub open spec fn oldest_taken(
    w: RingWorld,
    lines: (ReadCursorLine, ReadCursorLine),
    receiver: ReceiverView,
) -> bool {
    let after = RingWorld {
        receiver,
        read_cursor: lines.1.read_cursor as int,
        received: w.received.push(w.queue()[0]),
        ..w
    };
    &&& w.queue().len() > 0
    &&& after.in_step()
    &&& after.queue() == w.queue().drop_first()
    &&& lines.1.read_cursor == w.read_cursor + 8 + w.queue()[0].len()
    &&& lines.1.notify == (lines.0.notify + 1) % 0x1_0000_0000
    &&& lines.1.parked == lines.0.parked
    &&& receiver.expected_seq == (w.receiver.expected_seq + 1) % 0x1_0000_0000
}

/// Whether the bytes that the reader has left, as far as the writer sees it, are enough for a
/// message.
pub open spec fn enough_room(w: RingWorld, view: SendView, payload_len: int) -> bool {
    w.data.len() - (w.write_cursor - view.read_cursor) >= 8 + payload_len
}

/// Whether the record of the oldest message lies in front of `cursor`.
pub open spec fn shown(w: RingWorld, cursor: u64) -> bool {
    w.queue().len() > 0 && cursor - w.read_cursor >= 8 + w.queue()[0].len()
}

/// Whether a reader has seen a message: by the first load of the write cursor, or, where the
/// channel has ended, by the second.
pub open spec fn message_there(w: RingWorld, view: RecvView, ended: bool) -> bool {
    shown(w, view.write_cursor) || ended && shown(w, view.write_cursor_again)
}

/// Whether the channel may be used.
pub open spec fn usable(status: ChannelStatus) -> bool {
    (status.state == 1 || status.state == 2) && status.peer.terminal is None
}

/// A try to send on a ring in step: whenever enough bytes are free and the channel may be used,
/// the message goes out, also where its record has to go on at the start of the ring; where too
/// few are free it does not, and the ring is full; where it could never fit, that is an error.
pub proof fn law_room_is_used(w: RingWorld, view: SendView, payload: &[u8])
    requires
        w.in_step(),
        w.sender.rc <= view.read_cursor <= w.read_cursor,
        payload@.len() < 0x1_0000_0000,
        w.write_cursor + 8 + payload@.len() <= u64::MAX,
    ensures
        forall|s: &mut RingSender, line: &mut WriteCursorLine, data: &mut [u8]|
            (*s)@ == w.sender && (*data)@ == w.data ==> #[trigger] call_requires(
                RingSender::try_send_once,
                (s, &view, line, data, payload),
            ),
        forall|
            s: &mut RingSender,
            line: &mut WriteCursorLine,
            data: &mut [u8],
            r: Result<TrySendResult, Error>,
        |
            (*s)@ == w.sender && (*data)@ == w.data && #[trigger] call_ensures(
                RingSender::try_send_once,
                (s, &view, line, data, payload),
                r,
            ) ==> {
                let lines = (*line, *final(line));
                let fits = 8 + payload@.len() <= w.data.len();
                let room = enough_room(w, view, payload@.len() as int);
                &&& usable(view.status) && fits && room <==> r == Ok::<TrySendResult, Error>(
                    TrySendResult::Sent,
                )
                &&& usable(view.status) && fits && !room <==> r == Ok::<TrySendResult, Error>(
                    TrySendResult::Full,
                )
                &&& usable(view.status) && !fits ==> r == Err::<TrySendResult, Error>(
                    Error::MessageTooLarge {
                        size: payload@.len() as usize,
                        max: (w.data.len() - 8) as usize,
                    },
                )
                &&& !usable(view.status) ==> r is Err && Some(r->Err_0) == view.status.terminal()
                &&& if usable(view.status) && fits && room {
                    went_out(w, payload@, lines, (*final(s))@, (*final(data))@)
                } else {
                    stayed_in(w, lines, (*final(s))@, (*final(data))@)
                }
            },
{
    let len = payload@.len() as int;
    let rc = view.read_cursor as int;
    assert forall|
        s: &mut RingSender,
        line: &mut WriteCursorLine,
        data: &mut [u8],
        r: Result<TrySendResult, Error>,
    |
        (*s)@ == w.sender && (*data)@ == w.data && usable(view.status) && 8 + len <= w.data.len()
            && enough_room(w, view, len) && #[trigger] call_ensures(
            RingSender::try_send_once,
            (s, &view, line, data, payload),
            r,
        ) implies went_out(w, payload@, (*line, *final(line)), (*final(s))@, (*final(data))@) by {
        lemma_message_sent_went_out(
            w,
            view,
            payload@,
            (*line, *final(line)),
            (*final(s))@,
            (*final(data))@,
        );
    }
}

/// A message that was sent joins the queue.
#[verifier::spinoff_prover]
proof fn lemma_message_joins_the_queue(
    w: RingWorld,
    after: RingWorld,
    view: SendView,
    payload: Seq<u8>,
    lines: (WriteCursorLine, WriteCursorLine),
)
    requires
        w.in_step(),
        w.sender.rc <= view.read_cursor <= w.read_cursor,
        payload.len() < 0x1_0000_0000,
        w.write_cursor + 8 + payload.len() <= u64::MAX,
        send_result(w.sender, view, payload.len() as int) == Ok::<TrySendResult, Error>(
            TrySendResult::Sent,
        ),
        message_sent(
            w.sender.looked(view.read_cursor as int, payload.len() as int),
            after.sender,
            lines.0,
            lines.1,
            w.data,
            after.data,
            payload,
        ),
        after == (RingWorld {
            sender: after.sender,
            data: after.data,
            write_cursor: lines.1.write_cursor as int,
            sent: w.sent.push(payload),
            ..w
        }),
    ensures
        after.in_step(),
        after.queue() == w.queue().push(payload),
        lines.1.write_cursor == w.write_cursor + 8 + payload.len(),
        lines.1.notify == (lines.0.notify + 1) % 0x1_0000_0000,
        lines.1.parked == lines.0.parked,
        after.sender.next_seq == (w.sender.next_seq + 1) % 0x1_0000_0000,
        after.data == overwrite(w.data, w.write_cursor, record(payload, w.sender.next_seq)),
        8 + payload.len() <= w.data.len(),
{
    assert(w.sends(after, view, payload));
    law_send_appends(w, after, view, payload);
}

/// A message that was sent went out.
pub proof fn lemma_message_sent_went_out(
    w: RingWorld,
    view: SendView,
    payload: Seq<u8>,
    lines: (WriteCursorLine, WriteCursorLine),
    sender: SenderView,
    data: Seq<u8>,
)
    requires
        w.in_step(),
        w.sender.rc <= view.read_cursor <= w.read_cursor,
        payload.len() < 0x1_0000_0000,
        w.write_cursor + 8 + payload.len() <= u64::MAX,
        send_result(w.sender, view, payload.len() as int) == Ok::<TrySendResult, Error>(
            TrySendResult::Sent,
        ),
        message_sent(
            w.sender.looked(view.read_cursor as int, payload.len() as int),
            sender,
            lines.0,
            lines.1,
            w.data,
            data,
            payload,
        ),
    ensures
        went_out(w, payload, lines, sender, data),
{
    let after = RingWorld {
        sender,
        data,
        write_cursor: lines.1.write_cursor as int,
        sent: w.sent.push(payload),
        ..w
    };
    lemma_message_joins_the_queue(w, after, view, payload, lines);
    lemma_record_in_the_ring(w.data, w.write_cursor, payload, w.sender.next_seq);
}

/// Where the parts of a record lie in a ring.
#[verifier::spinoff_prover]
proof fn lemma_record_in_the_ring(before: Seq<u8>, cursor: int, payload: Seq<u8>, seq: u32)
    requires
        8 + payload.len() <= before.len(),
        payload.len() < 0x1_0000_0000,
    ensures
        record_written(
            before,
            overwrite(before, cursor, record(payload, seq)),
            cursor,
            payload,
            seq,
        ),
{
    let rec = record(payload, seq);
    let data = overwrite(before, cursor, rec);
    let size = data.len() as int;
    law_record_is_header_and_payload(payload, seq);
    lemma_window_of_overwrite(before, cursor, rec);
    let all = window(data, cursor, rec.len() as int);
    assert forall|k: int| 0 <= k < rec.len() implies #[trigger] rec[k] == data[(cursor + k)
        % size] by {
        assert(all[k] == data[(cursor + k) % size]);
    }
    assert(rec[0] == data[(cursor + 0) % size] && rec[1] == data[(cursor + 1) % size]);
    assert(rec[2] == data[(cursor + 2) % size] && rec[3] == data[(cursor + 3) % size]);
    assert(rec[4] == data[(cursor + 4) % size] && rec[5] == data[(cursor + 5) % size]);
    assert(rec[6] == data[(cursor + 6) % size] && rec[7] == data[(cursor + 7) % size]);
    assert(cursor + 4 + 1 == cursor + 5 && cursor + 4 + 2 == cursor + 6 && cursor + 4 + 3 == cursor
        + 7);
    assert forall|i: int| 0 <= i < payload.len() implies data[(cursor + 8 + i) % size]
        == #[trigger] payload[i] by {
        assert(rec[8 + i] == payload[i]);
        assert(cursor + (8 + i) == cursor + 8 + i);
    }
}

/// How a step of a blocking operation stands: whether it looks, whether the parked word is set
/// meanwhile, and whether it finds that its time is over.
pub struct Stance {
    pub looks: bool,
    pub parked: bool,
    pub late: bool,
}

/// How a step of a wait stands that spins and then sleeps.
pub open spec fn park_stance(op: ParkOp, event: WaitEvent) -> Stance {
    Stance {
        looks: match op.phase {
            ParkPhase::Spin { left } => left > 0,
            _ => op.phase is Snapshot || op.phase is Parked,
        },
        parked: op.phase is Parked,
        late: op.phase is Timing && event is Clock && op.deadline is Some && event->Clock_0
            >= op.deadline->0,
    }
}

/// How a step of a wait stands that only spins.
pub open spec fn spin_stance(op: SpinOp, event: WaitEvent) -> Stance {
    let late = op.phase is Timing && event is Clock && op.deadline is Some && event->Clock_0
        >= op.deadline->0;
    Stance {
        looks: match op.phase {
            SpinPhase::Start => op.timeout is None,
            SpinPhase::Deadline => true,
            SpinPhase::Spun => op.deadline is None || (op.looks + 1) % 0x1_0000_0000 % 1024 != 0,
            SpinPhase::Timing => !late,
        },
        parked: false,
        late,
    }
}

/// What a step of a blocking send owes its caller: a message that fits goes out at the first
/// step and at every look that finds room, and at no other; it is waited for otherwise, until
/// the channel ends or the time is over. What does not go out leaves no trace.
pub open spec fn send_promise(
    w: RingWorld,
    view: SendView,
    payload: Seq<u8>,
    start: bool,
    stance: Stance,
    step: Step<()>,
    lines: (WriteCursorLine, WriteCursorLine),
    sender: SenderView,
    data: Seq<u8>,
) -> bool {
    let fits = 8 + payload.len() <= w.data.len();
    let room = enough_room(w, view, payload.len() as int);
    let looks = start || stance.looks;
    &&& step matches Step::Done { unpark, result: Ok(()) } ==> went_out(
        w,
        payload,
        lines,
        sender,
        data,
    ) && looks && usable(view.status) && fits && room
    &&& !(step matches Step::Done { unpark, result: Ok(()) }) ==> stayed_in(w, lines, sender, data)
    &&& looks && usable(view.status) && fits && room ==> (step matches Step::Done {
        unpark,
        result: Ok(()),
    })
    &&& !fits ==> step == Step::<()>::Done {
        unpark: None,
        result: Err(
            Error::MessageTooLarge {
                size: payload.len() as usize,
                max: (w.data.len() - 8) as usize,
            },
        ),
    }
    &&& fits && looks && !usable(view.status) ==> (step matches Step::Done {
        unpark,
        result: Err(e),
    } && Some(e) == view.status.terminal())
    &&& fits && looks && usable(view.status) && !room ==> step is Act
    &&& fits && !start && stance.late ==> step == Step::<()>::Done {
        unpark: None,
        result: Err(Error::TimedOut),
    }
    &&& fits && !looks && !stance.late ==> step is Act
    &&& step matches Step::Act(line, action) ==> line == RingLine::Reader
    &&& fits ==> (step matches Step::Done { unpark, result } ==> unpark == (if !start
        && stance.parked {
        Some(RingLine::Reader)
    } else {
        None
    }))
}

/// The wait inside a blocking operation, and what it takes next: a wait of its own for every
/// operation, with the time limit of that operation.
pub open spec fn under_way<W: WaitStrategy>(
    wait: &W,
    timeout: Option<u128>,
    op: BlockingOp<W::Op>,
    event: WaitEvent,
) -> (W::Op, WaitEvent) {
    match op {
        BlockingOp::Start => (wait.fresh(timeout), WaitEvent::Proceed),
        BlockingOp::Waiting(o) => (o, event),
    }
}

/// Whether an operation that goes on does what its wait does where there is nothing to end it.
pub open spec fn waits_on<W: WaitStrategy>(
    wait: &W,
    timeout: Option<u128>,
    op: BlockingOp<W::Op>,
    event: WaitEvent,
    next: BlockingOp<W::Op>,
    action: WaitAction,
) -> bool {
    let (o, e) = under_way(wait, timeout, op, event);
    &&& next == BlockingOp::Waiting(wait.stepped(o, e, Ok(false)).0)
    &&& action == wait.stepped(o, e, Ok(false)).1
}

/// Whether a step of a blocking send keeps the promise, where the writer spins and then sleeps;
/// one that goes on does what the wait does.
pub open spec fn send_kept(
    wait: &SpinThenWait,
    timeout: Option<u128>,
    op: BlockingOp<ParkOp>,
    event: WaitEvent,
    view: SendView,
    payload: Seq<u8>,
    w: RingWorld,
    r: (BlockingOp<ParkOp>, Step<()>),
    lines: (WriteCursorLine, WriteCursorLine),
    sender: SenderView,
    data: Seq<u8>,
) -> bool {
    let (o, e) = under_way(wait, timeout, op, event);
    let stance = park_stance(o, e);
    &&& send_promise(w, view, payload, op is Start, stance, r.1, lines, sender, data)
    &&& r.1 matches Step::Act(line, action) ==> waits_on(wait, timeout, op, event, r.0, action)
}

/// The same where the writer only spins.
pub open spec fn spinning_send_kept(
    wait: &SpinOnly,
    timeout: Option<u128>,
    op: BlockingOp<SpinOp>,
    event: WaitEvent,
    view: SendView,
    payload: Seq<u8>,
    w: RingWorld,
    r: (BlockingOp<SpinOp>, Step<()>),
    lines: (WriteCursorLine, WriteCursorLine),
    sender: SenderView,
    data: Seq<u8>,
) -> bool {
    let (o, e) = under_way(wait, timeout, op, event);
    let stance = spin_stance(o, e);
    &&& send_promise(w, view, payload, op is Start, stance, r.1, lines, sender, data)
    &&& r.1 matches Step::Act(line, action) ==> waits_on(wait, timeout, op, event, r.0, action)
}

/// A blocking send by a writer that spins and then sleeps keeps its promise.
proof fn lemma_send_promise(
    wait: &SpinThenWait,
    timeout: Option<u128>,
    op: BlockingOp<ParkOp>,
    event: WaitEvent,
    view: SendView,
    payload: Seq<u8>,
    w: RingWorld,
    r: (BlockingOp<ParkOp>, Step<()>),
    lines: (WriteCursorLine, WriteCursorLine),
    sender: SenderView,
    data: Seq<u8>,
)
    requires
        w.in_step(),
        w.sender.rc <= view.read_cursor <= w.read_cursor,
        payload.len() < 0x1_0000_0000,
        w.write_cursor + 8 + payload.len() <= u64::MAX,
        op_answers(wait, op, event),
        send_stepped(
            wait,
            timeout,
            op,
            event,
            view,
            payload,
            r,
            (w.sender, lines.0, w.data),
            (sender, lines.1, data),
        ),
    ensures
        send_kept(wait, timeout, op, event, view, payload, w, r, lines, sender, data),
{
    let len = payload.len() as int;
    let rc = view.read_cursor as int;
    if r.1 matches Step::Done { unpark, result: Ok(()) } {
        if op is Start && send_result(w.sender, view, len) == Ok::<TrySendResult, Error>(
            TrySendResult::Sent,
        ) {
            lemma_message_sent_went_out(w, view, payload, lines, sender, data);
        } else {
            // The writer first sees the newer read cursor, then sends.
            let seen = RingWorld { sender: w.sender.seeing(rc), ..w };
            assert(seen.in_step());
            assert(seen.sender.looked(rc, len) == seen.sender);
            lemma_message_sent_went_out(seen, view, payload, lines, sender, data);
            assert(seen.queue() == w.queue());
        }
    }
}

/// A blocking send by a writer that only spins keeps its promise.
proof fn lemma_spinning_send_promise(
    wait: &SpinOnly,
    timeout: Option<u128>,
    op: BlockingOp<SpinOp>,
    event: WaitEvent,
    view: SendView,
    payload: Seq<u8>,
    w: RingWorld,
    r: (BlockingOp<SpinOp>, Step<()>),
    lines: (WriteCursorLine, WriteCursorLine),
    sender: SenderView,
    data: Seq<u8>,
)
    requires
        w.in_step(),
        w.sender.rc <= view.read_cursor <= w.read_cursor,
        payload.len() < 0x1_0000_0000,
        w.write_cursor + 8 + payload.len() <= u64::MAX,
        op_answers(wait, op, event),
        send_stepped(
            wait,
            timeout,
            op,
            event,
            view,
            payload,
            r,
            (w.sender, lines.0, w.data),
            (sender, lines.1, data),
        ),
    ensures
        spinning_send_kept(wait, timeout, op, event, view, payload, w, r, lines, sender, data),
{
    let len = payload.len() as int;
    let rc = view.read_cursor as int;
    if r.1 matches Step::Done { unpark, result: Ok(()) } {
        if op is Start && send_result(w.sender, view, len) == Ok::<TrySendResult, Error>(
            TrySendResult::Sent,
        ) {
            lemma_message_sent_went_out(w, view, payload, lines, sender, data);
        } else {
            // The writer first sees the newer read cursor, then sends.
            let seen = RingWorld { sender: w.sender.seeing(rc), ..w };
            assert(seen.in_step());
            assert(seen.sender.looked(rc, len) == seen.sender);
            lemma_message_sent_went_out(seen, view, payload, lines, sender, data);
            assert(seen.queue() == w.queue());
        }
    }
}

/// All of them do.
proof fn lemma_sends_keep(
    w: RingWorld,
    view: SendView,
    payload: Seq<u8>,
    op: BlockingOp<ParkOp>,
    event: WaitEvent,
)
    requires
        w.in_step(),
        w.sender.rc <= view.read_cursor <= w.read_cursor,
        payload.len() < 0x1_0000_0000,
        w.write_cursor + 8 + payload.len() <= u64::MAX,
    ensures
        forall|
            wait: &SpinThenWait,
            timeout: Option<u128>,
            r: (BlockingOp<ParkOp>, Step<()>),
            line: WriteCursorLine,
            line_after: WriteCursorLine,
            sender: SenderView,
            data: Seq<u8>,
        |
            op_answers(wait, op, event) && #[trigger] send_stepped(
                wait,
                timeout,
                op,
                event,
                view,
                payload,
                r,
                (w.sender, line, w.data),
                (sender, line_after, data),
            ) ==> send_kept(
                wait,
                timeout,
                op,
                event,
                view,
                payload,
                w,
                r,
                (line, line_after),
                sender,
                data,
            ),
{
    assert forall|
        wait: &SpinThenWait,
        timeout: Option<u128>,
        r: (BlockingOp<ParkOp>, Step<()>),
        line: WriteCursorLine,
        line_after: WriteCursorLine,
        sender: SenderView,
        data: Seq<u8>,
    |
        op_answers(wait, op, event) && #[trigger] send_stepped(
            wait,
            timeout,
            op,
            event,
            view,
            payload,
            r,
            (w.sender, line, w.data),
            (sender, line_after, data),
        ) implies send_kept(
        wait,
        timeout,
        op,
        event,
        view,
        payload,
        w,
        r,
        (line, line_after),
        sender,
        data,
    ) by {
        let lines = (line, line_after);
        lemma_send_promise(wait, timeout, op, event, view, payload, w, r, lines, sender, data);
    }
}

/// All of them do.
proof fn lemma_spinning_sends_keep(
    w: RingWorld,
    view: SendView,
    payload: Seq<u8>,
    op: BlockingOp<SpinOp>,
    event: WaitEvent,
)
    requires
        w.in_step(),
        w.sender.rc <= view.read_cursor <= w.read_cursor,
        payload.len() < 0x1_0000_0000,
        w.write_cursor + 8 + payload.len() <= u64::MAX,
    ensures
        forall|
            wait: &SpinOnly,
            timeout: Option<u128>,
            r: (BlockingOp<SpinOp>, Step<()>),
            line: WriteCursorLine,
            line_after: WriteCursorLine,
            sender: SenderView,
            data: Seq<u8>,
        |
            op_answers(wait, op, event) && #[trigger] send_stepped(
                wait,
                timeout,
                op,
                event,
                view,
                payload,
                r,
                (w.sender, line, w.data),
                (sender, line_after, data),
            ) ==> spinning_send_kept(
                wait,
                timeout,
                op,
                event,
                view,
                payload,
                w,
                r,
                (line, line_after),
                sender,
                data,
            ),
{
    assert forall|
        wait: &SpinOnly,
        timeout: Option<u128>,
        r: (BlockingOp<SpinOp>, Step<()>),
        line: WriteCursorLine,
        line_after: WriteCursorLine,
        sender: SenderView,
        data: Seq<u8>,
    |
        op_answers(wait, op, event) && #[trigger] send_stepped(
            wait,
            timeout,
            op,
            event,
            view,
            payload,
            r,
            (w.sender, line, w.data),
            (sender, line_after, data),
        ) implies spinning_send_kept(
        wait,
        timeout,
        op,
        event,
        view,
        payload,
        w,
        r,
        (line, line_after),
        sender,
        data,
    ) by {
        let lines = (line, line_after);
        lemma_spinning_send_promise(
            wait,
            timeout,
            op,
            event,
            view,
            payload,
            w,
            r,
            lines,
            sender,
            data,
        );
    }
}

/// Sending on a ring keeps its promise.
pub proof fn law_ring_send_keeps_its_promise(
    w: RingWorld,
    view: SendView,
    payload: &[u8],
    op: BlockingOp<ParkOp>,
    event: WaitEvent,
    wait: &SpinThenWait,
    timeout: Option<u128>,
)
    requires
        w.in_step(),
        w.sender.rc <= view.read_cursor <= w.read_cursor,
        payload@.len() < 0x1_0000_0000,
        w.write_cursor + 8 + payload@.len() <= u64::MAX,
    ensures
        forall|s: &mut RingSender, line: &mut WriteCursorLine, data: &mut [u8]|
            (*s)@ == w.sender && (*data)@ == w.data && op_answers(
                wait,
                op,
                event,
            ) ==> #[trigger] call_requires(
                RingSender::send::<SpinThenWait>,
                (s, wait, timeout, op, event, &view, line, data, payload),
            ),
        forall|
            s: &mut RingSender,
            line: &mut WriteCursorLine,
            data: &mut [u8],
            r: (BlockingOp<ParkOp>, Step<()>),
        |
            (*s)@ == w.sender && (*data)@ == w.data && op_answers(
                wait,
                op,
                event,
            ) && #[trigger] call_ensures(
                RingSender::send::<SpinThenWait>,
                (s, wait, timeout, op, event, &view, line, data, payload),
                r,
            ) ==> send_kept(
                wait,
                timeout,
                op,
                event,
                view,
                payload@,
                w,
                r,
                (*line, *final(line)),
                (*final(s))@,
                (*final(data))@,
            ),
{
    lemma_sends_keep(w, view, payload@, op, event);
}

/// The same of a writer that only spins.
pub proof fn law_spinning_ring_send_keeps_its_promise(
    w: RingWorld,
    view: SendView,
    payload: &[u8],
    op: BlockingOp<SpinOp>,
    event: WaitEvent,
    timeout: Option<u128>,
)
    requires
        w.in_step(),
        w.sender.rc <= view.read_cursor <= w.read_cursor,
        payload@.len() < 0x1_0000_0000,
        w.write_cursor + 8 + payload@.len() <= u64::MAX,
    ensures
        forall|s: &mut RingSender, line: &mut WriteCursorLine, data: &mut [u8]|
            (*s)@ == w.sender && (*data)@ == w.data && op_answers(
                &SpinOnly,
                op,
                event,
            ) ==> #[trigger] call_requires(
                RingSender::send::<SpinOnly>,
                (s, &SpinOnly, timeout, op, event, &view, line, data, payload),
            ),
        forall|
            s: &mut RingSender,
            line: &mut WriteCursorLine,
            data: &mut [u8],
            r: (BlockingOp<SpinOp>, Step<()>),
        |
            (*s)@ == w.sender && (*data)@ == w.data && op_answers(
                &SpinOnly,
                op,
                event,
            ) && #[trigger] call_ensures(
                RingSender::send::<SpinOnly>,
                (s, &SpinOnly, timeout, op, event, &view, line, data, payload),
                r,
            ) ==> spinning_send_kept(
                &SpinOnly,
                timeout,
                op,
                event,
                view,
                payload@,
                w,
                r,
                (*line, *final(line)),
                (*final(s))@,
                (*final(data))@,
            ),
{
    lemma_spinning_sends_keep(w, view, payload@, op, event);
}

/// Sending on a channel keeps its promise, without a time limit and with one, and leaves what the
/// end knows of receiving alone.
pub proof fn law_channel_send_keeps_its_promise(
    w: RingWorld,
    view: SendView,
    payload: &[u8],
    op: BlockingOp<ParkOp>,
    event: WaitEvent,
    timeout: u128,
)
    requires
        w.in_step(),
        w.sender.rc <= view.read_cursor <= w.read_cursor,
        payload@.len() < 0x1_0000_0000,
        w.write_cursor + 8 + payload@.len() <= u64::MAX,
    ensures
        forall|s: &mut Channel, line: &mut WriteCursorLine, data: &mut [u8]|
            (*s)@.valid() && (*s)@.sender == w.sender && (*data)@ == w.data && op_answers(
                &(*s)@.wait,
                op,
                event,
            ) ==> #[trigger] call_requires(
                Channel::send,
                (s, op, event, &view, line, data, payload),
            ),
        forall|
            s: &mut Channel,
            line: &mut WriteCursorLine,
            data: &mut [u8],
            r: (BlockingOp<ParkOp>, Step<()>),
        |
            (*s)@.valid() && (*s)@.sender == w.sender && (*data)@ == w.data && op_answers(
                &(*s)@.wait,
                op,
                event,
            ) && #[trigger] call_ensures(
                Channel::send,
                (s, op, event, &view, line, data, payload),
                r,
            ) ==> send_kept(
                &(*s)@.wait,
                None,
                op,
                event,
                view,
                payload@,
                w,
                r,
                (*line, *final(line)),
                (*final(s))@.sender,
                (*final(data))@,
            )
                && (*final(s))@.receiver == (*s)@.receiver
                && (*final(s))@.role == (*s)@.role
                && (*final(s))@.name == (*s)@.name
                && (*final(s))@.wait == (*s)@.wait,
        forall|s: &mut Channel, line: &mut WriteCursorLine, data: &mut [u8]|
            (*s)@.valid() && (*s)@.sender == w.sender && (*data)@ == w.data && op_answers(
                &(*s)@.wait,
                op,
                event,
            ) ==> #[trigger] call_requires(
                Channel::send_timeout,
                (s, timeout, op, event, &view, line, data, payload),
            ),
        forall|
            s: &mut Channel,
            line: &mut WriteCursorLine,
            data: &mut [u8],
            r: (BlockingOp<ParkOp>, Step<()>),
        |
            (*s)@.valid() && (*s)@.sender == w.sender && (*data)@ == w.data && op_answers(
                &(*s)@.wait,
                op,
                event,
            ) && #[trigger] call_ensures(
                Channel::send_timeout,
                (s, timeout, op, event, &view, line, data, payload),
                r,
            ) ==> send_kept(
                &(*s)@.wait,
                Some(timeout),
                op,
                event,
                view,
                payload@,
                w,
                r,
                (*line, *final(line)),
                (*final(s))@.sender,
                (*final(data))@,
            )
                && (*final(s))@.receiver == (*s)@.receiver
                && (*final(s))@.role == (*s)@.role
                && (*final(s))@.name == (*s)@.name
                && (*final(s))@.wait == (*s)@.wait,
{
    lemma_sends_keep(w, view, payload@, op, event);
}

/// The same of a connection.
pub proof fn law_connection_send_keeps_its_promise(
    w: RingWorld,
    view: SendView,
    payload: &[u8],
    op: BlockingOp<ParkOp>,
    event: WaitEvent,
    timeout: u128,
)
    requires
        w.in_step(),
        w.sender.rc <= view.read_cursor <= w.read_cursor,
        payload@.len() < 0x1_0000_0000,
        w.write_cursor + 8 + payload@.len() <= u64::MAX,
    ensures
        forall|s: &mut ShmemConnection, line: &mut WriteCursorLine, data: &mut [u8]|
            (*s)@.valid() && (*s)@.sender == w.sender && (*data)@ == w.data && op_answers(
                &(*s)@.wait,
                op,
                event,
            ) ==> #[trigger] call_requires(
                ShmemConnection::send,
                (s, op, event, &view, line, data, payload),
            ),
        forall|
            s: &mut ShmemConnection,
            line: &mut WriteCursorLine,
            data: &mut [u8],
            r: (BlockingOp<ParkOp>, Step<()>),
        |
            (*s)@.valid() && (*s)@.sender == w.sender && (*data)@ == w.data && op_answers(
                &(*s)@.wait,
                op,
                event,
            ) && #[trigger] call_ensures(
                ShmemConnection::send,
                (s, op, event, &view, line, data, payload),
                r,
            ) ==> send_kept(
                &(*s)@.wait,
                None,
                op,
                event,
                view,
                payload@,
                w,
                r,
                (*line, *final(line)),
                (*final(s))@.sender,
                (*final(data))@,
            )
                && (*final(s))@.receiver == (*s)@.receiver
                && (*final(s))@.name == (*s)@.name
                && (*final(s))@.is_server == (*s)@.is_server
                && (*final(s))@.wait == (*s)@.wait,
        forall|s: &mut ShmemConnection, line: &mut WriteCursorLine, data: &mut [u8]|
            (*s)@.valid() && (*s)@.sender == w.sender && (*data)@ == w.data && op_answers(
                &(*s)@.wait,
                op,
                event,
            ) ==> #[trigger] call_requires(
                ShmemConnection::send_timeout,
                (s, timeout, op, event, &view, line, data, payload),
            ),
        forall|
            s: &mut ShmemConnection,
            line: &mut WriteCursorLine,
            data: &mut [u8],
            r: (BlockingOp<ParkOp>, Step<()>),
        |
            (*s)@.valid() && (*s)@.sender == w.sender && (*data)@ == w.data && op_answers(
                &(*s)@.wait,
                op,
                event,
            ) && #[trigger] call_ensures(
                ShmemConnection::send_timeout,
                (s, timeout, op, event, &view, line, data, payload),
                r,
            ) ==> send_kept(
                &(*s)@.wait,
                Some(timeout),
                op,
                event,
                view,
                payload@,
                w,
                r,
                (*line, *final(line)),
                (*final(s))@.sender,
                (*final(data))@,
            )
                && (*final(s))@.receiver == (*s)@.receiver
                && (*final(s))@.name == (*s)@.name
                && (*final(s))@.is_server == (*s)@.is_server
                && (*final(s))@.wait == (*s)@.wait,
{
    lemma_sends_keep(w, view, payload@, op, event);
}

/// The same of the sending half of a connection.
pub proof fn law_send_half_send_keeps_its_promise(
    w: RingWorld,
    view: SendView,
    payload: &[u8],
    op: BlockingOp<ParkOp>,
    event: WaitEvent,
    timeout: u128,
)
    requires
        w.in_step(),
        w.sender.rc <= view.read_cursor <= w.read_cursor,
        payload@.len() < 0x1_0000_0000,
        w.write_cursor + 8 + payload@.len() <= u64::MAX,
    ensures
        forall|s: &mut SendHalf, line: &mut WriteCursorLine, data: &mut [u8]|
            (*s)@.valid() && (*s)@.sender == w.sender && (*data)@ == w.data && op_answers(
                &(*s)@.wait,
                op,
                event,
            ) ==> #[trigger] call_requires(
                SendHalf::send,
                (s, op, event, &view, line, data, payload),
            ),
        forall|
            s: &mut SendHalf,
            line: &mut WriteCursorLine,
            data: &mut [u8],
            r: (BlockingOp<ParkOp>, Step<()>),
        |
            (*s)@.valid() && (*s)@.sender == w.sender && (*data)@ == w.data && op_answers(
                &(*s)@.wait,
                op,
                event,
            ) && #[trigger] call_ensures(
                SendHalf::send,
                (s, op, event, &view, line, data, payload),
                r,
            ) ==> send_kept(
                &(*s)@.wait,
                None,
                op,
                event,
                view,
                payload@,
                w,
                r,
                (*line, *final(line)),
                (*final(s))@.sender,
                (*final(data))@,
            )
                && (*final(s))@.wait == (*s)@.wait,
        forall|s: &mut SendHalf, line: &mut WriteCursorLine, data: &mut [u8]|
            (*s)@.valid() && (*s)@.sender == w.sender && (*data)@ == w.data && op_answers(
                &(*s)@.wait,
                op,
                event,
            ) ==> #[trigger] call_requires(
                SendHalf::send_timeout,
                (s, timeout, op, event, &view, line, data, payload),
            ),
        forall|
            s: &mut SendHalf,
            line: &mut WriteCursorLine,
            data: &mut [u8],
            r: (BlockingOp<ParkOp>, Step<()>),
        |
            (*s)@.valid() && (*s)@.sender == w.sender && (*data)@ == w.data && op_answers(
                &(*s)@.wait,
                op,
                event,
            ) && #[trigger] call_ensures(
                SendHalf::send_timeout,
                (s, timeout, op, event, &view, line, data, payload),
                r,
            ) ==> send_kept(
                &(*s)@.wait,
                Some(timeout),
                op,
                event,
                view,
                payload@,
                w,
                r,
                (*line, *final(line)),
                (*final(s))@.sender,
                (*final(data))@,
            )
                && (*final(s))@.wait == (*s)@.wait,
{
    lemma_sends_keep(w, view, payload@, op, event);
}

/// A reader that looks finds the oldest message, whole, as soon as its record is shown, whatever
/// became of the channel; it finds nothing before that, and then learns how the channel ended,
/// if it did.
pub proof fn law_look_finds_what_is_there(w: RingWorld, view: RecvView)
    requires
        w.in_step(),
        w.read_cursor <= view.write_cursor <= w.write_cursor,
        w.read_cursor <= view.write_cursor_again <= w.write_cursor,
    ensures
        forall|v: &RingReceiver, data: &[u8]|
            v@ == w.receiver && data@ == w.data ==> #[trigger] call_requires(
                RingReceiver::try_peek_or_closed,
                (v, &view, data),
            ),
        forall|v: &RingReceiver, data: &[u8], r: Result<Option<PeekedMessage>, Error>|
            v@ == w.receiver && data@ == w.data && #[trigger] call_ensures(
                RingReceiver::try_peek_or_closed,
                (v, &view, data),
                r,
            ) ==> if message_there(w, view, !usable(view.status)) {
                &&& r matches Ok(Some(message))
                &&& message.read_cursor == w.read_cursor
                &&& message.payload_len == w.queue()[0].len()
                &&& message.seq == w.receiver.expected_seq
            } else if usable(view.status) {
                r matches Ok(None)
            } else {
                r matches Err(e) && Some(e) == view.status.terminal()
            },
        forall|v: &RingReceiver, data: &[u8], r: Result<TryPeekResult, Error>|
            v@ == w.receiver && data@ == w.data && #[trigger] call_ensures(
                RingReceiver::try_peek_message,
                (v, view.write_cursor, data),
                r,
            ) ==> if shown(w, view.write_cursor) {
                &&& r matches Ok(TryPeekResult::Ready(message))
                &&& message.read_cursor == w.read_cursor
                &&& message.payload_len == w.queue()[0].len()
                &&& message.seq == w.receiver.expected_seq
            } else {
                r matches Ok(TryPeekResult::Empty)
            },
{
    law_peek_finds_the_oldest(w, view.write_cursor as int);
    law_peek_finds_the_oldest(w, view.write_cursor_again as int);
}

/// What a look finds.
pub proof fn lemma_look_finds(w: RingWorld, view: RecvView)
    requires
        w.in_step(),
        w.read_cursor <= view.write_cursor <= w.write_cursor,
        w.read_cursor <= view.write_cursor_again <= w.write_cursor,
    ensures
        ({
            let found = peek_or_closed_result(w.receiver, view, w.data);
            if message_there(w, view, !usable(view.status)) {
                &&& found matches Ok(Some(message))
                &&& payload_of(message, w.data) == w.queue()[0]
                &&& message.payload_len == w.queue()[0].len()
                &&& message == oldest_message(w)
                &&& take_result(w.receiver, message) is Ok
            } else if usable(view.status) {
                found matches Ok(None)
            } else {
                found matches Err(e) && Some(e) == view.status.terminal()
            }
        }),
{
    law_peek_finds_the_oldest(w, view.write_cursor as int);
    law_peek_finds_the_oldest(w, view.write_cursor_again as int);
}

/// The oldest message of the queue, as a reader finds it.
pub open spec fn oldest_message(w: RingWorld) -> PeekedMessage {
    PeekedMessage {
        read_cursor: w.read_cursor as u64,
        payload_len: w.queue()[0].len() as usize,
        seq: w.receiver.expected_seq,
    }
}

/// The ring after its reader has taken the oldest message.
spec fn without_oldest(w: RingWorld) -> RingWorld {
    RingWorld {
        receiver: w.receiver.past(oldest_message(w)),
        read_cursor: oldest_message(w).end(),
        received: w.received.push(w.queue()[0]),
        ..w
    }
}

/// A ring in step stays so when its reader takes the oldest message.
#[verifier::spinoff_prover]
proof fn lemma_oldest_comes_out(w: RingWorld, cursor: u64)
    requires
        w.in_step(),
        w.read_cursor <= cursor <= w.write_cursor,
        shown(w, cursor),
    ensures
        without_oldest(w).in_step(),
        without_oldest(w).queue() == w.queue().drop_first(),
        take_result(w.receiver, oldest_message(w)) is Ok,
        oldest_message(w).end() == w.read_cursor + 8 + w.queue()[0].len(),
        oldest_message(w).end() <= w.write_cursor <= u64::MAX,
{
    law_peek_finds_the_oldest(w, cursor as int);
    assert(w.receives(without_oldest(w), cursor as int));
    law_receive_takes_the_oldest(w, without_oldest(w), cursor as int);
}

/// A reader that takes the oldest message takes it out of the queue.
#[verifier::spinoff_prover]
proof fn lemma_oldest_is_taken(
    w: RingWorld,
    cursor: u64,
    lines: (ReadCursorLine, ReadCursorLine),
    receiver: ReceiverView,
)
    requires
        w.in_step(),
        w.read_cursor <= cursor <= w.write_cursor,
        shown(w, cursor),
        message_taken(w.receiver, receiver, lines.0, lines.1, oldest_message(w)),
    ensures
        oldest_taken(w, lines, receiver),
        receiver != w.receiver,
{
    lemma_oldest_comes_out(w, cursor);
    assert(receiver == w.receiver.past(oldest_message(w)));
    assert(lines.1.read_cursor == oldest_message(w).end());
    assert(without_oldest(w) == (RingWorld {
        receiver,
        read_cursor: lines.1.read_cursor as int,
        received: w.received.push(w.queue()[0]),
        ..w
    }));
}

/// The same where a look has found it.
pub proof fn lemma_found_is_taken(
    w: RingWorld,
    view: RecvView,
    lines: (ReadCursorLine, ReadCursorLine),
    receiver: ReceiverView,
)
    requires
        w.in_step(),
        w.read_cursor <= view.write_cursor <= w.write_cursor,
        w.read_cursor <= view.write_cursor_again <= w.write_cursor,
        message_there(w, view, !usable(view.status)),
        message_taken(w.receiver, receiver, lines.0, lines.1, oldest_message(w)),
    ensures
        oldest_taken(w, lines, receiver),
        receiver != w.receiver,
{
    if shown(w, view.write_cursor) {
        lemma_oldest_is_taken(w, view.write_cursor, lines, receiver);
    } else {
        lemma_oldest_is_taken(w, view.write_cursor_again, lines, receiver);
    }
}

/// A message that was copied to a buffer is at its front.
pub proof fn lemma_into_buffer(
    w: RingWorld,
    bufs: (Seq<u8>, Seq<u8>),
    result: Result<usize, Error>,
)
    requires
        bufs.0.len() <= usize::MAX,
        payload_of(oldest_message(w), w.data) == w.queue()[0],
        oldest_message(w).payload_len == w.queue()[0].len(),
        take_result(w.receiver, oldest_message(w)) is Ok,
        into_result(w.receiver, oldest_message(w), w.data, bufs.0, bufs.1, result),
    ensures
        into_buffer(w.queue()[0], bufs, result),
{
    let oldest = w.queue()[0];
    if oldest.len() <= bufs.0.len() {
        assert(bufs.1.take(oldest.len() as int) =~= oldest);
    }
}

/// What a step of a blocking receive owes its caller: every look that finds a message takes the
/// oldest one and hands it over, and nothing else does; without one it is waited for, until the
/// channel ends or the time is over.
pub open spec fn recv_promise(
    w: RingWorld,
    view: RecvView,
    stance: Stance,
    step: Step<Vec<u8>>,
    lines: (ReadCursorLine, ReadCursorLine),
    receiver: ReceiverView,
) -> bool {
    let there = message_there(w, view, !usable(view.status));
    &&& stance.looks && there ==> {
        &&& step matches Step::Done { unpark, result: Ok(buf) }
        &&& buf@ == w.queue()[0]
        &&& oldest_taken(w, lines, receiver)
    }
    &&& !(stance.looks && there) ==> receiver == w.receiver && lines.1 == lines.0 && !(
    step matches Step::Done { unpark, result: Ok(buf) })
    &&& stance.looks && !there && !usable(view.status) ==> (step matches Step::Done {
        unpark,
        result: Err(e),
    } && Some(e) == view.status.terminal())
    &&& stance.looks && !there && usable(view.status) ==> step is Act
    &&& stance.late ==> step == Step::<Vec<u8>>::Done { unpark: None, result: Err(Error::TimedOut) }
    &&& !stance.looks && !stance.late ==> step is Act
    &&& step matches Step::Act(line, action) ==> line == RingLine::Writer
    &&& step matches Step::Done { unpark, result } ==> unpark == (if stance.parked {
        Some(RingLine::Writer)
    } else {
        None
    })
}

/// What a step of a blocking receive into a buffer owes its caller: the same, with the message
/// at the front of the buffer and the rest of the buffer left alone. A message that is longer
/// than the buffer is taken too, and both lengths are reported.
pub open spec fn recv_into_promise(
    w: RingWorld,
    view: RecvView,
    stance: Stance,
    step: Step<usize>,
    lines: (ReadCursorLine, ReadCursorLine),
    receiver: ReceiverView,
    bufs: (Seq<u8>, Seq<u8>),
) -> bool {
    let there = message_there(w, view, !usable(view.status));
    let oldest = w.queue()[0];
    &&& stance.looks && there ==> {
        &&& step matches Step::Done { unpark, result }
        &&& into_buffer(oldest, bufs, result)
        &&& oldest_taken(w, lines, receiver)
    }
    &&& !(stance.looks && there) ==> receiver == w.receiver && lines.1 == lines.0 && bufs.1
        == bufs.0 && !(step matches Step::Done { unpark, result: Ok(n) })
    &&& stance.looks && !there && !usable(view.status) ==> (step matches Step::Done {
        unpark,
        result: Err(e),
    } && Some(e) == view.status.terminal())
    &&& stance.looks && !there && usable(view.status) ==> step is Act
    &&& stance.late ==> step == Step::<usize>::Done { unpark: None, result: Err(Error::TimedOut) }
    &&& !stance.looks && !stance.late ==> step is Act
    &&& step matches Step::Act(line, action) ==> line == RingLine::Writer
    &&& step matches Step::Done { unpark, result } ==> unpark == (if stance.parked {
        Some(RingLine::Writer)
    } else {
        None
    })
}

/// Whether a message has come to a buffer: at its front and as long as it is, or not at all
/// where the buffer is too short for it.
pub open spec fn into_buffer(
    message: Seq<u8>,
    bufs: (Seq<u8>, Seq<u8>),
    result: Result<usize, Error>,
) -> bool {
    &&& bufs.1.len() == bufs.0.len()
    &&& if message.len() <= bufs.0.len() {
        &&& result matches Ok(n) && n == message.len()
        &&& bufs.1.take(message.len() as int) == message
        &&& forall|i: int| message.len() <= i < bufs.0.len() ==> bufs.1[i] == #[trigger] bufs.0[i]
    } else {
        &&& result matches Err(Error::MessageTooLarge { size, max }) && size == message.len() && max
            == bufs.0.len()
        &&& bufs.1 == bufs.0
    }
}

/// Whether a step of a blocking receive keeps the promise, where the reader spins and then
/// sleeps; one that goes on does what the wait does.
pub open spec fn recv_kept(
    wait: &SpinThenWait,
    timeout: Option<u128>,
    op: BlockingOp<ParkOp>,
    event: WaitEvent,
    view: RecvView,
    w: RingWorld,
    r: (BlockingOp<ParkOp>, Step<Vec<u8>>),
    lines: (ReadCursorLine, ReadCursorLine),
    receiver: ReceiverView,
) -> bool {
    let (o, e) = under_way(wait, timeout, op, event);
    let stance = park_stance(o, e);
    &&& recv_promise(w, view, stance, r.1, lines, receiver)
    &&& r.1 matches Step::Act(line, action) ==> waits_on(wait, timeout, op, event, r.0, action)
}

/// The same where the reader only spins.
pub open spec fn spinning_recv_kept(
    wait: &SpinOnly,
    timeout: Option<u128>,
    op: BlockingOp<SpinOp>,
    event: WaitEvent,
    view: RecvView,
    w: RingWorld,
    r: (BlockingOp<SpinOp>, Step<Vec<u8>>),
    lines: (ReadCursorLine, ReadCursorLine),
    receiver: ReceiverView,
) -> bool {
    let (o, e) = under_way(wait, timeout, op, event);
    let stance = spin_stance(o, e);
    &&& recv_promise(w, view, stance, r.1, lines, receiver)
    &&& r.1 matches Step::Act(line, action) ==> waits_on(wait, timeout, op, event, r.0, action)
}

/// The same where the message goes to a buffer.
pub open spec fn recv_into_kept(
    wait: &SpinThenWait,
    timeout: Option<u128>,
    op: BlockingOp<ParkOp>,
    event: WaitEvent,
    view: RecvView,
    w: RingWorld,
    r: (BlockingOp<ParkOp>, Step<usize>),
    lines: (ReadCursorLine, ReadCursorLine),
    receiver: ReceiverView,
    bufs: (Seq<u8>, Seq<u8>),
) -> bool {
    let (o, e) = under_way(wait, timeout, op, event);
    let stance = park_stance(o, e);
    &&& recv_into_promise(w, view, stance, r.1, lines, receiver, bufs)
    &&& r.1 matches Step::Act(line, action) ==> waits_on(wait, timeout, op, event, r.0, action)
}

/// The same where the message goes to a buffer and the reader only spins.
pub open spec fn spinning_recv_into_kept(
    wait: &SpinOnly,
    timeout: Option<u128>,
    op: BlockingOp<SpinOp>,
    event: WaitEvent,
    view: RecvView,
    w: RingWorld,
    r: (BlockingOp<SpinOp>, Step<usize>),
    lines: (ReadCursorLine, ReadCursorLine),
    receiver: ReceiverView,
    bufs: (Seq<u8>, Seq<u8>),
) -> bool {
    let (o, e) = under_way(wait, timeout, op, event);
    let stance = spin_stance(o, e);
    &&& recv_into_promise(w, view, stance, r.1, lines, receiver, bufs)
    &&& r.1 matches Step::Act(line, action) ==> waits_on(wait, timeout, op, event, r.0, action)
}

/// A blocking receive by a reader that spins and then sleeps keeps its promise.
proof fn lemma_recv_promise(
    wait: &SpinThenWait,
    timeout: Option<u128>,
    op: BlockingOp<ParkOp>,
    event: WaitEvent,
    view: RecvView,
    w: RingWorld,
    r: (BlockingOp<ParkOp>, Step<Vec<u8>>),
    lines: (ReadCursorLine, ReadCursorLine),
    receiver: ReceiverView,
)
    requires
        w.in_step(),
        w.read_cursor <= view.write_cursor <= w.write_cursor,
        w.read_cursor <= view.write_cursor_again <= w.write_cursor,
        op_answers(wait, op, event),
        recv_stepped(
            wait,
            timeout,
            op,
            event,
            view,
            w.data,
            r,
            (w.receiver, lines.0),
            (receiver, lines.1),
        ),
    ensures
        recv_kept(wait, timeout, op, event, view, w, r, lines, receiver),
{
    let (o, e) = under_way(wait, timeout, op, event);
    lemma_look_finds(w, view);
    if park_stance(o, e).looks && message_there(w, view, !usable(view.status)) {
        lemma_found_is_taken(w, view, lines, receiver);
    }
}

/// A blocking receive by a reader that only spins keeps its promise.
proof fn lemma_spinning_recv_promise(
    wait: &SpinOnly,
    timeout: Option<u128>,
    op: BlockingOp<SpinOp>,
    event: WaitEvent,
    view: RecvView,
    w: RingWorld,
    r: (BlockingOp<SpinOp>, Step<Vec<u8>>),
    lines: (ReadCursorLine, ReadCursorLine),
    receiver: ReceiverView,
)
    requires
        w.in_step(),
        w.read_cursor <= view.write_cursor <= w.write_cursor,
        w.read_cursor <= view.write_cursor_again <= w.write_cursor,
        op_answers(wait, op, event),
        recv_stepped(
            wait,
            timeout,
            op,
            event,
            view,
            w.data,
            r,
            (w.receiver, lines.0),
            (receiver, lines.1),
        ),
    ensures
        spinning_recv_kept(wait, timeout, op, event, view, w, r, lines, receiver),
{
    let (o, e) = under_way(wait, timeout, op, event);
    lemma_look_finds(w, view);
    if spin_stance(o, e).looks && message_there(w, view, !usable(view.status)) {
        lemma_found_is_taken(w, view, lines, receiver);
    }
}

/// The same where the message goes to a buffer.
proof fn lemma_recv_into_promise(
    wait: &SpinThenWait,
    timeout: Option<u128>,
    op: BlockingOp<ParkOp>,
    event: WaitEvent,
    view: RecvView,
    w: RingWorld,
    r: (BlockingOp<ParkOp>, Step<usize>),
    lines: (ReadCursorLine, ReadCursorLine),
    receiver: ReceiverView,
    bufs: (Seq<u8>, Seq<u8>),
)
    requires
        w.in_step(),
        w.read_cursor <= view.write_cursor <= w.write_cursor,
        w.read_cursor <= view.write_cursor_again <= w.write_cursor,
        op_answers(wait, op, event),
        bufs.0.len() <= usize::MAX,
        recv_into_stepped(
            wait,
            timeout,
            op,
            event,
            view,
            w.data,
            r,
            (w.receiver, lines.0, bufs.0),
            (receiver, lines.1, bufs.1),
        ),
    ensures
        recv_into_kept(wait, timeout, op, event, view, w, r, lines, receiver, bufs),
{
    let (o, e) = under_way(wait, timeout, op, event);
    lemma_look_finds(w, view);
    if park_stance(o, e).looks && message_there(w, view, !usable(view.status)) {
        lemma_found_is_taken(w, view, lines, receiver);
        lemma_into_buffer(w, bufs, r.1->result);
    }
}

/// The same where the message goes to a buffer and the reader only spins.
proof fn lemma_spinning_recv_into_promise(
    wait: &SpinOnly,
    timeout: Option<u128>,
    op: BlockingOp<SpinOp>,
    event: WaitEvent,
    view: RecvView,
    w: RingWorld,
    r: (BlockingOp<SpinOp>, Step<usize>),
    lines: (ReadCursorLine, ReadCursorLine),
    receiver: ReceiverView,
    bufs: (Seq<u8>, Seq<u8>),
)
    requires
        w.in_step(),
        w.read_cursor <= view.write_cursor <= w.write_cursor,
        w.read_cursor <= view.write_cursor_again <= w.write_cursor,
        op_answers(wait, op, event),
        bufs.0.len() <= usize::MAX,
        recv_into_stepped(
            wait,
            timeout,
            op,
            event,
            view,
            w.data,
            r,
            (w.receiver, lines.0, bufs.0),
            (receiver, lines.1, bufs.1),
        ),
    ensures
        spinning_recv_into_kept(wait, timeout, op, event, view, w, r, lines, receiver, bufs),
{
    let (o, e) = under_way(wait, timeout, op, event);
    lemma_look_finds(w, view);
    if spin_stance(o, e).looks && message_there(w, view, !usable(view.status)) {
        lemma_found_is_taken(w, view, lines, receiver);
        lemma_into_buffer(w, bufs, r.1->result);
    }
}

/// All of them do.
proof fn lemma_receives_keep(w: RingWorld, view: RecvView, op: BlockingOp<ParkOp>, event: WaitEvent)
    requires
        w.in_step(),
        w.read_cursor <= view.write_cursor <= w.write_cursor,
        w.read_cursor <= view.write_cursor_again <= w.write_cursor,
    ensures
        forall|
            wait: &SpinThenWait,
            timeout: Option<u128>,
            r: (BlockingOp<ParkOp>, Step<Vec<u8>>),
            line: ReadCursorLine,
            line_after: ReadCursorLine,
            receiver: ReceiverView,
        |
            op_answers(wait, op, event) && #[trigger] recv_stepped(
                wait,
                timeout,
                op,
                event,
                view,
                w.data,
                r,
                (w.receiver, line),
                (receiver, line_after),
            ) ==> recv_kept(
                wait,
                timeout,
                op,
                event,
                view,
                w,
                r,
                (line, line_after),
                receiver,
            ),
        forall|
            wait: &SpinThenWait,
            timeout: Option<u128>,
            r: (BlockingOp<ParkOp>, Step<usize>),
            line: ReadCursorLine,
            line_after: ReadCursorLine,
            receiver: ReceiverView,
            buf: Seq<u8>,
            buf_after: Seq<u8>,
        |
            buf.len() <= usize::MAX && op_answers(wait, op, event) && #[trigger] recv_into_stepped(
                wait,
                timeout,
                op,
                event,
                view,
                w.data,
                r,
                (w.receiver, line, buf),
                (receiver, line_after, buf_after),
            ) ==> recv_into_kept(
                wait,
                timeout,
                op,
                event,
                view,
                w,
                r,
                (line, line_after),
                receiver,
                (buf, buf_after),
            ),
{
    assert forall|
            wait: &SpinThenWait,
            timeout: Option<u128>,
            r: (BlockingOp<ParkOp>, Step<Vec<u8>>),
            line: ReadCursorLine,
            line_after: ReadCursorLine,
            receiver: ReceiverView,
        |
            op_answers(wait, op, event) && #[trigger] recv_stepped(
                wait,
                timeout,
                op,
                event,
                view,
                w.data,
                r,
                (w.receiver, line),
                (receiver, line_after),
            ) implies recv_kept(
                wait,
                timeout,
                op,
                event,
                view,
                w,
                r,
                (line, line_after),
                receiver,
            ) by {
        let lines = (line, line_after);
        lemma_recv_promise(wait, timeout, op, event, view, w, r, lines, receiver);
    }
    assert forall|
            wait: &SpinThenWait,
            timeout: Option<u128>,
            r: (BlockingOp<ParkOp>, Step<usize>),
            line: ReadCursorLine,
            line_after: ReadCursorLine,
            receiver: ReceiverView,
            buf: Seq<u8>,
            buf_after: Seq<u8>,
        |
            buf.len() <= usize::MAX && op_answers(wait, op, event) && #[trigger] recv_into_stepped(
                wait,
                timeout,
                op,
                event,
                view,
                w.data,
                r,
                (w.receiver, line, buf),
                (receiver, line_after, buf_after),
            ) implies recv_into_kept(
                wait,
                timeout,
                op,
                event,
                view,
                w,
                r,
                (line, line_after),
                receiver,
                (buf, buf_after),
            ) by {
        let lines = (line, line_after);
        let bufs = (buf, buf_after);
        lemma_recv_into_promise(wait, timeout, op, event, view, w, r, lines, receiver, bufs);
    }
}

/// All of them do.
proof fn lemma_spinning_receives_keep(
    w: RingWorld,
    view: RecvView,
    op: BlockingOp<SpinOp>,
    event: WaitEvent,
)
    requires
        w.in_step(),
        w.read_cursor <= view.write_cursor <= w.write_cursor,
        w.read_cursor <= view.write_cursor_again <= w.write_cursor,
    ensures
        forall|
            wait: &SpinOnly,
            timeout: Option<u128>,
            r: (BlockingOp<SpinOp>, Step<Vec<u8>>),
            line: ReadCursorLine,
            line_after: ReadCursorLine,
            receiver: ReceiverView,
        |
            op_answers(wait, op, event) && #[trigger] recv_stepped(
                wait,
                timeout,
                op,
                event,
                view,
                w.data,
                r,
                (w.receiver, line),
                (receiver, line_after),
            ) ==> spinning_recv_kept(
                wait,
                timeout,
                op,
                event,
                view,
                w,
                r,
                (line, line_after),
                receiver,
            ),
        forall|
            wait: &SpinOnly,
            timeout: Option<u128>,
            r: (BlockingOp<SpinOp>, Step<usize>),
            line: ReadCursorLine,
            line_after: ReadCursorLine,
            receiver: ReceiverView,
            buf: Seq<u8>,
            buf_after: Seq<u8>,
        |
            buf.len() <= usize::MAX && op_answers(wait, op, event) && #[trigger] recv_into_stepped(
                wait,
                timeout,
                op,
                event,
                view,
                w.data,
                r,
                (w.receiver, line, buf),
                (receiver, line_after, buf_after),
            ) ==> spinning_recv_into_kept(
                wait,
                timeout,
                op,
                event,
                view,
                w,
                r,
                (line, line_after),
                receiver,
                (buf, buf_after),
            ),
{
    assert forall|
            wait: &SpinOnly,
            timeout: Option<u128>,
            r: (BlockingOp<SpinOp>, Step<Vec<u8>>),
            line: ReadCursorLine,
            line_after: ReadCursorLine,
            receiver: ReceiverView,
        |
            op_answers(wait, op, event) && #[trigger] recv_stepped(
                wait,
                timeout,
                op,
                event,
                view,
                w.data,
                r,
                (w.receiver, line),
                (receiver, line_after),
            ) implies spinning_recv_kept(
                wait,
                timeout,
                op,
                event,
                view,
                w,
                r,
                (line, line_after),
                receiver,
            ) by {
        let lines = (line, line_after);
        lemma_spinning_recv_promise(wait, timeout, op, event, view, w, r, lines, receiver);
    }
    assert forall|
            wait: &SpinOnly,
            timeout: Option<u128>,
            r: (BlockingOp<SpinOp>, Step<usize>),
            line: ReadCursorLine,
            line_after: ReadCursorLine,
            receiver: ReceiverView,
            buf: Seq<u8>,
            buf_after: Seq<u8>,
        |
            buf.len() <= usize::MAX && op_answers(wait, op, event) && #[trigger] recv_into_stepped(
                wait,
                timeout,
                op,
                event,
                view,
                w.data,
                r,
                (w.receiver, line, buf),
                (receiver, line_after, buf_after),
            ) implies spinning_recv_into_kept(
                wait,
                timeout,
                op,
                event,
                view,
                w,
                r,
                (line, line_after),
                receiver,
                (buf, buf_after),
            ) by {
        let lines = (line, line_after);
        let bufs = (buf, buf_after);
        lemma_spinning_recv_into_promise(
            wait,
            timeout,
            op,
            event,
            view,
            w,
            r,
            lines,
            receiver,
            bufs,
        );
    }
}

/// Receiving from a ring keeps its promise, as a message of its own and into a buffer.
pub proof fn law_ring_recv_keeps_its_promise(
    w: RingWorld,
    view: RecvView,
    op: BlockingOp<ParkOp>,
    event: WaitEvent,
    wait: &SpinThenWait,
    timeout: Option<u128>,
)
    requires
        w.in_step(),
        w.read_cursor <= view.write_cursor <= w.write_cursor,
        w.read_cursor <= view.write_cursor_again <= w.write_cursor,
    ensures
        forall|s: &mut RingReceiver, line: &mut ReadCursorLine, data: &[u8]|
            (*s)@ == w.receiver && data@ == w.data && op_answers(
                wait,
                op,
                event,
            ) ==> #[trigger] call_requires(
                RingReceiver::recv::<SpinThenWait>,
                (s, wait, timeout, op, event, &view, line, data),
            ),
        forall|
            s: &mut RingReceiver,
            line: &mut ReadCursorLine,
            data: &[u8],
            r: (BlockingOp<ParkOp>, Step<Vec<u8>>),
        |
            (*s)@ == w.receiver && data@ == w.data && op_answers(
                wait,
                op,
                event,
            ) && #[trigger] call_ensures(
                RingReceiver::recv::<SpinThenWait>,
                (s, wait, timeout, op, event, &view, line, data),
                r,
            ) ==> recv_kept(
                wait,
                timeout,
                op,
                event,
                view,
                w,
                r,
                (*line, *final(line)),
                (*final(s))@,
            ),
        forall|s: &mut RingReceiver, line: &mut ReadCursorLine, data: &[u8], buf: &mut [u8]|
            (*s)@ == w.receiver && data@ == w.data && op_answers(
                wait,
                op,
                event,
            ) ==> #[trigger] call_requires(
                RingReceiver::recv_into::<SpinThenWait>,
                (s, wait, timeout, op, event, &view, line, data, buf),
            ),
        forall|
            s: &mut RingReceiver,
            line: &mut ReadCursorLine,
            data: &[u8],
            buf: &mut [u8],
            r: (BlockingOp<ParkOp>, Step<usize>),
        |
            (*s)@ == w.receiver && data@ == w.data && op_answers(
                wait,
                op,
                event,
            ) && (*buf)@.len() <= usize::MAX && #[trigger] call_ensures(
                RingReceiver::recv_into::<SpinThenWait>,
                (s, wait, timeout, op, event, &view, line, data, buf),
                r,
            ) ==> recv_into_kept(
                wait,
                timeout,
                op,
                event,
                view,
                w,
                r,
                (*line, *final(line)),
                (*final(s))@,
                ((*buf)@, (*final(buf))@),
            ),
{
    lemma_receives_keep(w, view, op, event);
}

/// The same of a reader that only spins.
pub proof fn law_spinning_ring_recv_keeps_its_promise(
    w: RingWorld,
    view: RecvView,
    op: BlockingOp<SpinOp>,
    event: WaitEvent,
    timeout: Option<u128>,
)
    requires
        w.in_step(),
        w.read_cursor <= view.write_cursor <= w.write_cursor,
        w.read_cursor <= view.write_cursor_again <= w.write_cursor,
    ensures
        forall|s: &mut RingReceiver, line: &mut ReadCursorLine, data: &[u8]|
            (*s)@ == w.receiver && data@ == w.data && op_answers(
                &SpinOnly,
                op,
                event,
            ) ==> #[trigger] call_requires(
                RingReceiver::recv::<SpinOnly>,
                (s, &SpinOnly, timeout, op, event, &view, line, data),
            ),
        forall|
            s: &mut RingReceiver,
            line: &mut ReadCursorLine,
            data: &[u8],
            r: (BlockingOp<SpinOp>, Step<Vec<u8>>),
        |
            (*s)@ == w.receiver && data@ == w.data && op_answers(
                &SpinOnly,
                op,
                event,
            ) && #[trigger] call_ensures(
                RingReceiver::recv::<SpinOnly>,
                (s, &SpinOnly, timeout, op, event, &view, line, data),
                r,
            ) ==> spinning_recv_kept(
                &SpinOnly,
                timeout,
                op,
                event,
                view,
                w,
                r,
                (*line, *final(line)),
                (*final(s))@,
            ),
        forall|s: &mut RingReceiver, line: &mut ReadCursorLine, data: &[u8], buf: &mut [u8]|
            (*s)@ == w.receiver && data@ == w.data && op_answers(
                &SpinOnly,
                op,
                event,
            ) ==> #[trigger] call_requires(
                RingReceiver::recv_into::<SpinOnly>,
                (s, &SpinOnly, timeout, op, event, &view, line, data, buf),
            ),
        forall|
            s: &mut RingReceiver,
            line: &mut ReadCursorLine,
            data: &[u8],
            buf: &mut [u8],
            r: (BlockingOp<SpinOp>, Step<usize>),
        |
            (*s)@ == w.receiver && data@ == w.data && op_answers(
                &SpinOnly,
                op,
                event,
            ) && (*buf)@.len() <= usize::MAX && #[trigger] call_ensures(
                RingReceiver::recv_into::<SpinOnly>,
                (s, &SpinOnly, timeout, op, event, &view, line, data, buf),
                r,
            ) ==> spinning_recv_into_kept(
                &SpinOnly,
                timeout,
                op,
                event,
                view,
                w,
                r,
                (*line, *final(line)),
                (*final(s))@,
                ((*buf)@, (*final(buf))@),
            ),
{
    lemma_spinning_receives_keep(w, view, op, event);
}

/// Receiving from a channel keeps its promise, without a time limit, with one and into a buffer,
/// and leaves what the end knows of sending alone.
pub proof fn law_channel_recv_keeps_its_promise(
    w: RingWorld,
    view: RecvView,
    op: BlockingOp<ParkOp>,
    event: WaitEvent,
    timeout: u128,
)
    requires
        w.in_step(),
        w.read_cursor <= view.write_cursor <= w.write_cursor,
        w.read_cursor <= view.write_cursor_again <= w.write_cursor,
    ensures
        forall|s: &mut Channel, line: &mut ReadCursorLine, data: &[u8]|
            (*s)@.valid() && (*s)@.receiver == w.receiver && data@ == w.data && op_answers(
                &(*s)@.wait,
                op,
                event,
            ) ==> #[trigger] call_requires(
                Channel::recv,
                (s, op, event, &view, line, data),
            ),
        forall|
            s: &mut Channel,
            line: &mut ReadCursorLine,
            data: &[u8],
            r: (BlockingOp<ParkOp>, Step<Vec<u8>>),
        |
            (*s)@.valid() && (*s)@.receiver == w.receiver && data@ == w.data && op_answers(
                &(*s)@.wait,
                op,
                event,
            ) && #[trigger] call_ensures(
                Channel::recv,
                (s, op, event, &view, line, data),
                r,
            ) ==> recv_kept(
                &(*s)@.wait,
                None,
                op,
                event,
                view,
                w,
                r,
                (*line, *final(line)),
                (*final(s))@.receiver,
            )
                && (*final(s))@.sender == (*s)@.sender
                && (*final(s))@.role == (*s)@.role
                && (*final(s))@.name == (*s)@.name
                && (*final(s))@.wait == (*s)@.wait,
        forall|s: &mut Channel, line: &mut ReadCursorLine, data: &[u8]|
            (*s)@.valid() && (*s)@.receiver == w.receiver && data@ == w.data && op_answers(
                &(*s)@.wait,
                op,
                event,
            ) ==> #[trigger] call_requires(
                Channel::recv_timeout,
                (s, timeout, op, event, &view, line, data),
            ),
        forall|
            s: &mut Channel,
            line: &mut ReadCursorLine,
            data: &[u8],
            r: (BlockingOp<ParkOp>, Step<Vec<u8>>),
        |
            (*s)@.valid() && (*s)@.receiver == w.receiver && data@ == w.data && op_answers(
                &(*s)@.wait,
                op,
                event,
            ) && #[trigger] call_ensures(
                Channel::recv_timeout,
                (s, timeout, op, event, &view, line, data),
                r,
            ) ==> recv_kept(
                &(*s)@.wait,
                Some(timeout),
                op,
                event,
                view,
                w,
                r,
                (*line, *final(line)),
                (*final(s))@.receiver,
            )
                && (*final(s))@.sender == (*s)@.sender
                && (*final(s))@.role == (*s)@.role
                && (*final(s))@.name == (*s)@.name
                && (*final(s))@.wait == (*s)@.wait,
        forall|s: &mut Channel, line: &mut ReadCursorLine, data: &[u8], buf: &mut [u8]|
            (*s)@.valid() && (*s)@.receiver == w.receiver && data@ == w.data && op_answers(
                &(*s)@.wait,
                op,
                event,
            ) ==> #[trigger] call_requires(
                Channel::recv_into,
                (s, op, event, &view, line, data, buf),
            ),
        forall|
            s: &mut Channel,
            line: &mut ReadCursorLine,
            data: &[u8],
            buf: &mut [u8],
            r: (BlockingOp<ParkOp>, Step<usize>),
        |
            (*s)@.valid() && (*s)@.receiver == w.receiver && data@ == w.data && op_answers(
                &(*s)@.wait,
                op,
                event,
            ) && (*buf)@.len() <= usize::MAX && #[trigger] call_ensures(
                Channel::recv_into,
                (s, op, event, &view, line, data, buf),
                r,
            ) ==> recv_into_kept(
                &(*s)@.wait,
                None,
                op,
                event,
                view,
                w,
                r,
                (*line, *final(line)),
                (*final(s))@.receiver,
                ((*buf)@, (*final(buf))@),
            )
                && (*final(s))@.sender == (*s)@.sender
                && (*final(s))@.role == (*s)@.role
                && (*final(s))@.name == (*s)@.name
                && (*final(s))@.wait == (*s)@.wait,
{
    lemma_receives_keep(w, view, op, event);
}

/// The same of a connection.
pub proof fn law_connection_recv_keeps_its_promise(
    w: RingWorld,
    view: RecvView,
    op: BlockingOp<ParkOp>,
    event: WaitEvent,
    timeout: u128,
)
    requires
        w.in_step(),
        w.read_cursor <= view.write_cursor <= w.write_cursor,
        w.read_cursor <= view.write_cursor_again <= w.write_cursor,
    ensures
        forall|s: &mut ShmemConnection, line: &mut ReadCursorLine, data: &[u8]|
            (*s)@.valid() && (*s)@.receiver == w.receiver && data@ == w.data && op_answers(
                &(*s)@.wait,
                op,
                event,
            ) ==> #[trigger] call_requires(
                ShmemConnection::recv,
                (s, op, event, &view, line, data),
            ),
        forall|
            s: &mut ShmemConnection,
            line: &mut ReadCursorLine,
            data: &[u8],
            r: (BlockingOp<ParkOp>, Step<Vec<u8>>),
        |
            (*s)@.valid() && (*s)@.receiver == w.receiver && data@ == w.data && op_answers(
                &(*s)@.wait,
                op,
                event,
            ) && #[trigger] call_ensures(
                ShmemConnection::recv,
                (s, op, event, &view, line, data),
                r,
            ) ==> recv_kept(
                &(*s)@.wait,
                None,
                op,
                event,
                view,
                w,
                r,
                (*line, *final(line)),
                (*final(s))@.receiver,
            )
                && (*final(s))@.sender == (*s)@.sender
                && (*final(s))@.name == (*s)@.name
                && (*final(s))@.is_server == (*s)@.is_server
                && (*final(s))@.wait == (*s)@.wait,
        forall|s: &mut ShmemConnection, line: &mut ReadCursorLine, data: &[u8]|
            (*s)@.valid() && (*s)@.receiver == w.receiver && data@ == w.data && op_answers(
                &(*s)@.wait,
                op,
                event,
            ) ==> #[trigger] call_requires(
                ShmemConnection::recv_timeout,
                (s, timeout, op, event, &view, line, data),
            ),
        forall|
            s: &mut ShmemConnection,
            line: &mut ReadCursorLine,
            data: &[u8],
            r: (BlockingOp<ParkOp>, Step<Vec<u8>>),
        |
            (*s)@.valid() && (*s)@.receiver == w.receiver && data@ == w.data && op_answers(
                &(*s)@.wait,
                op,
                event,
            ) && #[trigger] call_ensures(
                ShmemConnection::recv_timeout,
                (s, timeout, op, event, &view, line, data),
                r,
            ) ==> recv_kept(
                &(*s)@.wait,
                Some(timeout),
                op,
                event,
                view,
                w,
                r,
                (*line, *final(line)),
                (*final(s))@.receiver,
            )
                && (*final(s))@.sender == (*s)@.sender
                && (*final(s))@.name == (*s)@.name
                && (*final(s))@.is_server == (*s)@.is_server
                && (*final(s))@.wait == (*s)@.wait,
{
    lemma_receives_keep(w, view, op, event);
}

/// The same of the receiving half of a connection.
pub proof fn law_recv_half_recv_keeps_its_promise(
    w: RingWorld,
    view: RecvView,
    op: BlockingOp<ParkOp>,
    event: WaitEvent,
    timeout: u128,
)
    requires
        w.in_step(),
        w.read_cursor <= view.write_cursor <= w.write_cursor,
        w.read_cursor <= view.write_cursor_again <= w.write_cursor,
    ensures
        forall|s: &mut RecvHalf, line: &mut ReadCursorLine, data: &[u8]|
            (*s)@.valid() && (*s)@.receiver == w.receiver && data@ == w.data && op_answers(
                &(*s)@.wait,
                op,
                event,
            ) ==> #[trigger] call_requires(
                RecvHalf::recv,
                (s, op, event, &view, line, data),
            ),
        forall|
            s: &mut RecvHalf,
            line: &mut ReadCursorLine,
            data: &[u8],
            r: (BlockingOp<ParkOp>, Step<Vec<u8>>),
        |
            (*s)@.valid() && (*s)@.receiver == w.receiver && data@ == w.data && op_answers(
                &(*s)@.wait,
                op,
                event,
            ) && #[trigger] call_ensures(
                RecvHalf::recv,
                (s, op, event, &view, line, data),
                r,
            ) ==> recv_kept(
                &(*s)@.wait,
                None,
                op,
                event,
                view,
                w,
                r,
                (*line, *final(line)),
                (*final(s))@.receiver,
            )
                && (*final(s))@.wait == (*s)@.wait,
        forall|s: &mut RecvHalf, line: &mut ReadCursorLine, data: &[u8]|
            (*s)@.valid() && (*s)@.receiver == w.receiver && data@ == w.data && op_answers(
                &(*s)@.wait,
                op,
                event,
            ) ==> #[trigger] call_requires(
                RecvHalf::recv_timeout,
                (s, timeout, op, event, &view, line, data),
            ),
        forall|
            s: &mut RecvHalf,
            line: &mut ReadCursorLine,
            data: &[u8],
            r: (BlockingOp<ParkOp>, Step<Vec<u8>>),
        |
            (*s)@.valid() && (*s)@.receiver == w.receiver && data@ == w.data && op_answers(
                &(*s)@.wait,
                op,
                event,
            ) && #[trigger] call_ensures(
                RecvHalf::recv_timeout,
                (s, timeout, op, event, &view, line, data),
                r,
            ) ==> recv_kept(
                &(*s)@.wait,
                Some(timeout),
                op,
                event,
                view,
                w,
                r,
                (*line, *final(line)),
                (*final(s))@.receiver,
            )
                && (*final(s))@.wait == (*s)@.wait,
        forall|s: &mut RecvHalf, line: &mut ReadCursorLine, data: &[u8], buf: &mut [u8]|
            (*s)@.valid() && (*s)@.receiver == w.receiver && data@ == w.data && op_answers(
                &(*s)@.wait,
                op,
                event,
            ) ==> #[trigger] call_requires(
                RecvHalf::recv_into,
                (s, op, event, &view, line, data, buf),
            ),
        forall|
            s: &mut RecvHalf,
            line: &mut ReadCursorLine,
            data: &[u8],
            buf: &mut [u8],
            r: (BlockingOp<ParkOp>, Step<usize>),
        |
            (*s)@.valid() && (*s)@.receiver == w.receiver && data@ == w.data && op_answers(
                &(*s)@.wait,
                op,
                event,
            ) && (*buf)@.len() <= usize::MAX && #[trigger] call_ensures(
                RecvHalf::recv_into,
                (s, op, event, &view, line, data, buf),
                r,
            ) ==> recv_into_kept(
                &(*s)@.wait,
                None,
                op,
                event,
                view,
                w,
                r,
                (*line, *final(line)),
                (*final(s))@.receiver,
                ((*buf)@, (*final(buf))@),
            )
                && (*final(s))@.wait == (*s)@.wait,
{
    lemma_receives_keep(w, view, op, event);
}

/// A receive that does not wait takes the oldest message where its record is shown, and answers
/// that there is none where it is not, whatever became of the channel.
pub proof fn law_try_recv_takes_what_is_shown(w: RingWorld, cursor: u64)
    requires
        w.in_step(),
        w.read_cursor <= cursor <= w.write_cursor,
    ensures
        forall|s: &mut RingReceiver, line: &mut ReadCursorLine, data: &[u8]|
            (*s)@ == w.receiver && data@ == w.data ==> #[trigger] call_requires(
                RingReceiver::try_recv,
                (s, cursor, line, data),
            ),
        forall|
            s: &mut RingReceiver,
            line: &mut ReadCursorLine,
            data: &[u8],
            r: Result<Option<Vec<u8>>, Error>,
        |
            (*s)@ == w.receiver && data@ == w.data && #[trigger] call_ensures(
                RingReceiver::try_recv,
                (s, cursor, line, data),
                r,
            ) ==> if shown(w, cursor) {
                &&& r matches Ok(Some(buf))
                &&& buf@ == w.queue()[0]
                &&& oldest_taken(w, (*line, *final(line)), (*final(s))@)
            } else {
                &&& r matches Ok(None)
                &&& (*final(s))@ == (*s)@
                &&& *final(line) == *line
            },
        forall|s: &mut Channel, line: &mut ReadCursorLine, data: &[u8]|
            (*s)@.valid() && (*s)@.receiver == w.receiver && data@ == w.data ==> #[trigger]
            call_requires(
                Channel::try_recv,
                (s, cursor, line, data),
            ),
        forall|
            s: &mut Channel,
            line: &mut ReadCursorLine,
            data: &[u8],
            r: Result<Option<Vec<u8>>, Error>,
        |
            (*s)@.valid() && (*s)@.receiver == w.receiver && data@ == w.data && #[trigger]
            call_ensures(
                Channel::try_recv,
                (s, cursor, line, data),
                r,
            ) ==> if shown(w, cursor) {
                &&& r matches Ok(Some(buf))
                &&& buf@ == w.queue()[0]
                &&& oldest_taken(w, (*line, *final(line)), (*final(s))@.receiver)
            } else {
                &&& r matches Ok(None)
                &&& (*final(s))@ == (*s)@
                &&& *final(line) == *line
            },
        forall|s: &mut ShmemConnection, line: &mut ReadCursorLine, data: &[u8]|
            (*s)@.valid() && (*s)@.receiver == w.receiver && data@ == w.data ==> #[trigger]
            call_requires(
                ShmemConnection::try_recv,
                (s, cursor, line, data),
            ),
        forall|
            s: &mut ShmemConnection,
            line: &mut ReadCursorLine,
            data: &[u8],
            r: Result<Option<Vec<u8>>, Error>,
        |
            (*s)@.valid() && (*s)@.receiver == w.receiver && data@ == w.data && #[trigger]
            call_ensures(
                ShmemConnection::try_recv,
                (s, cursor, line, data),
                r,
            ) ==> if shown(w, cursor) {
                &&& r matches Ok(Some(buf))
                &&& buf@ == w.queue()[0]
                &&& oldest_taken(w, (*line, *final(line)), (*final(s))@.receiver)
            } else {
                &&& r matches Ok(None)
                &&& (*final(s))@ == (*s)@
                &&& *final(line) == *line
            },
        forall|s: &mut RecvHalf, line: &mut ReadCursorLine, data: &[u8]|
            (*s)@.valid() && (*s)@.receiver == w.receiver && data@ == w.data ==> #[trigger]
            call_requires(
                RecvHalf::try_recv,
                (s, cursor, line, data),
            ),
        forall|
            s: &mut RecvHalf,
            line: &mut ReadCursorLine,
            data: &[u8],
            r: Result<Option<Vec<u8>>, Error>,
        |
            (*s)@.valid() && (*s)@.receiver == w.receiver && data@ == w.data && #[trigger]
            call_ensures(
                RecvHalf::try_recv,
                (s, cursor, line, data),
                r,
            ) ==> if shown(w, cursor) {
                &&& r matches Ok(Some(buf))
                &&& buf@ == w.queue()[0]
                &&& oldest_taken(w, (*line, *final(line)), (*final(s))@.receiver)
            } else {
                &&& r matches Ok(None)
                &&& (*final(s))@ == (*s)@
                &&& *final(line) == *line
            },
{
    law_peek_finds_the_oldest(w, cursor as int);
    assert forall|
            s: &mut RingReceiver,
            line: &mut ReadCursorLine,
            data: &[u8],
            r: Result<Option<Vec<u8>>, Error>,
        |
            (*s)@ == w.receiver && data@ == w.data && #[trigger] call_ensures(
                RingReceiver::try_recv,
                (s, cursor, line, data),
                r,
            ) implies ({
            if shown(w, cursor) {
                &&& r matches Ok(Some(buf))
                &&& buf@ == w.queue()[0]
                &&& oldest_taken(w, (*line, *final(line)), (*final(s))@)
            } else {
                &&& r matches Ok(None)
                &&& (*final(s))@ == (*s)@
                &&& *final(line) == *line
            }
        }) by {
        if shown(w, cursor) {
            lemma_oldest_is_taken(w, cursor, (*line, *final(line)), (*final(s))@);
        }
    }
    assert forall|
            s: &mut Channel,
            line: &mut ReadCursorLine,
            data: &[u8],
            r: Result<Option<Vec<u8>>, Error>,
        |
            (*s)@.valid() && (*s)@.receiver == w.receiver && data@ == w.data && #[trigger]
            call_ensures(
                Channel::try_recv,
                (s, cursor, line, data),
                r,
            ) implies ({
            if shown(w, cursor) {
                &&& r matches Ok(Some(buf))
                &&& buf@ == w.queue()[0]
                &&& oldest_taken(w, (*line, *final(line)), (*final(s))@.receiver)
            } else {
                &&& r matches Ok(None)
                &&& (*final(s))@ == (*s)@
                &&& *final(line) == *line
            }
        }) by {
        if shown(w, cursor) {
            lemma_oldest_is_taken(w, cursor, (*line, *final(line)), (*final(s))@.receiver);
        }
    }
    assert forall|
            s: &mut ShmemConnection,
            line: &mut ReadCursorLine,
            data: &[u8],
            r: Result<Option<Vec<u8>>, Error>,
        |
            (*s)@.valid() && (*s)@.receiver == w.receiver && data@ == w.data && #[trigger]
            call_ensures(
                ShmemConnection::try_recv,
                (s, cursor, line, data),
                r,
            ) implies ({
            if shown(w, cursor) {
                &&& r matches Ok(Some(buf))
                &&& buf@ == w.queue()[0]
                &&& oldest_taken(w, (*line, *final(line)), (*final(s))@.receiver)
            } else {
                &&& r matches Ok(None)
                &&& (*final(s))@ == (*s)@
                &&& *final(line) == *line
            }
        }) by {
        if shown(w, cursor) {
            lemma_oldest_is_taken(w, cursor, (*line, *final(line)), (*final(s))@.receiver);
        }
    }
    assert forall|
            s: &mut RecvHalf,
            line: &mut ReadCursorLine,
            data: &[u8],
            r: Result<Option<Vec<u8>>, Error>,
        |
            (*s)@.valid() && (*s)@.receiver == w.receiver && data@ == w.data && #[trigger]
            call_ensures(
                RecvHalf::try_recv,
                (s, cursor, line, data),
                r,
            ) implies ({
            if shown(w, cursor) {
                &&& r matches Ok(Some(buf))
                &&& buf@ == w.queue()[0]
                &&& oldest_taken(w, (*line, *final(line)), (*final(s))@.receiver)
            } else {
                &&& r matches Ok(None)
                &&& (*final(s))@ == (*s)@
                &&& *final(line) == *line
            }
        }) by {
        if shown(w, cursor) {
            lemma_oldest_is_taken(w, cursor, (*line, *final(line)), (*final(s))@.receiver);
        }
    }
}

/// What a reader finds, by the bytes that lie at its cursor.
pub proof fn lemma_peek_in_numbers(v: ReceiverView, wc: int, data: Seq<u8>)
    requires
        v.valid(),
        v.size == data.len(),
        v.size >= 8,
        v.rc <= wc <= u64::MAX,
    ensures
        ({
            let len = number_at(data, v.rc);
            let seq = number_at(data, v.rc + 4);
            let r = peek_result(v, wc, data);
            if wc - v.rc < 8 {
                r == Ok::<TryPeekResult, Error>(TryPeekResult::Empty)
            } else if len > v.size - 8 {
                r matches Err(Error::MessageTooLarge { size, max }) && size == len && max == v.size
                    - 8
            } else if wc - v.rc < 8 + len {
                r == Ok::<TryPeekResult, Error>(TryPeekResult::Empty)
            } else {
                &&& r matches Ok(TryPeekResult::Ready(message))
                &&& message.read_cursor == v.rc
                &&& message.payload_len == len
                &&& message.seq == seq
            }
        }),
{
    let header = window(data, v.rc, 8);
    let size = data.len() as int;
    assert(header[0] == data[(v.rc + 0) % size] && header[1] == data[(v.rc + 1) % size]);
    assert(header[2] == data[(v.rc + 2) % size] && header[3] == data[(v.rc + 3) % size]);
    assert(header[4] == data[(v.rc + 4) % size] && header[5] == data[(v.rc + 5) % size]);
    assert(header[6] == data[(v.rc + 6) % size] && header[7] == data[(v.rc + 7) % size]);
    assert(v.rc + 4 + 1 == v.rc + 5 && v.rc + 4 + 2 == v.rc + 6 && v.rc + 4 + 3 == v.rc + 7);
    assert(crate::record::record_len(header) == number_at(data, v.rc));
    assert(crate::record::record_seq(header) == number_at(data, v.rc + 4));
}

/// A reader goes by the bytes that lie at its cursor and trusts none of them: eight bytes of
/// header must be shown before the length is looked at, a length that the ring cannot hold is an
/// error, and a message is found only where all of it is shown.
pub proof fn law_reader_trusts_no_length(
    v: &RingReceiver,
    cursor: u64,
    data: &[u8],
    r: Result<TryPeekResult, Error>,
)
    requires
        v@.valid(),
        v@.size == data@.len(),
        v@.size >= 8,
        v@.rc <= cursor,
        call_ensures(RingReceiver::try_peek_message, (v, cursor, data), r),
    ensures
        call_requires(RingReceiver::try_peek_message, (v, cursor, data)),
        ({
            let len = number_at(data@, v@.rc);
            let seq = number_at(data@, v@.rc + 4);
            if cursor - v@.rc < 8 {
                r == Ok::<TryPeekResult, Error>(TryPeekResult::Empty)
            } else if len > v@.size - 8 {
                r matches Err(Error::MessageTooLarge { size, max }) && size == len && max == v@.size
                    - 8
            } else if cursor - v@.rc < 8 + len {
                r == Ok::<TryPeekResult, Error>(TryPeekResult::Empty)
            } else {
                &&& r matches Ok(TryPeekResult::Ready(message))
                &&& message.read_cursor == v@.rc
                &&& message.payload_len == len
                &&& message.seq == seq
            }
        }),
{
    lemma_peek_in_numbers(v@, cursor as int, data@);
}

/// A message is taken only in its turn: one that carries another number than the next is refused
/// with both numbers, and nothing moves. One in its turn is copied byte for byte, and the reader
/// and its line move past it.
pub proof fn law_message_is_taken_in_its_turn(message: PeekedMessage, data: &[u8])
    requires
        message.payload_len <= data@.len() - 8,
        message.read_cursor + 8 + message.payload_len <= u64::MAX,
    ensures
        forall|s: &mut RingReceiver, line: &mut ReadCursorLine, r: Result<(), Error>|
            (*s)@.valid() && (*s)@.size == data@.len() && #[trigger] call_ensures(
                RingReceiver::commit_current_message,
                (s, message, line),
                r,
            ) ==> in_turn(message, (*s)@, (*final(s))@, (*line, *final(line)), r),
        forall|s: &mut RingReceiver, line: &mut ReadCursorLine, r: Result<Vec<u8>, Error>|
            (*s)@.valid() && (*s)@.size == data@.len() && #[trigger] call_ensures(
                RingReceiver::commit_message_to_vec,
                (s, message, line, data),
                r,
            ) ==> {
                let plain = match r {
                    Ok(_) => Ok::<(), Error>(()),
                    Err(e) => Err(e),
                };
                &&& in_turn(message, (*s)@, (*final(s))@, (*line, *final(line)), plain)
                &&& r matches Ok(buf) ==> copied(message, data@, buf@)
            },
        forall|
            s: &mut RingReceiver,
            line: &mut ReadCursorLine,
            buf: &mut [u8],
            r: Result<usize, Error>,
        |
            (*s)@.valid() && (*s)@.size == data@.len() && (*buf)@.len() <= usize::MAX
                && #[trigger] call_ensures(
                RingReceiver::commit_message_into,
                (s, message, line, data, buf),
                r,
            ) ==> {
                let short = (*buf)@.len() < message.payload_len;
                let turn = message.seq == (*s)@.expected_seq;
                let plain = match r {
                    Ok(_) => Ok::<(), Error>(()),
                    Err(e) => if turn && short {
                        Ok(())
                    } else {
                        Err(e)
                    },
                };
                &&& in_turn(message, (*s)@, (*final(s))@, (*line, *final(line)), plain)
                &&& (*final(buf))@.len() == (*buf)@.len()
                &&& turn && !short ==> r == Ok::<usize, Error>(message.payload_len) && copied(
                    message,
                    data@,
                    (*final(buf))@.take(message.payload_len as int),
                )
                &&& turn && short ==> r == Err::<usize, Error>(
                    Error::MessageTooLarge {
                        size: message.payload_len,
                        max: (*buf)@.len() as usize,
                    },
                ) && (*final(buf))@ == (*buf)@
                &&& forall|i: int|
                    message.payload_len <= i < (*buf)@.len() ==> (*final(buf))@[i]
                        == #[trigger] (*buf)@[i]
            },
        forall|s: &RingReceiver, buf: &mut [u8], r: Result<usize, Error>|
            s@.valid() && s@.size == data@.len() && (*buf)@.len() <= usize::MAX
                && #[trigger] call_ensures(
                RingReceiver::copy_current_message,
                (s, message, data, buf),
                r,
            ) ==> {
                let short = (*buf)@.len() < message.payload_len;
                &&& (*final(buf))@.len() == (*buf)@.len()
                &&& !short ==> r == Ok::<usize, Error>(message.payload_len) && copied(
                    message,
                    data@,
                    (*final(buf))@.take(message.payload_len as int),
                )
                &&& short ==> r == Err::<usize, Error>(
                    Error::MessageTooLarge {
                        size: message.payload_len,
                        max: (*buf)@.len() as usize,
                    },
                ) && (*final(buf))@ == (*buf)@
            },
{
}

/// Whether a message was taken if and only if its turn had come.
pub open spec fn in_turn(
    message: PeekedMessage,
    before: ReceiverView,
    after: ReceiverView,
    lines: (ReadCursorLine, ReadCursorLine),
    r: Result<(), Error>,
) -> bool {
    &&& after.size == before.size
    &&& if message.seq == before.expected_seq {
        &&& r is Ok
        &&& after.rc == message.read_cursor + 8 + message.payload_len
        &&& after.expected_seq == (before.expected_seq + 1) % 0x1_0000_0000
        &&& lines.1.read_cursor == after.rc
        &&& lines.1.notify == (lines.0.notify + 1) % 0x1_0000_0000
        &&& lines.1.parked == lines.0.parked
    } else {
        &&& r == Err::<(), Error>(
            Error::SequenceMismatch { expected: before.expected_seq, got: message.seq },
        )
        &&& after == before
        &&& lines.1 == lines.0
    }
}

/// Whether bytes are those of a message's payload as it lies in a ring.
pub open spec fn copied(message: PeekedMessage, data: Seq<u8>, bytes: Seq<u8>) -> bool {
    &&& bytes.len() == message.payload_len
    &&& forall|i: int|
        0 <= i < bytes.len() ==> #[trigger] bytes[i] == data[(message.read_cursor + 8 + i) % (
        data.len() as int)]
}

/// Whether a reader that has seen its writer at `cursor` stands before bytes that are no message
/// to be taken, and how it says so: a length that the ring cannot hold, or a number that is not
/// the next.
pub open spec fn refused(v: ReceiverView, data: Seq<u8>, cursor: u64) -> Option<Error> {
    let len = number_at(data, v.rc);
    let seq = number_at(data, v.rc + 4);
    if cursor - v.rc < 8 {
        None
    } else if len > v.size - 8 {
        Some(Error::MessageTooLarge { size: len as usize, max: (v.size - 8) as usize })
    } else if cursor - v.rc >= 8 + len && seq != v.expected_seq {
        Some(Error::SequenceMismatch { expected: v.expected_seq, got: seq as u32 })
    } else {
        None
    }
}

/// What cannot be a message in its turn is reported by every way of receiving that looks, and is
/// not taken: the reader and its line stay.
pub proof fn law_what_is_no_message_is_reported(
    wait: &SpinThenWait,
    timeout: Option<u128>,
    op: BlockingOp<ParkOp>,
    event: WaitEvent,
    view: RecvView,
    data: &[u8],
    v: ReceiverView,
    e: Error,
)
    requires
        v.valid(),
        v.size == data@.len(),
        v.size >= 8,
        v.rc <= view.write_cursor,
        op_answers(wait, op, event),
        refused(v, data@, view.write_cursor) == Some(e),
        ({
            let (o, next) = under_way(wait, timeout, op, event);
            park_stance(o, next).looks
        }),
    ensures
        forall|
            s: &mut RingReceiver,
            line: &mut ReadCursorLine,
            r: (BlockingOp<ParkOp>, Step<Vec<u8>>),
        |
            (*s)@ == v && #[trigger] call_ensures(
                RingReceiver::recv::<SpinThenWait>,
                (s, wait, timeout, op, event, &view, line, data),
                r,
            ) ==> {
                &&& r.1 matches Step::Done { unpark, result: Err(told) }
                &&& told == e
                &&& (*final(s))@ == v
                &&& *final(line) == *line
            },
        forall|
            s: &mut RingReceiver,
            line: &mut ReadCursorLine,
            buf: &mut [u8],
            r: (BlockingOp<ParkOp>, Step<usize>),
        |
            (*s)@ == v && #[trigger] call_ensures(
                RingReceiver::recv_into::<SpinThenWait>,
                (s, wait, timeout, op, event, &view, line, data, buf),
                r,
            ) ==> {
                &&& r.1 matches Step::Done { unpark, result: Err(told) }
                &&& told == e
                &&& (*final(s))@ == v
                &&& *final(line) == *line
            },
        forall|s: &mut RingReceiver, line: &mut ReadCursorLine, r: Result<Option<Vec<u8>>, Error>|
            (*s)@ == v && #[trigger] call_ensures(
                RingReceiver::try_recv,
                (s, view.write_cursor, line, data),
                r,
            ) ==> {
                &&& r matches Err(told)
                &&& told == e
                &&& (*final(s))@ == v
                &&& *final(line) == *line
            },
{
    lemma_peek_in_numbers(v, view.write_cursor as int, data@);
}

/// On a ring in step every step of sending may be taken: the tests that guard the calls say so, for
/// a first try and for a later look. A message has its size, and is refused, by what the empty ring
/// could hold.
pub proof fn law_guards_let_senders_through(
    w: RingWorld,
    sender: &RingSender,
    view: SendView,
    len: usize,
    waiting: bool,
    answers: (bool, bool),
    size: Result<usize, Error>,
)
    requires
        w.in_step(),
        sender@ == w.sender,
        w.sender.rc <= view.read_cursor <= w.read_cursor,
        w.write_cursor + 8 + len <= u64::MAX,
        call_ensures(
            RingSender::is_free_to_try,
            (sender, &view, w.data.len() as usize, len),
            answers.0,
        ),
        call_ensures(
            RingSender::is_ready,
            (sender, &view, w.data.len() as usize, len, waiting),
            answers.1,
        ),
        call_ensures(RingSender::message_size, (sender, len), size),
    ensures
        answers.0,
        answers.1,
        size is Ok <==> len + 8 <= w.data.len(),
        size matches Ok(n) ==> n == len + 8,
        size matches Err(e) ==> e == (Error::MessageTooLarge {
            size: len,
            max: (w.data.len() - 8) as usize,
        }),
{
}

/// On a ring in step every step of receiving may be taken, and the tests that guard the calls say
/// so.
pub proof fn law_guards_let_readers_through(
    w: RingWorld,
    receiver: &RingReceiver,
    view: RecvView,
    ready: bool,
    message: PeekedMessage,
    len: usize,
)
    requires
        w.in_step(),
        receiver@ == w.receiver,
        w.read_cursor <= view.write_cursor <= w.write_cursor,
        w.read_cursor <= view.write_cursor_again <= w.write_cursor,
        call_ensures(RingReceiver::is_ready, (receiver, &view, w.data.len() as usize), ready),
        call_ensures(PeekedMessage::payload_len, (message,), len),
    ensures
        ready,
        len == message.payload_len,
{
}

} // verus!
