//! What sending and receiving in tasks promise, told in cursors, bytes and messages.
//!
//! A task looks at every step that nothing has cut off. What a look finds there is to find is
//! had at once; a task is made to act, and so to wait, only where that very look has found
//! nothing.

use vstd::prelude::*;

use crate::error::Error;
use crate::header::{ReadCursorLine, RingLine, WriteCursorLine};
use crate::laws::{law_peek_finds_the_oldest, law_receive_takes_the_oldest, RingWorld};
use crate::promises::{
    enough_room, into_buffer, lemma_found_is_taken, lemma_into_buffer, lemma_look_finds,
    lemma_message_sent_went_out, lemma_peek_in_numbers, message_there, oldest_taken, refused,
    stayed_in, usable, went_out,
};
use crate::ring::{
    consumed, payload_of, peek_result, PeekedMessage, ReceiverView, RecvView, RingReceiver,
    RingSender, SendView, TryPeekResult,
};
use crate::tokio::laws::law_drain_takes_the_queue_in_order;
use crate::tokio::{
    drain_on, drain_ready, drained, map_timeout, recv_async, recv_into_async, recv_many_async,
    send_async, send_spin_count, AsyncAction, AsyncEvent, AsyncOp, AsyncStep, DrainStep, ManyOp,
};

verus! {

/// Why an operation is cut off: the notification word cannot be noted, or its change will not be
/// heard of.
pub open spec fn cut_off(event: AsyncEvent) -> Option<Error> {
    match event {
        AsyncEvent::Proceed => None,
        AsyncEvent::Noted(noted) => match noted {
            Ok(_) => None,
            Err(e) => Some(e),
        },
        AsyncEvent::Changed(changed) => match changed {
            Ok(_) => None,
            Err(e) => Some(e),
        },
    }
}

/// Sending in a task: whatever the task has done before, and also in the step after the word was
/// noted and in that after it has changed, the message goes out whenever enough bytes are free.
/// The task goes on, with the reader's word, only where too few are.
pub proof fn law_task_never_waits_for_room_that_is_there(
    w: RingWorld,
    view: SendView,
    payload: &[u8],
    spins: u32,
    op: AsyncOp,
    event: AsyncEvent,
)
    requires
        w.in_step(),
        w.sender.rc <= view.read_cursor <= w.read_cursor,
        payload@.len() < 0x1_0000_0000,
        w.write_cursor + 8 + payload@.len() <= u64::MAX,
        op.answers(event),
    ensures
        forall|s: &mut RingSender, line: &mut WriteCursorLine, data: &mut [u8]|
            (*s)@ == w.sender && (*data)@ == w.data ==> #[trigger] call_requires(
                send_async,
                (s, spins, op, event, &view, line, data, payload),
            ),
        forall|
            s: &mut RingSender,
            line: &mut WriteCursorLine,
            data: &mut [u8],
            r: (AsyncOp, AsyncStep<()>),
        |
            (*s)@ == w.sender && (*data)@ == w.data && #[trigger] call_ensures(
                send_async,
                (s, spins, op, event, &view, line, data, payload),
                r,
            ) ==> {
                let lines = (*line, *final(line));
                let fits = 8 + payload@.len() <= w.data.len();
                let room = enough_room(w, view, payload@.len() as int);
                let open = cut_off(event) is None && usable(view.status);
                &&& open && fits && room ==> r.1 == AsyncStep::<()>::Done(Ok(())) && went_out(
                    w,
                    payload@,
                    lines,
                    (*final(s))@,
                    (*final(data))@,
                )
                &&& !(open && fits && room) ==> r.1 != AsyncStep::<()>::Done(Ok(())) && stayed_in(
                    w,
                    lines,
                    (*final(s))@,
                    (*final(data))@,
                )
                &&& open && fits && !room <==> r.1 is Act
                &&& open && !fits ==> r.1 == AsyncStep::<()>::Done(
                    Err(
                        Error::MessageTooLarge {
                            size: payload@.len() as usize,
                            max: (w.data.len() - 8) as usize,
                        },
                    ),
                )
                &&& cut_off(event) is None && !usable(view.status) ==> r.1 is Done && r.1->Done_0
                    is Err && Some(r.1->Done_0->Err_0) == view.status.terminal()
                &&& cut_off(event) matches Some(e) ==> r.1 == AsyncStep::<()>::Done(Err(e))
                &&& r.1 matches AsyncStep::Act(on, action) ==> on == RingLine::Reader && (
                    r.0,
                    action,
                ) == op.unsuccessful(spins, event)
            },
{
    assert forall|
        s: &mut RingSender,
        line: &mut WriteCursorLine,
        data: &mut [u8],
        r: (AsyncOp, AsyncStep<()>),
    |
        (*s)@ == w.sender && (*data)@ == w.data && cut_off(event) is None && usable(view.status)
            && 8 + payload@.len() <= w.data.len() && enough_room(w, view, payload@.len() as int)
            && #[trigger] call_ensures(
            send_async,
            (s, spins, op, event, &view, line, data, payload),
            r,
        ) implies went_out(w, payload@, (*line, *final(line)), (*final(s))@, (*final(data))@) by {
        lemma_message_sent_went_out(
            w,
            view,
            payload@,
            (*line, *final(line)),
            (*final(s))@,
            (*final(data))@,
        );
    }
}

/// Receiving in a task: whatever the task has done before, the oldest message is taken and handed
/// over whenever it is there. The task goes on, with the writer's word, only where none is.
pub proof fn law_task_never_waits_for_a_message_that_is_there(
    w: RingWorld,
    view: RecvView,
    spins: u32,
    op: AsyncOp,
    event: AsyncEvent,
)
    requires
        w.in_step(),
        w.read_cursor <= view.write_cursor <= w.write_cursor,
        w.read_cursor <= view.write_cursor_again <= w.write_cursor,
        op.answers(event),
    ensures
        forall|s: &mut RingReceiver, line: &mut ReadCursorLine, data: &[u8]|
            (*s)@ == w.receiver && data@ == w.data ==> #[trigger] call_requires(
                recv_async,
                (s, spins, op, event, &view, line, data),
            ),
        forall|
            s: &mut RingReceiver,
            line: &mut ReadCursorLine,
            data: &[u8],
            r: (AsyncOp, AsyncStep<Vec<u8>>),
        |
            (*s)@ == w.receiver && data@ == w.data && #[trigger] call_ensures(
                recv_async,
                (s, spins, op, event, &view, line, data),
                r,
            ) ==> {
                let there = message_there(w, view, !usable(view.status));
                &&& cut_off(event) is None && there ==> {
                    &&& r.1 matches AsyncStep::Done(Ok(buf))
                    &&& buf@ == w.queue()[0]
                    &&& oldest_taken(w, (*line, *final(line)), (*final(s))@)
                }
                &&& !(cut_off(event) is None && there) ==> {
                    &&& !(r.1 matches AsyncStep::Done(Ok(buf)))
                    &&& (*final(s))@ == w.receiver
                    &&& *final(line) == *line
                }
                &&& cut_off(event) is None && !there && usable(view.status) <==> r.1 is Act
                &&& cut_off(event) is None && !there && !usable(view.status) ==> r.1 is Done
                    && r.1->Done_0 is Err && Some(r.1->Done_0->Err_0) == view.status.terminal()
                &&& cut_off(event) matches Some(e) ==> r.1 == AsyncStep::<Vec<u8>>::Done(Err(e))
                &&& r.1 matches AsyncStep::Act(on, action) ==> on == RingLine::Writer && (
                    r.0,
                    action,
                ) == op.unsuccessful(spins, event)
            },
{
    lemma_look_finds(w, view);
    assert forall|
        s: &mut RingReceiver,
        line: &mut ReadCursorLine,
        data: &[u8],
        r: (AsyncOp, AsyncStep<Vec<u8>>),
    |
        (*s)@ == w.receiver && data@ == w.data && cut_off(event) is None && message_there(
            w,
            view,
            !usable(view.status),
        ) && #[trigger] call_ensures(
            recv_async,
            (s, spins, op, event, &view, line, data),
            r,
        ) implies oldest_taken(w, (*line, *final(line)), (*final(s))@) by {
        lemma_found_is_taken(w, view, (*line, *final(line)), (*final(s))@);
    }
}

/// Receiving into a buffer in a task takes the oldest message in the same way, and puts it at the
/// front of the buffer. One that is longer than the buffer is taken too, and both lengths are
/// reported; either way the next message can be received, and the writer's room comes back.
pub proof fn law_task_takes_the_oldest_into_its_buffer(
    w: RingWorld,
    view: RecvView,
    spins: u32,
    op: AsyncOp,
    event: AsyncEvent,
)
    requires
        w.in_step(),
        w.read_cursor <= view.write_cursor <= w.write_cursor,
        w.read_cursor <= view.write_cursor_again <= w.write_cursor,
        op.answers(event),
    ensures
        forall|s: &mut RingReceiver, line: &mut ReadCursorLine, data: &[u8], buf: &mut [u8]|
            (*s)@ == w.receiver && data@ == w.data ==> #[trigger] call_requires(
                recv_into_async,
                (s, spins, op, event, &view, line, data, buf),
            ),
        forall|
            s: &mut RingReceiver,
            line: &mut ReadCursorLine,
            data: &[u8],
            buf: &mut [u8],
            r: (AsyncOp, AsyncStep<usize>),
        |
            (*s)@ == w.receiver && data@ == w.data && (*buf)@.len() <= usize::MAX
                && #[trigger] call_ensures(
                recv_into_async,
                (s, spins, op, event, &view, line, data, buf),
                r,
            ) ==> {
                let there = message_there(w, view, !usable(view.status));
                &&& cut_off(event) is None && there ==> {
                    &&& r.1 matches AsyncStep::Done(result)
                    &&& into_buffer(w.queue()[0], ((*buf)@, (*final(buf))@), result)
                    &&& oldest_taken(w, (*line, *final(line)), (*final(s))@)
                }
                &&& !(cut_off(event) is None && there) ==> {
                    &&& !(r.1 matches AsyncStep::Done(Ok(n)))
                    &&& (*final(s))@ == w.receiver
                    &&& *final(line) == *line
                    &&& (*final(buf))@ == (*buf)@
                }
                &&& cut_off(event) is None && !there && usable(view.status) <==> r.1 is Act
                &&& cut_off(event) is None && !there && !usable(view.status) ==> r.1 is Done
                    && r.1->Done_0 is Err && Some(r.1->Done_0->Err_0) == view.status.terminal()
                &&& cut_off(event) matches Some(e) ==> r.1 == AsyncStep::<usize>::Done(Err(e))
                &&& r.1 matches AsyncStep::Act(on, action) ==> on == RingLine::Writer && (
                    r.0,
                    action,
                ) == op.unsuccessful(spins, event)
            },
{
    lemma_look_finds(w, view);
    assert forall|
        s: &mut RingReceiver,
        line: &mut ReadCursorLine,
        data: &[u8],
        buf: &mut [u8],
        r: (AsyncOp, AsyncStep<usize>),
    |
        (*s)@ == w.receiver && data@ == w.data && (*buf)@.len() <= usize::MAX && cut_off(event)
            is None && message_there(w, view, !usable(view.status)) && #[trigger] call_ensures(
            recv_into_async,
            (s, spins, op, event, &view, line, data, buf),
            r,
        ) implies oldest_taken(w, (*line, *final(line)), (*final(s))@) && into_buffer(
        w.queue()[0],
        ((*buf)@, (*final(buf))@),
        r.1->Done_0,
    ) by {
        lemma_found_is_taken(w, view, (*line, *final(line)), (*final(s))@);
        lemma_into_buffer(w, ((*buf)@, (*final(buf))@), r.1->Done_0);
    }
}

/// Receiving several messages in a task: as long as the batch is not full, every step that finds
/// a message takes the oldest one and puts it at the end of the batch, and no other step does. A
/// batch is handed over when it is full, when a round of looks has found no more, and when the
/// channel has ended; a task that has none waits, or reports the end. So a batch that was asked
/// for is never empty, and it counts what was put in it.
pub proof fn law_batch_takes_what_is_there(
    w: RingWorld,
    view: RecvView,
    spins: u32,
    max: usize,
    many: ManyOp,
    event: AsyncEvent,
)
    requires
        w.in_step(),
        w.read_cursor <= view.write_cursor <= w.write_cursor,
        w.read_cursor <= view.write_cursor_again <= w.write_cursor,
        many.op.answers(event),
    ensures
        forall|
            s: &mut RingReceiver,
            line: &mut ReadCursorLine,
            data: &[u8],
            out: &mut Vec<Vec<u8>>,
        |
            (*s)@ == w.receiver && data@ == w.data ==> #[trigger] call_requires(
                recv_many_async,
                (s, spins, max, many, event, &view, line, data, out),
            ),
        forall|
            s: &mut RingReceiver,
            line: &mut ReadCursorLine,
            data: &[u8],
            out: &mut Vec<Vec<u8>>,
            r: (ManyOp, AsyncStep<usize>),
        |
            (*s)@ == w.receiver && data@ == w.data && #[trigger] call_ensures(
                recv_many_async,
                (s, spins, max, many, event, &view, line, data, out),
                r,
            ) ==> {
                let there = message_there(w, view, !usable(view.status));
                let full = many.collected >= max;
                let takes = !full && cut_off(event) is None && there;
                let before = (*out)@;
                let after = (*final(out))@;
                // What becomes of the messages.
                &&& if takes {
                    &&& after.len() == before.len() + 1
                    &&& after[before.len() as int]@ == w.queue()[0]
                    &&& oldest_taken(w, (*line, *final(line)), (*final(s))@)
                } else {
                    &&& after.len() == before.len()
                    &&& (*final(s))@ == w.receiver
                    &&& *final(line) == *line
                }
                &&& forall|i: int|
                    0 <= i < before.len() ==> (#[trigger] after[i])@ == before[i]@
                // What is answered.
                &&& full ==> r.1 == AsyncStep::<usize>::Done(Ok(many.collected))
                &&& takes ==> if many.collected + 1 == max {
                    r.1 == AsyncStep::<usize>::Done(Ok(max))
                } else {
                    &&& r.1 == AsyncStep::<usize>::Act(RingLine::Writer, AsyncAction::Look)
                    &&& r.0.collected == many.collected + 1
                    &&& r.0.op == (AsyncOp::Looking { left: spins, observed: None })
                }
                &&& !full && !takes && cut_off(event) is None && usable(view.status) ==> {
                    let (next, action) = many.op.unsuccessful(spins, event);
                    if many.collected > 0 && action !is SpinLoop {
                        r.1 == AsyncStep::<usize>::Done(Ok(many.collected))
                    } else {
                        &&& r.1 == AsyncStep::<usize>::Act(RingLine::Writer, action)
                        &&& r.0 == (ManyOp { op: next, collected: many.collected })
                    }
                }
                &&& !full && !takes && cut_off(event) is None && !usable(view.status) ==> if
                    many.collected > 0 {
                    r.1 == AsyncStep::<usize>::Done(Ok(many.collected))
                } else {
                    &&& r.1 is Done
                    &&& r.1->Done_0 is Err
                    &&& Some(r.1->Done_0->Err_0) == view.status.terminal()
                }
                &&& !full && cut_off(event) is Some ==> r.1 is Done
                &&& !full && many.collected == 0 ==> (cut_off(event) matches Some(e) ==> r.1
                    == AsyncStep::<usize>::Done(Err(e)))
                // A batch counts what was put in it, and is not empty.
                &&& r.1 matches AsyncStep::Done(Ok(n)) ==> {
                    &&& n == many.collected + (after.len() - before.len())
                    &&& max > 0 ==> n > 0
                }
                &&& r.1 is Act ==> r.0.collected == many.collected + (after.len() - before.len())
            },
{
    lemma_look_finds(w, view);
    assert forall|
        s: &mut RingReceiver,
        line: &mut ReadCursorLine,
        data: &[u8],
        out: &mut Vec<Vec<u8>>,
        r: (ManyOp, AsyncStep<usize>),
    |
        (*s)@ == w.receiver && data@ == w.data && #[trigger] call_ensures(
            recv_many_async,
            (s, spins, max, many, event, &view, line, data, out),
            r,
        ) implies {
        let takes = many.collected < max && cut_off(event) is None && message_there(
            w,
            view,
            !usable(view.status),
        );
        let before = (*out)@;
        let after = (*final(out))@;
        &&& takes ==> oldest_taken(w, (*line, *final(line)), (*final(s))@)
        &&& after.len() == before.len() + (if takes {
            1int
        } else {
            0
        })
        &&& takes ==> after[before.len() as int]@ == w.queue()[0]
        &&& forall|i: int| 0 <= i < before.len() ==> (#[trigger] after[i])@ == before[i]@
    } by {
        let takes = many.collected < max && cut_off(event) is None && message_there(
            w,
            view,
            !usable(view.status),
        );
        let before = (*out)@;
        let after = (*final(out))@;
        if takes {
            lemma_found_is_taken(w, view, (*line, *final(line)), (*final(s))@);
            let expected = crate::tokio::payloads(before).push(w.queue()[0]);
            assert(crate::tokio::payloads(after) == expected);
            assert(crate::tokio::payloads(after).len() == after.len());
            let last = before.len() as int;
            assert(crate::tokio::payloads(after)[last] == after[last]@);
        } else {
            assert(crate::tokio::payloads(after) == crate::tokio::payloads(before));
            assert(crate::tokio::payloads(after).len() == after.len());
        }
        assert forall|i: int| 0 <= i < before.len() implies (#[trigger] after[i])@
            == before[i]@ by {
            assert(crate::tokio::payloads(after)[i] == after[i]@);
            assert(crate::tokio::payloads(before)[i] == before[i]@);
        }
    }
}

/// An operation after `looks` looks in a row that found nothing.
pub open spec fn looked_in_vain(op: AsyncOp, spins: u32, looks: nat) -> AsyncOp
    decreases looks,
{
    if looks == 0 {
        op
    } else {
        looked_in_vain(op, spins, (looks - 1) as nat).unsuccessful(spins, AsyncEvent::Proceed).0
    }
}

proof fn lemma_looks_in_a_row(left: u32, observed: Option<u32>, spins: u32, looks: nat)
    requires
        looks <= left,
    ensures
        looked_in_vain(AsyncOp::Looking { left, observed }, spins, looks) == (AsyncOp::Looking {
            left: (left - looks) as u32,
            observed,
        }),
    decreases looks,
{
    if looks > 0 {
        lemma_looks_in_a_row(left, observed, spins, (looks - 1) as nat);
    }
}

/// A task that finds nothing looks once, and `spins` times more with a hint to the processor in
/// between; then it notes the word, looks as often again, and only then waits, for the very word
/// that it has noted to change. Woken, it begins anew. So no task waits without a look after the
/// note, and none goes on looking for ever.
pub proof fn law_task_looks_again_before_it_waits(spins: u32, word: u32, looks: nat)
    requires
        looks < spins,
    ensures
        ({
            let start = AsyncOp::Looking { left: spins, observed: None };
            let noted = AsyncEvent::Noted(Ok(word));
            let changed = AsyncEvent::Changed(Ok(()));
            let first = AsyncOp::Noting.unsuccessful(spins, noted);
            let second = looked_in_vain(start, spins, spins as nat);
            let third = looked_in_vain(first.0, spins, (spins - 1) as nat);
            &&& looked_in_vain(start, spins, looks).unsuccessful(spins, AsyncEvent::Proceed).1
                is SpinLoop
            &&& second.unsuccessful(spins, AsyncEvent::Proceed) == (
                AsyncOp::Noting,
                AsyncAction::Note,
            )
            &&& first.1 is SpinLoop
            &&& looks + 1 < spins ==> looked_in_vain(first.0, spins, looks).unsuccessful(
                spins,
                AsyncEvent::Proceed,
            ).1 is SpinLoop
            &&& third.unsuccessful(spins, AsyncEvent::Proceed) == (
                AsyncOp::Waiting,
                AsyncAction::WaitChanged { observed: word },
            )
            &&& AsyncOp::Waiting.unsuccessful(spins, changed) == start.unsuccessful(
                spins,
                AsyncEvent::Proceed,
            )
        }),
{
    lemma_looks_in_a_row(spins, None, spins, looks);
    lemma_looks_in_a_row(spins, None, spins, spins as nat);
    lemma_looks_in_a_row((spins - 1) as u32, Some(word), spins, (spins - 1) as nat);
    if looks + 1 < spins {
        lemma_looks_in_a_row((spins - 1) as u32, Some(word), spins, looks);
    }
}

/// The same of a task that is not to spin: it looks once, notes the word, looks once more and
/// waits.
pub proof fn law_task_that_does_not_spin_looks_again_too(word: u32)
    ensures
        (AsyncOp::Looking { left: 0, observed: None }).unsuccessful(0, AsyncEvent::Proceed) == (
            AsyncOp::Noting,
            AsyncAction::Note,
        ),
        AsyncOp::Noting.unsuccessful(0, AsyncEvent::Noted(Ok(word))) == (
            AsyncOp::Waiting,
            AsyncAction::WaitChanged { observed: word },
        ),
        AsyncOp::Waiting.unsuccessful(0, AsyncEvent::Changed(Ok(()))) == (
            AsyncOp::Noting,
            AsyncAction::Note,
        ),
{
}

/// A task is never at a loss: it begins with a look, and whatever an action has brought is what
/// the next step takes.
pub proof fn law_task_takes_what_its_action_brings(
    spins: u32,
    op: AsyncOp,
    event: AsyncEvent,
    noted: Result<u32, Error>,
    changed: Result<(), Error>,
    fresh: AsyncOp,
    many: ManyOp,
)
    requires
        op.answers(event),
        cut_off(event) is None,
        call_ensures(AsyncOp::new, (spins,), fresh),
        call_ensures(ManyOp::new, (spins,), many),
    ensures
        fresh == (AsyncOp::Looking { left: spins, observed: None }),
        fresh.answers(AsyncEvent::Proceed),
        many.op == fresh,
        many.collected == 0,
        ({
            let (next, action) = op.unsuccessful(spins, event);
            match action {
                AsyncAction::Look | AsyncAction::SpinLoop => next.answers(AsyncEvent::Proceed),
                AsyncAction::Note => next.answers(AsyncEvent::Noted(noted)),
                AsyncAction::WaitChanged { .. } => next.answers(AsyncEvent::Changed(changed)),
            }
        }),
{
}

/// What a reader drains of a ring in step, whose writer it has seen at `cursor`.
#[verifier::spinoff_prover]
proof fn lemma_drained(w: RingWorld, line: ReadCursorLine, cursor: int, max: nat)
    requires
        w.in_step(),
        w.read_cursor <= cursor <= w.write_cursor,
    ensures
        ({
            let d = drained(w.receiver, line, cursor, w.data, max);
            let n = d.taken.len();
            &&& d.end is Ok
            &&& n <= max
            &&& n <= w.queue().len()
            &&& d.taken == w.queue().take(n as int)
            &&& n < max && n < w.queue().len() ==> cursor - d.receiver.rc < 8
                + w.queue()[n as int].len()
            &&& RingWorld {
                receiver: d.receiver,
                read_cursor: d.receiver.rc,
                received: w.received + d.taken,
                ..w
            }.in_step()
        }),
    decreases max,
{
    law_peek_finds_the_oldest(w, cursor);
    let d = drained(w.receiver, line, cursor, w.data, max);
    if max > 0 && w.queue().len() > 0 && cursor - w.read_cursor >= 8 + w.queue()[0].len() {
        let message = PeekedMessage {
            read_cursor: w.read_cursor as u64,
            payload_len: w.queue()[0].len() as usize,
            seq: w.receiver.expected_seq,
        };
        let next = RingWorld {
            read_cursor: message.end(),
            receiver: w.receiver.past(message),
            received: w.received.push(payload_of(message, w.data)),
            ..w
        };
        assert(w.receives(next, cursor));
        law_receive_takes_the_oldest(w, next, cursor);
        lemma_drained(next, consumed(line, message), cursor, (max - 1) as nat);
        let rest = drained(
            next.receiver,
            consumed(line, message),
            cursor,
            w.data,
            (max - 1) as nat,
        );
        let n = d.taken.len();
        assert(d.taken == seq![w.queue()[0]] + rest.taken);
        assert(w.queue().take(n as int) =~= seq![w.queue()[0]] + w.queue().drop_first().take(
            n - 1,
        ));
        assert(w.received + d.taken =~= next.received + rest.taken);
        assert(n < w.queue().len() ==> w.queue()[n as int] == next.queue()[n - 1]);
    } else {
        assert(d.taken =~= Seq::<Seq<u8>>::empty());
        assert(d.receiver == w.receiver);
        assert(w.received + d.taken =~= w.received);
        assert(w.queue().take(0) =~= Seq::<Seq<u8>>::empty());
    }
}

/// How the line tells of what was drained.
#[verifier::spinoff_prover]
proof fn lemma_drained_line(
    v: ReceiverView,
    line: ReadCursorLine,
    wc: int,
    data: Seq<u8>,
    max: nat,
)
    requires
        v.may_look(wc, data.len() as int),
    ensures
        ({
            let d = drained(v, line, wc, data, max);
            let n = d.taken.len();
            &&& d.line.parked == line.parked
            &&& d.line.notify == (line.notify + n) % 0x1_0000_0000
            &&& d.line.read_cursor == (if n > 0 {
                d.receiver.rc
            } else {
                line.read_cursor as int
            })
        }),
    decreases max,
{
    if max > 0 {
        if let Ok(TryPeekResult::Ready(message)) = peek_result(v, wc, data) {
            let next = v.past(message);
            assert(next.may_look(wc, data.len() as int));
            let first = consumed(line, message);
            lemma_drained_line(next, first, wc, data, (max - 1) as nat);
            let n = drained(next, first, wc, data, (max - 1) as nat).taken.len();
            assert(first.notify == (line.notify + 1) % 0x1_0000_0000);
            assert((first.notify + n) % 0x1_0000_0000 == (line.notify + (n + 1)) % 0x1_0000_0000);
        }
    }
}

/// Draining takes the queue from the front, in order, and stops only at `max` messages or at one
/// whose record is not shown yet; the whole queue where all of it is. It answers how many it has
/// taken and appends them to what was there, and the line tells of them.
pub proof fn law_drain_takes_all_that_is_shown(w: RingWorld, cursor: u64, max: usize)
    requires
        w.in_step(),
        w.read_cursor <= cursor <= w.write_cursor,
    ensures
        forall|
            s: &mut RingReceiver,
            line: &mut ReadCursorLine,
            data: &[u8],
            out: &mut Vec<Vec<u8>>,
        |
            (*s)@ == w.receiver && data@ == w.data ==> #[trigger] call_requires(
                drain_ready,
                (s, cursor, line, data, out, max),
            ),
        forall|
            s: &mut RingReceiver,
            line: &mut ReadCursorLine,
            data: &[u8],
            out: &mut Vec<Vec<u8>>,
            r: Result<usize, Error>,
        |
            (*s)@ == w.receiver && data@ == w.data && #[trigger] call_ensures(
                drain_ready,
                (s, cursor, line, data, out, max),
                r,
            ) ==> {
                let before = (*out)@;
                let after = (*final(out))@;
                let n = after.len() - before.len();
                let reader = (*final(s))@;
                &&& r matches Ok(count) && count == n
                &&& 0 <= n <= max
                &&& n <= w.queue().len()
                &&& cursor == w.write_cursor ==> n == max || n == w.queue().len()
                &&& n < max && n < w.queue().len() ==> cursor - reader.rc < 8 + w.queue()[n].len()
                &&& forall|i: int| 0 <= i < before.len() ==> (#[trigger] after[i])@ == before[i]@
                &&& forall|i: int|
                    before.len() <= i < after.len() ==> (#[trigger] after[i])@ == w.queue()[i
                        - before.len()]
                &&& RingWorld {
                    receiver: reader,
                    read_cursor: reader.rc,
                    received: w.received + w.queue().take(n),
                    ..w
                }.in_step()
                &&& final(line).parked == line.parked
                &&& final(line).notify == (line.notify + n) % 0x1_0000_0000
                &&& final(line).read_cursor == (if n > 0 {
                    reader.rc
                } else {
                    line.read_cursor as int
                })
            },
{
    assert forall|
        s: &mut RingReceiver,
        line: &mut ReadCursorLine,
        data: &[u8],
        out: &mut Vec<Vec<u8>>,
        r: Result<usize, Error>,
    |
        (*s)@ == w.receiver && data@ == w.data && #[trigger] call_ensures(
            drain_ready,
            (s, cursor, line, data, out, max),
            r,
        ) implies {
        let before = (*out)@;
        let after = (*final(out))@;
        let n = after.len() - before.len();
        let reader = (*final(s))@;
        &&& r matches Ok(count) && count == n
        &&& 0 <= n <= max
        &&& n <= w.queue().len()
        &&& cursor == w.write_cursor ==> n == max || n == w.queue().len()
        &&& n < max && n < w.queue().len() ==> cursor - reader.rc < 8 + w.queue()[n].len()
        &&& forall|i: int| 0 <= i < before.len() ==> (#[trigger] after[i])@ == before[i]@
        &&& forall|i: int|
            before.len() <= i < after.len() ==> (#[trigger] after[i])@ == w.queue()[i
                - before.len()]
        &&& RingWorld {
            receiver: reader,
            read_cursor: reader.rc,
            received: w.received + w.queue().take(n),
            ..w
        }.in_step()
        &&& final(line).parked == line.parked
        &&& final(line).notify == (line.notify + n) % 0x1_0000_0000
        &&& final(line).read_cursor == (if n > 0 {
            reader.rc
        } else {
            line.read_cursor as int
        })
    } by {
        lemma_drained(w, *line, cursor as int, max as nat);
        lemma_drained_line(w.receiver, *line, cursor as int, w.data, max as nat);
        if cursor == w.write_cursor {
            law_drain_takes_the_queue_in_order(w, *line, max as nat);
        }
        let d = drained(w.receiver, *line, cursor as int, w.data, max as nat);
        let before = (*out)@;
        let after = (*final(out))@;
        let told = crate::tokio::payloads(after);
        assert(told == crate::tokio::payloads(before) + d.taken);
        assert(told.len() == after.len());
        assert forall|i: int| 0 <= i < before.len() implies (#[trigger] after[i])@
            == before[i]@ by {
            assert(told[i] == after[i]@);
            assert(crate::tokio::payloads(before)[i] == before[i]@);
        }
        assert forall|i: int| before.len() <= i < after.len() implies (#[trigger] after[i])@
            == w.queue()[i - before.len()] by {
            assert(told[i] == after[i]@);
        }
    }
}

/// Draining goes on as long as it takes anything and there is room in the batch, and counts all
/// that was taken; an error ends it.
pub proof fn law_draining_goes_on(
    total: usize,
    last: Result<usize, Error>,
    max: usize,
    r: DrainStep,
)
    requires
        total <= max,
        last matches Ok(n) ==> n <= max - total,
        call_ensures(drain_on, (total, last, max), r),
    ensures
        call_requires(drain_on, (total, last, max)),
        last matches Err(e) ==> (r matches DrainStep::Done(Err(told)) && told == e),
        last matches Ok(n) ==> {
            &&& 0 < n < max - total <==> r is Again
            &&& r matches DrainStep::Again { total: now } ==> now == total + n
            &&& r matches DrainStep::Done(result) ==> (result matches Ok(all) && all == total + n)
        },
{
}

/// An operation with a time limit comes to its own result, if it came to one in time, and else to
/// `TimedOut`; a writer looks as often as it is told, but never more than 32 times in a row.
pub proof fn law_time_limit_of_a_task(
    outcome: Option<Result<usize, Error>>,
    r: Result<usize, Error>,
    spin_count: u32,
    spins: u32,
)
    requires
        call_ensures(map_timeout::<usize>, (outcome,), r),
        call_ensures(send_spin_count, (spin_count,), spins),
    ensures
        outcome matches Some(result) ==> r == result,
        outcome is None ==> r == Err::<usize, Error>(Error::TimedOut),
        spins <= spin_count,
        spins <= 32,
        spins == spin_count || spins == 32,
{
}

/// What cannot be a message in its turn is reported to a task too, and is not taken. A batch
/// reports it as well, also where it has messages already: those are in the caller's hands.
pub proof fn law_task_is_told_what_is_no_message(
    spins: u32,
    max: usize,
    many: ManyOp,
    event: AsyncEvent,
    view: RecvView,
    data: &[u8],
    v: ReceiverView,
    e: Error,
)
    requires
        v.valid(),
        v.size == data@.len(),
        v.size >= 8,
        v.rc <= view.write_cursor,
        many.op.answers(event),
        cut_off(event) is None,
        many.collected < max,
        refused(v, data@, view.write_cursor) == Some(e),
    ensures
        forall|
            s: &mut RingReceiver,
            line: &mut ReadCursorLine,
            r: (AsyncOp, AsyncStep<Vec<u8>>),
        |
            (*s)@ == v && #[trigger] call_ensures(
                recv_async,
                (s, spins, many.op, event, &view, line, data),
                r,
            ) ==> r.1 == AsyncStep::<Vec<u8>>::Done(Err(e)) && (*final(s))@ == v && *final(line)
                == *line,
        forall|
            s: &mut RingReceiver,
            line: &mut ReadCursorLine,
            buf: &mut [u8],
            r: (AsyncOp, AsyncStep<usize>),
        |
            (*s)@ == v && #[trigger] call_ensures(
                recv_into_async,
                (s, spins, many.op, event, &view, line, data, buf),
                r,
            ) ==> r.1 == AsyncStep::<usize>::Done(Err(e)) && (*final(s))@ == v && *final(line)
                == *line,
        forall|
            s: &mut RingReceiver,
            line: &mut ReadCursorLine,
            out: &mut Vec<Vec<u8>>,
            r: (ManyOp, AsyncStep<usize>),
        |
            (*s)@ == v && #[trigger] call_ensures(
                recv_many_async,
                (s, spins, max, many, event, &view, line, data, out),
                r,
            ) ==> r.1 == AsyncStep::<usize>::Done(Err(e)) && (*final(s))@ == v && *final(line)
                == *line,
        forall|
            s: &mut RingReceiver,
            line: &mut ReadCursorLine,
            out: &mut Vec<Vec<u8>>,
            r: Result<usize, Error>,
        |
            (*s)@ == v && #[trigger] call_ensures(
                drain_ready,
                (s, view.write_cursor, line, data, out, max),
                r,
            ) ==> r == Err::<usize, Error>(e) && (*final(s))@ == v && *final(line) == *line,
{
    lemma_peek_in_numbers(v, view.write_cursor as int, data@);
}

} // verus!
