//! Sending and receiving in tasks.
//!
//! An operation is a machine, as a blocking one is, but it never sleeps in the kernel: it
//! looks a few times, takes note of the notification word, looks again, and then has the
//! task wait until the word has changed. Whatever task is dropped meanwhile, nothing was
//! published or taken that its caller has not heard of.

pub mod bridge;
pub mod handoff;
pub mod laws;
pub mod listener;
pub mod promises;

use vstd::prelude::*;

use crate::channel::{look_for_file, ChannelConfig};
#[allow(unused_imports)]
use crate::channel::file_look;
use crate::error::{Error, Result};
#[allow(unused_imports)]
use crate::header::file_size;
use crate::header::{ReadCursorLine, RingLine, WriteCursorLine};
use crate::ring::{
    PeekedMessage, RecvView, RingReceiver, RingSender, SendView, TryPeekResult, TrySendResult,
};
#[allow(unused_imports)]
use crate::ring::{
    consumed, into_result, message_sent, message_taken, payload_of, peek_or_closed_result,
    peek_result, send_result, take_result, ReceiverView, SenderView,
};
use crate::wait::RetryStep;

verus! {

/// How often a writer looks for room at a time, at most.
pub const MAX_SEND_SPINS: u32 = 32;

/// Where an operation of a task stands.
#[derive(Debug, Clone, Copy, PartialEq, Eq, Structural)]
pub enum AsyncOp {
    /// Looking, `left` more times after this one. What the notification word was before
    /// the first of these looks, if that was noted.
    Looking { left: u32, observed: Option<u32> },
    /// The notification word is being noted.
    Noting,
    /// The task waits for the word to change.
    Waiting,
}

/// What the last action of an operation brought.
#[derive(Debug, Clone, Copy)]
pub enum AsyncEvent {
    /// The action was performed. Also starts an operation.
    Proceed,
    /// The notification word, or why it cannot be waited on.
    Noted(Result<u32>),
    /// The word has changed, or why that will not be heard of.
    Changed(Result<()>),
}

/// What the caller is to do next. Then it loads shared memory afresh and steps again.
#[derive(Debug, Clone, Copy, PartialEq, Eq, Structural)]
pub enum AsyncAction {
    /// Nothing.
    Look,
    /// Give the processor a spin-loop hint.
    SpinLoop,
    /// Load the notification word.
    Note,
    /// Have the task wait until the notification word is not `observed` any more.
    WaitChanged { observed: u32 },
}

/// What a step of an operation answers.
#[derive(Debug)]
pub enum AsyncStep<T> {
    /// The action to perform before the next step. The notification word that it speaks of is
    /// that of this line of the ring.
    Act(RingLine, AsyncAction),
    /// The operation is over.
    Done(Result<T>),
}

impl AsyncOp {
    /// An operation that has not taken a step yet.
    pub open spec fn start(spins: u32) -> AsyncOp {
        AsyncOp::Looking { left: spins, observed: None }
    }

    /// Whether `event` answers the last action.
    pub open spec fn answers(self, event: AsyncEvent) -> bool {
        match self {
            AsyncOp::Looking { .. } => event is Proceed,
            AsyncOp::Noting => event is Noted,
            AsyncOp::Waiting => event is Changed,
        }
    }

    /// Why the operation ends before it looks.
    pub open spec fn broken(event: AsyncEvent) -> Option<Error> {
        match event {
            AsyncEvent::Noted(Err(e)) => Some(e),
            AsyncEvent::Changed(Err(e)) => Some(e),
            _ => None,
        }
    }

    /// What look this is: one in a row, the first after the word was noted, or the first
    /// after it has changed.
    pub open spec fn look(self, spins: u32, event: AsyncEvent) -> (u32, Option<u32>) {
        match (self, event) {
            (AsyncOp::Looking { left, observed }, _) => (left, observed),
            (_, AsyncEvent::Noted(Ok(observed))) => (spins, Some(observed)),
            _ => (spins, None),
        }
    }

    /// What follows a look that found nothing.
    pub open spec fn unsuccessful(self, spins: u32, event: AsyncEvent) -> (AsyncOp, AsyncAction) {
        let (left, observed) = self.look(spins, event);
        if left > 0 {
            (AsyncOp::Looking { left: (left - 1) as u32, observed }, AsyncAction::SpinLoop)
        } else {
            match observed {
                None => (AsyncOp::Noting, AsyncAction::Note),
                Some(observed) => (AsyncOp::Waiting, AsyncAction::WaitChanged { observed }),
            }
        }
    }

    /// An operation that has not taken a step yet.
    pub fn new(spins: u32) -> (r: AsyncOp)
        ensures
            r == AsyncOp::start(spins),
    {
        AsyncOp::Looking { left: spins, observed: None }
    }

    /// Why the operation ends before it looks.
    fn check(event: AsyncEvent) -> (r: Option<Error>)
        ensures
            r == AsyncOp::broken(event),
    {
        match event {
            AsyncEvent::Noted(Err(e)) => Some(e),
            AsyncEvent::Changed(Err(e)) => Some(e),
            _ => None,
        }
    }

    /// What follows a look that found nothing.
    fn go_on(self, spins: u32, event: AsyncEvent) -> (r: (AsyncOp, AsyncAction))
        ensures
            r == self.unsuccessful(spins, event),
    {
        let (left, observed) = match (self, event) {
            (AsyncOp::Looking { left, observed }, _) => (left, observed),
            (_, AsyncEvent::Noted(Ok(observed))) => (spins, Some(observed)),
            _ => (spins, None),
        };
        if left > 0 {
            (AsyncOp::Looking { left: left - 1, observed }, AsyncAction::SpinLoop)
        } else {
            match observed {
                None => (AsyncOp::Noting, AsyncAction::Note),
                Some(observed) => (AsyncOp::Waiting, AsyncAction::WaitChanged { observed }),
            }
        }
    }
}

/// How often a writer looks for room at a time.
pub fn send_spin_count(spin_count: u32) -> (r: u32)
    ensures
        r == (if spin_count <= MAX_SEND_SPINS {
            spin_count
        } else {
            MAX_SEND_SPINS
        }),
{
    if spin_count <= MAX_SEND_SPINS {
        spin_count
    } else {
        MAX_SEND_SPINS
    }
}

/// What a step of sending in a task answers and changes.
pub open spec fn async_send_stepped(
    spins: u32,
    op: AsyncOp,
    event: AsyncEvent,
    view: SendView,
    payload: Seq<u8>,
    r: (AsyncOp, AsyncStep<()>),
    before: (SenderView, WriteCursorLine, Seq<u8>),
    after: (SenderView, WriteCursorLine, Seq<u8>),
) -> bool {
    let len = payload.len() as int;
    match AsyncOp::broken(event) {
        Some(e) => r.1 == AsyncStep::<()>::Done(Err(e)) && after == before,
        None => match send_result(before.0, view, len) {
            Err(e) => r.1 == AsyncStep::<()>::Done(Err(e)) && after == before,
            Ok(TrySendResult::Sent) => {
                &&& r.1 == AsyncStep::<()>::Done(Ok(()))
                &&& message_sent(
                    before.0.looked(view.read_cursor as int, len),
                    after.0,
                    before.1,
                    after.1,
                    before.2,
                    after.2,
                    payload,
                )
            },
            Ok(TrySendResult::Full) => {
                let (next, action) = op.unsuccessful(spins, event);
                &&& r == (next, AsyncStep::<()>::Act(RingLine::Reader, action))
                &&& after == (before.0.looked(view.read_cursor as int, len), before.1, before.2)
            },
        },
    }
}

/// One step of sending a message in a task.
pub fn send_async(
    sender: &mut RingSender,
    spins: u32,
    op: AsyncOp,
    event: AsyncEvent,
    view: &SendView,
    line: &mut WriteCursorLine,
    data: &mut [u8],
    payload: &[u8],
) -> (r: (AsyncOp, AsyncStep<()>))
    requires
        old(sender)@.may_try(*view, old(data)@.len() as int, payload@.len() as int),
        op.answers(event),
    ensures
        final(sender)@.valid(),
        async_send_stepped(
            spins,
            op,
            event,
            *view,
            payload@,
            r,
            (old(sender)@, *old(line), old(data)@),
            (final(sender)@, *final(line), final(data)@),
        ),
{
    match AsyncOp::check(event) {
        Some(e) => {
            return (op, AsyncStep::Done(Err(e)));
        },
        None => {},
    }
    match sender.try_send_once(view, line, data, payload) {
        Err(e) => (op, AsyncStep::Done(Err(e))),
        Ok(TrySendResult::Sent) => (op, AsyncStep::Done(Ok(()))),
        Ok(TrySendResult::Full) => {
            let (next, action) = op.go_on(spins, event);
            (next, AsyncStep::Act(RingLine::Reader, action))
        },
    }
}

/// What a step of receiving in a task finds.
pub open spec fn async_message_step(
    spins: u32,
    op: AsyncOp,
    event: AsyncEvent,
    v: ReceiverView,
    view: RecvView,
    data: Seq<u8>,
) -> (AsyncOp, AsyncStep<PeekedMessage>) {
    match AsyncOp::broken(event) {
        Some(e) => (op, AsyncStep::Done(Err(e))),
        None => match peek_or_closed_result(v, view, data) {
            Err(e) => (op, AsyncStep::Done(Err(e))),
            Ok(Some(message)) => (op, AsyncStep::Done(Ok(message))),
            Ok(None) => {
                let (next, action) = op.unsuccessful(spins, event);
                (next, AsyncStep::Act(RingLine::Writer, action))
            },
        },
    }
}

/// The look inside receiving in a task.
fn spin_peek_or_closed(
    receiver: &RingReceiver,
    spins: u32,
    op: AsyncOp,
    event: AsyncEvent,
    view: &RecvView,
    data: &[u8],
) -> (r: (AsyncOp, AsyncStep<PeekedMessage>))
    requires
        receiver@.ready(*view, data@.len() as int),
        op.answers(event),
    ensures
        r == async_message_step(spins, op, event, receiver@, *view, data@),
        r.1 matches AsyncStep::Done(Ok(message)) ==> receiver@.found(message),
{
    match AsyncOp::check(event) {
        Some(e) => {
            return (op, AsyncStep::Done(Err(e)));
        },
        None => {},
    }
    match receiver.try_peek_or_closed(view, data) {
        Err(e) => (op, AsyncStep::Done(Err(e))),
        Ok(Some(message)) => (op, AsyncStep::Done(Ok(message))),
        Ok(None) => {
            let (next, action) = op.go_on(spins, event);
            (next, AsyncStep::Act(RingLine::Writer, action))
        },
    }
}

/// What a step of receiving a message in a task answers and changes.
pub open spec fn async_recv_stepped(
    spins: u32,
    op: AsyncOp,
    event: AsyncEvent,
    view: RecvView,
    data: Seq<u8>,
    r: (AsyncOp, AsyncStep<Vec<u8>>),
    before: (ReceiverView, ReadCursorLine),
    after: (ReceiverView, ReadCursorLine),
) -> bool {
    let (next, step) = async_message_step(spins, op, event, before.0, view, data);
    &&& r.0 == next
    &&& match step {
        AsyncStep::Act(on, action) => r.1 == AsyncStep::<Vec<u8>>::Act(on, action) && after
            == before,
        AsyncStep::Done(Err(e)) => r.1 == AsyncStep::<Vec<u8>>::Done(Err(e)) && after == before,
        AsyncStep::Done(Ok(message)) => {
            &&& match take_result(before.0, message) {
                Err(e) => r.1 == AsyncStep::<Vec<u8>>::Done(Err(e)),
                Ok(()) => r.1 matches AsyncStep::Done(Ok(buf)) && buf@ == payload_of(message, data),
            }
            &&& message_taken(before.0, after.0, before.1, after.1, message)
        },
    }
}

/// One step of receiving a message in a task.
pub fn recv_async(
    receiver: &mut RingReceiver,
    spins: u32,
    op: AsyncOp,
    event: AsyncEvent,
    view: &RecvView,
    line: &mut ReadCursorLine,
    data: &[u8],
) -> (r: (AsyncOp, AsyncStep<Vec<u8>>))
    requires
        old(receiver)@.ready(*view, data@.len() as int),
        op.answers(event),
    ensures
        final(receiver)@.valid(),
        async_recv_stepped(
            spins,
            op,
            event,
            *view,
            data@,
            r,
            (old(receiver)@, *old(line)),
            (final(receiver)@, *final(line)),
        ),
{
    let (next, step) = spin_peek_or_closed(receiver, spins, op, event, view, data);
    match step {
        AsyncStep::Act(on, action) => (next, AsyncStep::Act(on, action)),
        AsyncStep::Done(Err(e)) => (next, AsyncStep::Done(Err(e))),
        AsyncStep::Done(Ok(message)) => (
            next,
            AsyncStep::Done(receiver.commit_message_to_vec(message, line, data)),
        ),
    }
}

/// What a step of receiving a message into a buffer in a task answers and changes.
pub open spec fn async_recv_into_stepped(
    spins: u32,
    op: AsyncOp,
    event: AsyncEvent,
    view: RecvView,
    data: Seq<u8>,
    r: (AsyncOp, AsyncStep<usize>),
    before: (ReceiverView, ReadCursorLine, Seq<u8>),
    after: (ReceiverView, ReadCursorLine, Seq<u8>),
) -> bool {
    let (next, step) = async_message_step(spins, op, event, before.0, view, data);
    &&& r.0 == next
    &&& match step {
        AsyncStep::Act(on, action) => r.1 == AsyncStep::<usize>::Act(on, action) && after == before,
        AsyncStep::Done(Err(e)) => r.1 == AsyncStep::<usize>::Done(Err(e)) && after == before,
        AsyncStep::Done(Ok(message)) => {
            &&& r.1 matches AsyncStep::Done(result)
            &&& into_result(before.0, message, data, before.2, after.2, result)
            &&& message_taken(before.0, after.0, before.1, after.1, message)
        },
    }
}

/// One step of receiving a message into a buffer of the caller's in a task.
pub fn recv_into_async(
    receiver: &mut RingReceiver,
    spins: u32,
    op: AsyncOp,
    event: AsyncEvent,
    view: &RecvView,
    line: &mut ReadCursorLine,
    data: &[u8],
    buf: &mut [u8],
) -> (r: (AsyncOp, AsyncStep<usize>))
    requires
        old(receiver)@.ready(*view, data@.len() as int),
        op.answers(event),
    ensures
        final(receiver)@.valid(),
        async_recv_into_stepped(
            spins,
            op,
            event,
            *view,
            data@,
            r,
            (old(receiver)@, *old(line), old(buf)@),
            (final(receiver)@, *final(line), final(buf)@),
        ),
{
    let (next, step) = spin_peek_or_closed(receiver, spins, op, event, view, data);
    match step {
        AsyncStep::Act(on, action) => (next, AsyncStep::Act(on, action)),
        AsyncStep::Done(Err(e)) => (next, AsyncStep::Done(Err(e))),
        AsyncStep::Done(Ok(message)) => (
            next,
            AsyncStep::Done(receiver.commit_message_into(message, line, data, buf)),
        ),
    }
}

/// Whether an error says that the channel has come to its end.
pub open spec fn ends_the_channel(e: Error) -> bool {
    e is ChannelClosed || e is PeerDisconnected || e is Io
}

/// Receiving several messages at once: where it stands, and how many it has.
#[derive(Debug, Clone, Copy, PartialEq, Eq, Structural)]
pub struct ManyOp {
    pub op: AsyncOp,
    pub collected: usize,
}

impl ManyOp {
    /// Nothing collected yet.
    pub fn new(spins: u32) -> (r: ManyOp)
        ensures
            r == (ManyOp { op: AsyncOp::start(spins), collected: 0 }),
    {
        ManyOp { op: AsyncOp::new(spins), collected: 0 }
    }
}

/// What a step of receiving several messages in a task answers and changes.
///
/// Messages are collected as long as there are any, up to `max`. With at least one
/// collected, finding none and coming to the channel's end both make a batch; the end is
/// then reported when it is met again.
pub open spec fn recv_many_stepped(
    spins: u32,
    max: usize,
    many: ManyOp,
    event: AsyncEvent,
    view: RecvView,
    data: Seq<u8>,
    r: (ManyOp, AsyncStep<usize>),
    before: (ReceiverView, ReadCursorLine, Seq<Seq<u8>>),
    after: (ReceiverView, ReadCursorLine, Seq<Seq<u8>>),
) -> bool {
    let (next, step) = async_message_step(spins, many.op, event, before.0, view, data);
    if many.collected >= max {
        r.1 == AsyncStep::<usize>::Done(Ok(many.collected)) && after == before
    } else {
        match step {
            AsyncStep::Act(on, action) => {
                &&& if many.collected > 0 && action !is SpinLoop {
                    r.1 == AsyncStep::<usize>::Done(Ok(many.collected))
                } else {
                    r == (
                        ManyOp { op: next, collected: many.collected },
                        AsyncStep::<usize>::Act(on, action),
                    )
                }
                &&& after == before
            },
            AsyncStep::Done(Err(e)) => {
                &&& if many.collected > 0 && ends_the_channel(e) {
                    r.1 == AsyncStep::<usize>::Done(Ok(many.collected))
                } else {
                    r.1 == AsyncStep::<usize>::Done(Err(e))
                }
                &&& after == before
            },
            AsyncStep::Done(Ok(message)) => match take_result(before.0, message) {
                Err(e) => r.1 == AsyncStep::<usize>::Done(Err(e)) && after == before,
                Ok(()) => {
                    &&& after == (
                        before.0.past(message),
                        consumed(before.1, message),
                        before.2.push(payload_of(message, data)),
                    )
                    &&& if many.collected + 1 == max {
                        r.1 == AsyncStep::<usize>::Done(Ok(max))
                    } else {
                        r == (
                            ManyOp {
                                op: AsyncOp::start(spins),
                                collected: (many.collected + 1) as usize,
                            },
                            AsyncStep::<usize>::Act(RingLine::Writer, AsyncAction::Look),
                        )
                    }
                },
            },
        }
    }
}

/// The payloads in a vector of vectors.
pub open spec fn payloads(out: Seq<Vec<u8>>) -> Seq<Seq<u8>> {
    out.map_values(|payload: Vec<u8>| payload@)
}

/// One step of receiving several messages in a task, `max` at most. The messages are
/// appended to `out`.
pub fn recv_many_async(
    receiver: &mut RingReceiver,
    spins: u32,
    max: usize,
    many: ManyOp,
    event: AsyncEvent,
    view: &RecvView,
    line: &mut ReadCursorLine,
    data: &[u8],
    out: &mut Vec<Vec<u8>>,
) -> (r: (ManyOp, AsyncStep<usize>))
    requires
        old(receiver)@.ready(*view, data@.len() as int),
        many.op.answers(event),
    ensures
        final(receiver)@.valid(),
        recv_many_stepped(
            spins,
            max,
            many,
            event,
            *view,
            data@,
            r,
            (old(receiver)@, *old(line), payloads(old(out)@)),
            (final(receiver)@, *final(line), payloads(final(out)@)),
        ),
{
    let collected: usize = many.collected;
    if collected >= max {
        return (many, AsyncStep::Done(Ok(collected)));
    }
    let (next, step) = spin_peek_or_closed(receiver, spins, many.op, event, view, data);
    match step {
        AsyncStep::Act(on, action) => {
            let spinning = match action {
                AsyncAction::SpinLoop => true,
                _ => false,
            };
            if collected > 0 && !spinning {
                (many, AsyncStep::Done(Ok(collected)))
            } else {
                (ManyOp { op: next, collected }, AsyncStep::Act(on, action))
            }
        },
        AsyncStep::Done(Err(e)) => {
            let end = match e {
                Error::ChannelClosed | Error::PeerDisconnected | Error::Io(_) => true,
                _ => false,
            };
            if collected > 0 && end {
                (many, AsyncStep::Done(Ok(collected)))
            } else {
                (many, AsyncStep::Done(Err(e)))
            }
        },
        AsyncStep::Done(Ok(message)) => {
            match receiver.commit_message_to_vec(message, line, data) {
                Err(e) => (many, AsyncStep::Done(Err(e))),
                Ok(buf) => {
                    let ghost before = out@;
                    out.push(buf);
                    proof {
                        assert(payloads(out@) =~= payloads(before).push(buf@));
                    }
                    if collected + 1 == max {
                        (many, AsyncStep::Done(Ok(max)))
                    } else {
                        (
                            ManyOp { op: AsyncOp::new(spins), collected: collected + 1 },
                            AsyncStep::Act(RingLine::Writer, AsyncAction::Look),
                        )
                    }
                },
            }
        },
    }
}

/// What a reader takes that drains a ring: the payloads, and where it and its line then
/// stand.
pub struct Drained {
    pub taken: Seq<Seq<u8>>,
    pub receiver: ReceiverView,
    pub line: ReadCursorLine,
    pub end: Result<()>,
}

/// What a reader takes, `max` messages at most, of what was published up to `wc`.
pub open spec fn drained(
    v: ReceiverView,
    line: ReadCursorLine,
    wc: int,
    data: Seq<u8>,
    max: nat,
) -> Drained
    decreases max,
{
    let nothing = |end: Result<()>| Drained { taken: Seq::empty(), receiver: v, line, end };
    if max == 0 {
        nothing(Ok(()))
    } else {
        match peek_result(v, wc, data) {
            Err(e) => nothing(Err(e)),
            Ok(TryPeekResult::Empty) => nothing(Ok(())),
            Ok(TryPeekResult::Ready(message)) => match take_result(v, message) {
                Err(e) => nothing(Err(e)),
                Ok(()) => {
                    let rest = drained(
                        v.past(message),
                        consumed(line, message),
                        wc,
                        data,
                        (max - 1) as nat,
                    );
                    Drained { taken: seq![payload_of(message, data)] + rest.taken, ..rest }
                },
            },
        }
    }
}

/// No more messages are taken than asked for.
proof fn lemma_drained_len(
    v: ReceiverView,
    line: ReadCursorLine,
    wc: int,
    data: Seq<u8>,
    max: nat,
)
    ensures
        drained(v, line, wc, data, max).taken.len() <= max,
    decreases max,
{
    if max > 0 {
        if let Ok(TryPeekResult::Ready(message)) = peek_result(v, wc, data) {
            lemma_drained_len(
                v.past(message),
                consumed(line, message),
                wc,
                data,
                (max - 1) as nat,
            );
        }
    }
}

/// Takes the messages that were published up to `write_cursor`, `max` at most, and appends
/// them to `out`. Finding none is no error, whatever became of the channel. Where a
/// message cannot be taken, those before it are.
pub fn drain_ready(
    receiver: &mut RingReceiver,
    write_cursor: u64,
    line: &mut ReadCursorLine,
    data: &[u8],
    out: &mut Vec<Vec<u8>>,
    max: usize,
) -> (r: Result<usize>)
    requires
        old(receiver)@.may_look(write_cursor as int, data@.len() as int),
    ensures
        final(receiver)@.valid(),
        ({
            let d = drained(
                old(receiver)@,
                *old(line),
                write_cursor as int,
                data@,
                max as nat,
            );
            &&& payloads(final(out)@) == payloads(old(out)@) + d.taken
            &&& final(receiver)@ == d.receiver
            &&& *final(line) == d.line
            &&& r == match d.end {
                Ok(()) => Ok::<usize, Error>(d.taken.len() as usize),
                Err(e) => Err(e),
            }
            &&& d.taken.len() <= max
        }),
{
    let ghost all = drained(receiver@, *line, write_cursor as int, data@, max as nat);
    let ghost before = payloads(out@);
    let mut count: usize = 0;
    proof {
        lemma_drained_len(receiver@, *line, write_cursor as int, data@, max as nat);
        assert(before + Seq::<Seq<u8>>::empty() =~= before);
        assert(Seq::<Seq<u8>>::empty() + all.taken =~= all.taken);
    }
    let ghost mut taken: Seq<Seq<u8>> = Seq::empty();
    while count < max
        invariant
            count <= max,
            count == taken.len(),
            before == payloads(old(out)@),
            all == drained(
                old(receiver)@,
                *old(line),
                write_cursor as int,
                data@,
                max as nat,
            ),
            receiver@.may_look(write_cursor as int, data@.len() as int),
            payloads(out@) == before + taken,
            ({
                let rest = drained(
                    receiver@,
                    *line,
                    write_cursor as int,
                    data@,
                    (max - count) as nat,
                );
                &&& all.taken == taken + rest.taken
                &&& all.receiver == rest.receiver
                &&& all.line == rest.line
                &&& all.end == rest.end
                &&& rest.taken.len() <= max - count
            }),
        decreases max - count,
    {
        let ghost rest = drained(
            receiver@,
            *line,
            write_cursor as int,
            data@,
            (max - count) as nat,
        );
        match receiver.try_peek_message(write_cursor, data) {
            Err(e) => {
                assert(taken + rest.taken =~= taken);
                return Err(e);
            },
            Ok(TryPeekResult::Empty) => {
                assert(taken + rest.taken =~= taken);
                return Ok(count);
            },
            Ok(TryPeekResult::Ready(message)) => {
                match receiver.commit_message_to_vec(message, line, data) {
                    Err(e) => {
                        assert(taken + rest.taken =~= taken);
                        return Err(e);
                    },
                    Ok(buf) => {
                        let ghost out_before = out@;
                        out.push(buf);
                        count += 1;
                        proof {
                            let after = drained(
                                receiver@,
                                *line,
                                write_cursor as int,
                                data@,
                                (max - count) as nat,
                            );
                            assert(payloads(out@) =~= payloads(out_before).push(buf@));
                            assert(before + taken.push(buf@) =~= (before + taken).push(buf@));
                            assert(taken + rest.taken =~= taken.push(buf@) + after.taken);
                            taken = taken.push(buf@);
                        }
                    },
                }
            },
        }
    }
    proof {
        assert(all.taken =~= taken);
    }
    Ok(count)
}

/// Whether to drain on.
#[derive(Debug, Clone, Copy)]
pub enum DrainStep {
    /// Load the write cursor afresh and drain again, `max - total` messages at most.
    Again { total: usize },
    /// Draining is over.
    Done(Result<usize>),
}

/// What follows a drain that came to `last` after `total` messages were taken: draining goes
/// on until there is nothing to take, until `max` messages are taken, or until one cannot be.
pub fn drain_on(total: usize, last: Result<usize>, max: usize) -> (r: DrainStep)
    requires
        total <= max,
        last matches Ok(n) ==> n <= max - total,
    ensures
        r == match last {
            Err(e) => DrainStep::Done(Err(e)),
            Ok(n) => if n == 0 || total + n == max {
                DrainStep::Done(Ok((total + n) as usize))
            } else {
                DrainStep::Again { total: (total + n) as usize }
            },
        },
{
    match last {
        Err(e) => DrainStep::Done(Err(e)),
        Ok(n) => {
            let total: usize = total + n;
            if n == 0 || total == max {
                DrainStep::Done(Ok(total))
            } else {
                DrainStep::Again { total }
            }
        },
    }
}

/// Waiting for the file of a channel in a task: what follows a look for it.
pub fn wait_for_channel_ready(
    config: &ChannelConfig,
    len: Option<u64>,
    now: u128,
    deadline: u128,
) -> (r: RetryStep)
    requires
        file_size(config.ring_size as int) <= usize::MAX,
    ensures
        r == file_look(config.ring_size as int, len, now, deadline),
{
    look_for_file(config.ring_size, len, now, deadline)
}

/// What an operation with a time limit comes to: its own result, or nothing where the time
/// was over first.
pub fn map_timeout<T>(outcome: Option<Result<T>>) -> (r: Result<T>)
    ensures
        r == match outcome {
            Some(result) => result,
            None => Err::<T, Error>(Error::TimedOut),
        },
{
    match outcome {
        Some(result) => result,
        None => Err(Error::TimedOut),
    }
}

/// A task looks for the file of a channel as a thread does.
pub proof fn law_task_looks_for_the_file_in_time(
    config: &ChannelConfig,
    len: Option<u64>,
    now: u128,
    deadline: u128,
    r: RetryStep,
)
    requires
        call_ensures(wait_for_channel_ready, (config, len, now, deadline), r),
    ensures
        512 + 2 * config.ring_size <= usize::MAX ==> call_requires(
            wait_for_channel_ready,
            (config, len, now, deadline),
        ),
        r is Ready <==> len is Some && len->0 >= 512 + 2 * config.ring_size,
        r matches RetryStep::Pause(nanos) ==> nanos == 10_000_000 && now < deadline,
        r matches RetryStep::Failed(e) ==> e is TimedOut && now >= deadline,
{
}

} // verus!
