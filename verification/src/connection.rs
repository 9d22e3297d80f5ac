//! A channel that can be split into a sending and a receiving half.

use vstd::prelude::*;

use crate::header::{ChannelState, GlobalHeader, ReadCursorLine, RingHeader, WriteCursorLine};
use crate::error::Result;
use crate::platform::shm_file_name;
#[allow(unused_imports)]
use crate::channel::told;
#[allow(unused_imports)]
use crate::platform::shm_file_text;
use crate::ring::{BlockingOp, RecvView, RingReceiver, RingSender, SendView, Step};
#[allow(unused_imports)]
use crate::ring::{
    op_answers, recv_into_stepped, recv_stepped, send_stepped, try_recv_stepped, ReceiverView,
    SenderView,
};
use crate::wait::{ParkOp, SpinThenWait, WaitEvent};

verus! {

/// What is known of a connection.
pub struct ConnectionView {
    pub sender: SenderView,
    pub receiver: ReceiverView,
    pub name: Seq<char>,
    pub is_server: bool,
    pub wait: SpinThenWait,
}

impl ConnectionView {
    pub open spec fn valid(self) -> bool {
        &&& self.sender.valid()
        &&& self.receiver.valid()
        &&& self.sender.size == self.receiver.size
    }
}

/// A connection.
pub struct ShmemConnection {
    sender: RingSender,
    receiver: RingReceiver,
    wait: SpinThenWait,
    name: String,
    is_server: bool,
}

impl View for ShmemConnection {
    type V = ConnectionView;

    closed spec fn view(&self) -> ConnectionView {
        ConnectionView {
            sender: self.sender@,
            receiver: self.receiver@,
            name: self.name@,
            is_server: self.is_server,
            wait: self.wait,
        }
    }
}

impl ShmemConnection {
    pub fn new(
        sender: RingSender,
        receiver: RingReceiver,
        wait: SpinThenWait,
        name: String,
        is_server: bool,
    ) -> (r: Self)
        requires
            sender@.valid(),
            receiver@.valid(),
            sender@.size == receiver@.size,
        ensures
            r@ == (ConnectionView {
                sender: sender@,
                receiver: receiver@,
                name: name@,
                is_server,
                wait,
            }),
            r@.valid(),
    {
        ShmemConnection { sender, receiver, wait, name, is_server }
    }

    /// Splits the connection into halves that send and receive on their own. They own the
    /// connection in its place: `guard` counts one owner more.
    pub fn split(self, guard: &mut ConnectionDropGuard) -> (r: (SendHalf, RecvHalf))
        requires
            self@.valid(),
            old(guard)@.owners < usize::MAX,
        ensures
            final(guard)@ == old(guard)@.shared(),
            r.0@ == (SendHalfView { sender: self@.sender, wait: self@.wait }),
            r.1@ == (RecvHalfView { receiver: self@.receiver, wait: self@.wait }),
            r.0@.valid(),
            r.1@.valid(),
    {
        guard.share();
        (
            SendHalf { sender: self.sender, wait: self.wait },
            RecvHalf { receiver: self.receiver, wait: self.wait },
        )
    }

    /// Takes the connection apart: the writer of one ring, the reader of the other, and
    /// how they wait. Writer and reader own the connection in its place.
    pub fn into_rings(self, guard: &mut ConnectionDropGuard) -> (r: (
        RingSender,
        RingReceiver,
        SpinThenWait,
    ))
        requires
            self@.valid(),
            old(guard)@.owners < usize::MAX,
        ensures
            final(guard)@ == old(guard)@.shared(),
            r.0@ == self@.sender,
            r.1@ == self@.receiver,
            r.0@.valid(),
            r.1@.valid(),
            r.2 == self@.wait,
    {
        guard.share();
        (self.sender, self.receiver, self.wait)
    }

    /// What is left to do once the connection, or both its halves, are gone. The connection
    /// is its one owner.
    pub fn drop_guard(&self) -> (r: ConnectionDropGuard)
        ensures
            r@ == (GuardView { name: self@.name, is_server: self@.is_server, owners: 1 }),
    {
        ConnectionDropGuard { name: self.name.clone(), is_server: self.is_server, owners: 1 }
    }

    /// The writer of one ring.
    pub fn sender(&self) -> (r: &RingSender)
        ensures
            r@ == self@.sender,
    {
        &self.sender
    }

    /// The reader of the other.
    pub fn receiver(&self) -> (r: &RingReceiver)
        ensures
            r@ == self@.receiver,
    {
        &self.receiver
    }

    /// One step of sending a message; waits as long as it takes.
    pub fn send(
        &mut self,
        op: BlockingOp<ParkOp>,
        event: WaitEvent,
        view: &SendView,
        line: &mut WriteCursorLine,
        data: &mut [u8],
        payload: &[u8],
    ) -> (r: (BlockingOp<ParkOp>, Step<()>))
        requires
            old(self)@.valid(),
            old(self)@.sender.ready(
                *view,
                old(data)@.len() as int,
                payload@.len() as int,
                op is Waiting,
            ),
            op_answers(&old(self)@.wait, op, event),
        ensures
            final(self)@.valid(),
            final(self)@ == (ConnectionView { sender: final(self)@.sender, ..old(self)@ }),
            send_stepped(
                &old(self)@.wait,
                None,
                op,
                event,
                *view,
                payload@,
                r,
                (old(self)@.sender, *old(line), old(data)@),
                (final(self)@.sender, *final(line), final(data)@),
            ),
    {
        let wait = self.wait;
        self.sender.send(&wait, None, op, event, view, line, data, payload)
    }

    /// One step of sending a message; waits `timeout` nanoseconds at most.
    pub fn send_timeout(
        &mut self,
        timeout: u128,
        op: BlockingOp<ParkOp>,
        event: WaitEvent,
        view: &SendView,
        line: &mut WriteCursorLine,
        data: &mut [u8],
        payload: &[u8],
    ) -> (r: (BlockingOp<ParkOp>, Step<()>))
        requires
            old(self)@.valid(),
            old(self)@.sender.ready(
                *view,
                old(data)@.len() as int,
                payload@.len() as int,
                op is Waiting,
            ),
            op_answers(&old(self)@.wait, op, event),
        ensures
            final(self)@.valid(),
            final(self)@ == (ConnectionView { sender: final(self)@.sender, ..old(self)@ }),
            send_stepped(
                &old(self)@.wait,
                Some(timeout),
                op,
                event,
                *view,
                payload@,
                r,
                (old(self)@.sender, *old(line), old(data)@),
                (final(self)@.sender, *final(line), final(data)@),
            ),
    {
        let wait = self.wait;
        self.sender.send(&wait, Some(timeout), op, event, view, line, data, payload)
    }

    /// One step of receiving a message; waits as long as it takes.
    pub fn recv(
        &mut self,
        op: BlockingOp<ParkOp>,
        event: WaitEvent,
        view: &RecvView,
        line: &mut ReadCursorLine,
        data: &[u8],
    ) -> (r: (BlockingOp<ParkOp>, Step<Vec<u8>>))
        requires
            old(self)@.valid(),
            old(self)@.receiver.ready(*view, data@.len() as int),
            op_answers(&old(self)@.wait, op, event),
        ensures
            final(self)@.valid(),
            final(self)@ == (ConnectionView { receiver: final(self)@.receiver, ..old(self)@ }),
            recv_stepped(
                &old(self)@.wait,
                None,
                op,
                event,
                *view,
                data@,
                r,
                (old(self)@.receiver, *old(line)),
                (final(self)@.receiver, *final(line)),
            ),
    {
        let wait = self.wait;
        self.receiver.recv(&wait, None, op, event, view, line, data)
    }

    /// One step of receiving a message; waits `timeout` nanoseconds at most.
    pub fn recv_timeout(
        &mut self,
        timeout: u128,
        op: BlockingOp<ParkOp>,
        event: WaitEvent,
        view: &RecvView,
        line: &mut ReadCursorLine,
        data: &[u8],
    ) -> (r: (BlockingOp<ParkOp>, Step<Vec<u8>>))
        requires
            old(self)@.valid(),
            old(self)@.receiver.ready(*view, data@.len() as int),
            op_answers(&old(self)@.wait, op, event),
        ensures
            final(self)@.valid(),
            final(self)@ == (ConnectionView { receiver: final(self)@.receiver, ..old(self)@ }),
            recv_stepped(
                &old(self)@.wait,
                Some(timeout),
                op,
                event,
                *view,
                data@,
                r,
                (old(self)@.receiver, *old(line)),
                (final(self)@.receiver, *final(line)),
            ),
    {
        let wait = self.wait;
        self.receiver.recv(&wait, Some(timeout), op, event, view, line, data)
    }

    /// Receives a message if there is one now.
    pub fn try_recv(
        &mut self,
        write_cursor: u64,
        line: &mut ReadCursorLine,
        data: &[u8],
    ) -> (r: Result<Option<Vec<u8>>>)
        requires
            old(self)@.valid(),
            old(self)@.receiver.may_look(write_cursor as int, data@.len() as int),
        ensures
            final(self)@.valid(),
            final(self)@ == (ConnectionView { receiver: final(self)@.receiver, ..old(self)@ }),
            try_recv_stepped(
                write_cursor as int,
                data@,
                r,
                (old(self)@.receiver, *old(line)),
                (final(self)@.receiver, *final(line)),
            ),
    {
        self.receiver.try_recv(write_cursor, line, data)
    }

    /// The name of the channel.
    pub fn name(&self) -> (r: &str)
        ensures
            r@ == self@.name,
    {
        self.name.as_str()
    }

    /// How often an operation looks before it sleeps.
    pub fn wait_spin_count(&self) -> (r: u32)
        ensures
            r == self@.wait.spin_count,
    {
        self.wait.spin_count
    }
}

/// What is known of a sending half.
pub struct SendHalfView {
    pub sender: SenderView,
    pub wait: SpinThenWait,
}

impl SendHalfView {
    pub open spec fn valid(self) -> bool {
        self.sender.valid()
    }
}

/// The sending half of a connection.
pub struct SendHalf {
    sender: RingSender,
    wait: SpinThenWait,
}

impl View for SendHalf {
    type V = SendHalfView;

    closed spec fn view(&self) -> SendHalfView {
        SendHalfView { sender: self.sender@, wait: self.wait }
    }
}

impl SendHalf {
    /// The writer of the ring.
    pub fn sender(&self) -> (r: &RingSender)
        ensures
            r@ == self@.sender,
    {
        &self.sender
    }

    /// One step of sending a message; waits as long as it takes.
    pub fn send(
        &mut self,
        op: BlockingOp<ParkOp>,
        event: WaitEvent,
        view: &SendView,
        line: &mut WriteCursorLine,
        data: &mut [u8],
        payload: &[u8],
    ) -> (r: (BlockingOp<ParkOp>, Step<()>))
        requires
            old(self)@.valid(),
            old(self)@.sender.ready(
                *view,
                old(data)@.len() as int,
                payload@.len() as int,
                op is Waiting,
            ),
            op_answers(&old(self)@.wait, op, event),
        ensures
            final(self)@.valid(),
            final(self)@ == (SendHalfView { sender: final(self)@.sender, ..old(self)@ }),
            send_stepped(
                &old(self)@.wait,
                None,
                op,
                event,
                *view,
                payload@,
                r,
                (old(self)@.sender, *old(line), old(data)@),
                (final(self)@.sender, *final(line), final(data)@),
            ),
    {
        let wait = self.wait;
        self.sender.send(&wait, None, op, event, view, line, data, payload)
    }

    /// One step of sending a message; waits `timeout` nanoseconds at most.
    pub fn send_timeout(
        &mut self,
        timeout: u128,
        op: BlockingOp<ParkOp>,
        event: WaitEvent,
        view: &SendView,
        line: &mut WriteCursorLine,
        data: &mut [u8],
        payload: &[u8],
    ) -> (r: (BlockingOp<ParkOp>, Step<()>))
        requires
            old(self)@.valid(),
            old(self)@.sender.ready(
                *view,
                old(data)@.len() as int,
                payload@.len() as int,
                op is Waiting,
            ),
            op_answers(&old(self)@.wait, op, event),
        ensures
            final(self)@.valid(),
            final(self)@ == (SendHalfView { sender: final(self)@.sender, ..old(self)@ }),
            send_stepped(
                &old(self)@.wait,
                Some(timeout),
                op,
                event,
                *view,
                payload@,
                r,
                (old(self)@.sender, *old(line), old(data)@),
                (final(self)@.sender, *final(line), final(data)@),
            ),
    {
        let wait = self.wait;
        self.sender.send(&wait, Some(timeout), op, event, view, line, data, payload)
    }

    /// How often an operation looks before it sleeps.
    pub fn wait_spin_count(&self) -> (r: u32)
        ensures
            r == self@.wait.spin_count,
    {
        self.wait.spin_count
    }
}

/// What is known of a receiving half.
pub struct RecvHalfView {
    pub receiver: ReceiverView,
    pub wait: SpinThenWait,
}

impl RecvHalfView {
    pub open spec fn valid(self) -> bool {
        self.receiver.valid()
    }
}

/// The receiving half of a connection.
pub struct RecvHalf {
    receiver: RingReceiver,
    wait: SpinThenWait,
}

impl View for RecvHalf {
    type V = RecvHalfView;

    closed spec fn view(&self) -> RecvHalfView {
        RecvHalfView { receiver: self.receiver@, wait: self.wait }
    }
}

impl RecvHalf {
    /// The reader of the ring.
    pub fn receiver(&self) -> (r: &RingReceiver)
        ensures
            r@ == self@.receiver,
    {
        &self.receiver
    }

    /// One step of receiving a message; waits as long as it takes.
    pub fn recv(
        &mut self,
        op: BlockingOp<ParkOp>,
        event: WaitEvent,
        view: &RecvView,
        line: &mut ReadCursorLine,
        data: &[u8],
    ) -> (r: (BlockingOp<ParkOp>, Step<Vec<u8>>))
        requires
            old(self)@.valid(),
            old(self)@.receiver.ready(*view, data@.len() as int),
            op_answers(&old(self)@.wait, op, event),
        ensures
            final(self)@.valid(),
            final(self)@ == (RecvHalfView { receiver: final(self)@.receiver, ..old(self)@ }),
            recv_stepped(
                &old(self)@.wait,
                None,
                op,
                event,
                *view,
                data@,
                r,
                (old(self)@.receiver, *old(line)),
                (final(self)@.receiver, *final(line)),
            ),
    {
        let wait = self.wait;
        self.receiver.recv(&wait, None, op, event, view, line, data)
    }

    /// One step of receiving a message; waits `timeout` nanoseconds at most.
    pub fn recv_timeout(
        &mut self,
        timeout: u128,
        op: BlockingOp<ParkOp>,
        event: WaitEvent,
        view: &RecvView,
        line: &mut ReadCursorLine,
        data: &[u8],
    ) -> (r: (BlockingOp<ParkOp>, Step<Vec<u8>>))
        requires
            old(self)@.valid(),
            old(self)@.receiver.ready(*view, data@.len() as int),
            op_answers(&old(self)@.wait, op, event),
        ensures
            final(self)@.valid(),
            final(self)@ == (RecvHalfView { receiver: final(self)@.receiver, ..old(self)@ }),
            recv_stepped(
                &old(self)@.wait,
                Some(timeout),
                op,
                event,
                *view,
                data@,
                r,
                (old(self)@.receiver, *old(line)),
                (final(self)@.receiver, *final(line)),
            ),
    {
        let wait = self.wait;
        self.receiver.recv(&wait, Some(timeout), op, event, view, line, data)
    }

    /// One step of receiving a message into a buffer of the caller's.
    pub fn recv_into(
        &mut self,
        op: BlockingOp<ParkOp>,
        event: WaitEvent,
        view: &RecvView,
        line: &mut ReadCursorLine,
        data: &[u8],
        buf: &mut [u8],
    ) -> (r: (BlockingOp<ParkOp>, Step<usize>))
        requires
            old(self)@.valid(),
            old(self)@.receiver.ready(*view, data@.len() as int),
            op_answers(&old(self)@.wait, op, event),
        ensures
            final(self)@.valid(),
            final(self)@ == (RecvHalfView { receiver: final(self)@.receiver, ..old(self)@ }),
            recv_into_stepped(
                &old(self)@.wait,
                None,
                op,
                event,
                *view,
                data@,
                r,
                (old(self)@.receiver, *old(line), old(buf)@),
                (final(self)@.receiver, *final(line), final(buf)@),
            ),
    {
        let wait = self.wait;
        self.receiver.recv_into(&wait, None, op, event, view, line, data, buf)
    }

    /// Receives a message if there is one now.
    pub fn try_recv(
        &mut self,
        write_cursor: u64,
        line: &mut ReadCursorLine,
        data: &[u8],
    ) -> (r: Result<Option<Vec<u8>>>)
        requires
            old(self)@.valid(),
            old(self)@.receiver.may_look(write_cursor as int, data@.len() as int),
        ensures
            final(self)@.valid(),
            final(self)@ == (RecvHalfView { receiver: final(self)@.receiver, ..old(self)@ }),
            try_recv_stepped(
                write_cursor as int,
                data@,
                r,
                (old(self)@.receiver, *old(line)),
                (final(self)@.receiver, *final(line)),
            ),
    {
        self.receiver.try_recv(write_cursor, line, data)
    }

    /// How often an operation looks before it sleeps.
    pub fn wait_spin_count(&self) -> (r: u32)
        ensures
            r == self@.wait.spin_count,
    {
        self.wait.spin_count
    }
}

/// What is known of the owners of a connection.
pub struct GuardView {
    pub name: Seq<char>,
    pub is_server: bool,
    /// How many there are.
    pub owners: nat,
}

impl GuardView {
    /// One owner more.
    pub open spec fn shared(self) -> GuardView {
        GuardView { owners: self.owners + 1, ..self }
    }
}

/// Counts the owners of a connection, and closes it when the last one goes.
pub struct ConnectionDropGuard {
    name: String,
    is_server: bool,
    owners: usize,
}

impl View for ConnectionDropGuard {
    type V = GuardView;

    closed spec fn view(&self) -> GuardView {
        GuardView { name: self.name@, is_server: self.is_server, owners: self.owners as nat }
    }
}

/// What the going of an owner comes to.
#[derive(Debug)]
pub enum Released {
    /// Others are left.
    Kept,
    /// It was the last one: the connection is closed, and a file of this name is to be
    /// removed if one is named.
    Closed { remove: Option<String> },
}

/// The headers of a channel: the global one and those of both rings.
pub struct Headers {
    pub global: GlobalHeader,
    pub ring_a: RingHeader,
    pub ring_b: RingHeader,
}

impl Headers {
    /// The headers of a channel that was closed.
    pub open spec fn closed(self) -> Headers {
        Headers {
            global: GlobalHeader { state: ChannelState::Closed.code(), ..self.global },
            ring_a: self.ring_a.bumped(),
            ring_b: self.ring_b.bumped(),
        }
    }
}

/// Whether `remove` names the file of a server's connection, and none for a client's.
pub open spec fn names_the_file(guard: GuardView, remove: Option<String>) -> bool {
    if guard.is_server {
        remove is Some && remove->0@ == shm_file_text(guard.name)
    } else {
        remove is None
    }
}

/// What the going of an owner does: nothing while others are left; the last one closes the
/// connection.
pub open spec fn owner_released(
    guards: (GuardView, GuardView),
    headers: (Headers, Headers),
    r: Released,
) -> bool {
    &&& guards.1 == (GuardView { owners: (guards.0.owners - 1) as nat, ..guards.0 })
    &&& if guards.1.owners > 0 {
        r is Kept && headers.1 == headers.0
    } else {
        &&& r matches Released::Closed { remove }
        &&& names_the_file(guards.0, remove)
        &&& headers.1 == headers.0.closed()
    }
}

impl ConnectionDropGuard {
    /// Counts one owner more.
    fn share(&mut self)
        requires
            old(self)@.owners < usize::MAX,
        ensures
            final(self)@ == old(self)@.shared(),
    {
        self.owners = self.owners + 1;
    }

    /// An owner goes. Only where it was the last one is anything done: the connection is
    /// closed.
    pub fn release(
        &mut self,
        global: &mut GlobalHeader,
        ring_a: &mut RingHeader,
        ring_b: &mut RingHeader,
    ) -> (r: Released)
        requires
            old(self)@.owners > 0,
        ensures
            owner_released(
                (old(self)@, final(self)@),
                (
                    Headers { global: *old(global), ring_a: *old(ring_a), ring_b: *old(ring_b) },
                    Headers {
                        global: *final(global),
                        ring_a: *final(ring_a),
                        ring_b: *final(ring_b),
                    },
                ),
                r,
            ),
    {
        self.owners = self.owners - 1;
        if self.owners > 0 {
            return Released::Kept;
        }
        let remove = self.close(global, ring_a, ring_b);
        Released::Closed { remove }
    }

    /// Closes the connection: the state word says so, and every sleeper is woken. The
    /// server's file, named here, is to be removed.
    pub fn close(
        &self,
        global: &mut GlobalHeader,
        ring_a: &mut RingHeader,
        ring_b: &mut RingHeader,
    ) -> (r: Option<String>)
        ensures
            *final(global) == (GlobalHeader {
                state: ChannelState::Closed.code(),
                ..*old(global)
            }),
            *final(ring_a) == old(ring_a).bumped(),
            *final(ring_b) == old(ring_b).bumped(),
            names_the_file(self@, r),
    {
        global.state = ChannelState::Closed.to_u32();
        ring_a.notify_all();
        ring_b.notify_all();
        if self.is_server {
            Some(shm_file_name(self.name.as_str()))
        } else {
            None
        }
    }
}

/// Of the two halves of a connection the first to go changes nothing, so that the other still
/// works; the last one closes the channel, and names the file to remove at the server's end.
/// Splitting itself changes no header.
pub proof fn law_last_half_closes(
    connection: ConnectionView,
    guards: (GuardView, GuardView),
    headers: (Headers, Headers, Headers),
    first: Released,
    last: Released,
)
    requires
        ({
            let split = GuardView {
                name: connection.name,
                is_server: connection.is_server,
                owners: 1,
            }.shared();
            &&& owner_released((split, guards.0), (headers.0, headers.1), first)
            &&& owner_released((guards.0, guards.1), (headers.1, headers.2), last)
        }),
    ensures
        first is Kept,
        headers.1 == headers.0,
        last matches Released::Closed { remove } && (connection.is_server <==> remove is Some) && (
        remove matches Some(file) ==> file@ == shm_file_text(connection.name)),
        headers.2 == headers.0.closed(),
        headers.2.global.state == ChannelState::Closed.code(),
{
}

/// Splitting a connection hands the sending end to one half and the receiving end to the other, as
/// they are, and the two own the connection in its place. The same holds where it is taken apart.
pub proof fn law_halves_are_the_connection(connection: ShmemConnection)
    requires
        connection@.valid(),
    ensures
        forall|guard: &mut ConnectionDropGuard|
            (*guard)@.owners < usize::MAX ==> #[trigger] call_requires(
                ShmemConnection::split,
                (connection, guard),
            ),
        forall|guard: &mut ConnectionDropGuard, r: (SendHalf, RecvHalf)| #[trigger]
            call_ensures(ShmemConnection::split, (connection, guard), r) ==> {
                &&& r.0@.sender == connection@.sender
                &&& r.1@.receiver == connection@.receiver
                &&& r.0@.wait == connection@.wait
                &&& r.1@.wait == connection@.wait
                &&& (*final(guard))@.owners == (*guard)@.owners + 1
                &&& (*final(guard))@.name == (*guard)@.name
                &&& (*final(guard))@.is_server == (*guard)@.is_server
            },
        forall|guard: &mut ConnectionDropGuard, r: (RingSender, RingReceiver, SpinThenWait)|
            #[trigger]
            call_ensures(ShmemConnection::into_rings, (connection, guard), r) ==> {
                &&& r.0@ == connection@.sender
                &&& r.1@ == connection@.receiver
                &&& r.2 == connection@.wait
                &&& (*final(guard))@.owners == (*guard)@.owners + 1
                &&& (*final(guard))@.name == (*guard)@.name
                &&& (*final(guard))@.is_server == (*guard)@.is_server
            },
        forall|guard: ConnectionDropGuard| #[trigger]
            call_ensures(ShmemConnection::drop_guard, (&connection,), guard) ==> {
                &&& guard@.owners == 1
                &&& guard@.name == connection@.name
                &&& guard@.is_server == connection@.is_server
            },
{
}

/// An owner that goes while others are left changes nothing. The last one closes: the state word
/// says so, everybody is told, and the server's file, and only the server's, is to be removed.
pub proof fn law_only_the_last_owner_closes()
    ensures
        forall|
            guard: &mut ConnectionDropGuard,
            global: &mut GlobalHeader,
            a: &mut RingHeader,
            b: &mut RingHeader,
            r: Released,
        |
            (*guard)@.owners > 0 && #[trigger] call_ensures(
                ConnectionDropGuard::release,
                (guard, global, a, b),
                r,
            ) ==> {
                &&& (*final(guard))@.owners == (*guard)@.owners - 1
                &&& (*final(guard))@.name == (*guard)@.name
                &&& (*final(guard))@.is_server == (*guard)@.is_server
                &&& (*guard)@.owners > 1 ==> {
                    &&& r is Kept
                    &&& *final(global) == *global
                    &&& *final(a) == *a
                    &&& *final(b) == *b
                }
                &&& (*guard)@.owners == 1 ==> {
                    &&& r is Closed
                    &&& *final(global) == (GlobalHeader { state: 4, ..*global })
                    &&& told(*a, *final(a))
                    &&& told(*b, *final(b))
                    &&& r->remove is Some <==> (*guard)@.is_server
                    &&& r->remove is Some ==> r->remove->0@ == "shmem_ipc_"@ + (*guard)@.name
                }
            },
        forall|
            guard: &ConnectionDropGuard,
            global: &mut GlobalHeader,
            a: &mut RingHeader,
            b: &mut RingHeader,
            r: Option<String>,
        | #[trigger]
            call_ensures(ConnectionDropGuard::close, (guard, global, a, b), r) ==> {
                &&& *final(global) == (GlobalHeader { state: 4, ..*global })
                &&& told(*a, *final(a))
                &&& told(*b, *final(b))
                &&& r is Some <==> guard@.is_server
                &&& r is Some ==> r->0@ == "shmem_ipc_"@ + guard@.name
            },
{
}

/// A connection and its halves spin as often as their wait strategy says.
pub proof fn law_spin_counts_are_kept(
    connection: &ShmemConnection,
    sending: &SendHalf,
    receiving: &RecvHalf,
    counts: (u32, u32, u32),
)
    requires
        call_ensures(ShmemConnection::wait_spin_count, (connection,), counts.0),
        call_ensures(SendHalf::wait_spin_count, (sending,), counts.1),
        call_ensures(RecvHalf::wait_spin_count, (receiving,), counts.2),
    ensures
        counts.0 == connection@.wait.spin_count,
        counts.1 == sending@.wait.spin_count,
        counts.2 == receiving@.wait.spin_count,
{
}

} // verus!
