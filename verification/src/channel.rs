//! A two-way channel between one server and one client.

use vstd::arithmetic::power2::is_pow2;
use vstd::prelude::*;
use vstd::string::StringExecFns;

use crate::circular::is_power_of_two;
use crate::connection::ShmemConnection;
#[allow(unused_imports)]
use crate::connection::ConnectionView;
use crate::error::{Error, IoError, IoErrorKind, IoFailure, Result};
use crate::header::{
    ChannelState, GlobalHeader, ReadCursorLine, RingHeader, RingId, RingLine, RingOffsets,
    WaitTarget, WriteCursorLine, MAGIC, VERSION,
};
#[allow(unused_imports)]
use crate::header::{bump, file_size};
use crate::platform::shm_file_name;
#[allow(unused_imports)]
use crate::laws::fresh_ring;
#[allow(unused_imports)]
use crate::platform::peer::PeerState;
#[allow(unused_imports)]
use crate::platform::shm_file_text;
use crate::ring::{
    BlockingOp, RecvView, RingReceiver, RingSender, SendView, Step, DEFAULT_RING_DATA_SIZE,
};
#[allow(unused_imports)]
use crate::ring::{
    consumed, op_answers, published, recv_into_stepped, recv_stepped, send_stepped,
    try_recv_stepped, ChannelStatus, PeekedMessage, ReceiverView, SenderView,
};
use crate::wait::{ParkOp, RetryStep, SpinThenWait, WaitEvent};

verus! {

/// Which end of a channel.
#[derive(Debug, Clone, Copy, PartialEq, Eq, Structural)]
pub enum Role {
    Server,
    Client,
}

impl Role {
    /// The ring that this end writes.
    pub open spec fn writes(self) -> RingId {
        match self {
            Role::Server => RingId::A,
            Role::Client => RingId::B,
        }
    }

    /// The ring that this end reads.
    pub open spec fn reads(self) -> RingId {
        match self {
            Role::Server => RingId::B,
            Role::Client => RingId::A,
        }
    }

    /// The words that this end waits on for room to send: those that its reader bumps.
    pub open spec fn waits_to_send(self) -> WaitTarget {
        WaitTarget { ring: self.writes(), line: RingLine::Reader }
    }

    /// The words that this end waits on for a message: those that its writer bumps.
    pub open spec fn waits_to_receive(self) -> WaitTarget {
        WaitTarget { ring: self.reads(), line: RingLine::Writer }
    }

    /// The other end.
    pub open spec fn other(self) -> Role {
        match self {
            Role::Server => Role::Client,
            Role::Client => Role::Server,
        }
    }

    /// The words that this end waits on for room to send.
    pub fn send_wait_target(self) -> (r: WaitTarget)
        ensures
            r == self.waits_to_send(),
    {
        WaitTarget { ring: self.write_ring(), line: RingLine::Reader }
    }

    /// The words that this end waits on for a message.
    pub fn recv_wait_target(self) -> (r: WaitTarget)
        ensures
            r == self.waits_to_receive(),
    {
        WaitTarget { ring: self.read_ring(), line: RingLine::Writer }
    }

    /// The ring that this end writes.
    pub fn write_ring(self) -> (r: RingId)
        ensures
            r == self.writes(),
    {
        match self {
            Role::Server => RingId::A,
            Role::Client => RingId::B,
        }
    }

    /// The ring that this end reads.
    pub fn read_ring(self) -> (r: RingId)
        ensures
            r == self.reads(),
    {
        match self {
            Role::Server => RingId::B,
            Role::Client => RingId::A,
        }
    }
}

/// Each ring has one writer and one reader, and they are at different ends: what one end
/// writes the other reads, and no end reads what it writes.
pub proof fn law_each_ring_joins_the_two_ends(a: Role, b: Role)
    ensures
        a != b <==> a.writes() == b.reads(),
        a == b <==> a.writes() == b.writes(),
        a == b <==> a.reads() == b.reads(),
{
}

/// An end waits on the very words that the other end bumps: for room, on those that the
/// other end bumps when it takes a message from the ring that this end writes; for a message,
/// on those that it bumps when it publishes one in the ring that this end reads. No two waits
/// are on the same words. A close and a finding of the watch bump all of them.
pub proof fn law_peer_bumps_the_awaited_word(
    role: Role,
    ring: RingHeader,
    message: PeekedMessage,
    wc: int,
)
    ensures
        role.waits_to_send() == (WaitTarget { ring: role.other().reads(), line: RingLine::Reader }),
        consumed(ring.reader, message).notify == bump(ring.reader.notify),
        role.waits_to_receive() == (WaitTarget {
            ring: role.other().writes(),
            line: RingLine::Writer,
        }),
        published(ring.writer, wc).notify == bump(ring.writer.notify),
        role.waits_to_send() != role.waits_to_receive(),
        role.waits_to_send() != role.other().waits_to_send(),
        role.waits_to_send() != role.other().waits_to_receive(),
        role.waits_to_receive() != role.other().waits_to_receive(),
        ring.bumped().word(RingLine::Writer) == bump(ring.word(RingLine::Writer)),
        ring.bumped().word(RingLine::Reader) == bump(ring.word(RingLine::Reader)),
{
}

/// How a channel is set up.
#[derive(Debug, Clone, Copy)]
pub struct ChannelConfig {
    /// Bytes of each ring: a power of two. 16 MiB by default.
    pub ring_size: usize,
    /// How to wait. `SpinThenWait { spin_count: 256 }` by default.
    pub wait_strategy: SpinThenWait,
    /// How long a client waits for its server, in nanoseconds. Five seconds by default.
    pub connect_timeout: u128,
}

impl ChannelConfig {
    /// The configuration of a channel that names none.
    pub open spec fn standard() -> Self {
        ChannelConfig {
            ring_size: 16_777_216,
            wait_strategy: SpinThenWait { spin_count: 256 },
            connect_timeout: 5_000_000_000,
        }
    }
}

impl Default for ChannelConfig {
    fn default() -> (r: Self)
        ensures
            r == ChannelConfig::standard(),
    {
        ChannelConfig {
            ring_size: DEFAULT_RING_DATA_SIZE,
            wait_strategy: SpinThenWait { spin_count: 256 },
            connect_timeout: 5_000_000_000,
        }
    }
}

/// What a server writes to a new shared-memory file: the file's name and layout, the
/// global header, and the header of either ring. The state word of the global header is
/// stored last.
pub struct ChannelFile {
    pub file_name: String,
    pub offsets: RingOffsets,
    pub global: GlobalHeader,
    pub ring_a: RingHeader,
    pub ring_b: RingHeader,
}

/// How long a client sleeps between two looks for the file: ten milliseconds.
pub const OPEN_POLL_NANOS: u128 = 10_000_000;

/// What follows a look for the file of a channel with rings of `ring_size` bytes: it is
/// ready once it has its full size, and is looked for until the deadline.
pub open spec fn file_look(
    ring_size: int,
    len: Option<u64>,
    now: u128,
    deadline: u128,
) -> RetryStep {
    if len is Some && len->0 >= file_size(ring_size) {
        RetryStep::Ready
    } else if now >= deadline {
        RetryStep::Failed(Error::TimedOut)
    } else {
        RetryStep::Pause(OPEN_POLL_NANOS)
    }
}

/// What follows a look for the file of a channel with rings of `ring_size` bytes.
pub fn look_for_file(
    ring_size: usize,
    len: Option<u64>,
    now: u128,
    deadline: u128,
) -> (r: RetryStep)
    requires
        file_size(ring_size as int) <= usize::MAX,
    ensures
        r == file_look(ring_size as int, len, now, deadline),
{
    let offsets = RingOffsets::new(ring_size);
    let present = match len {
        Some(len) => len >= offsets.total_size as u64,
        None => false,
    };
    if present {
        RetryStep::Ready
    } else if now >= deadline {
        RetryStep::Failed(Error::TimedOut)
    } else {
        RetryStep::Pause(OPEN_POLL_NANOS)
    }
}

/// Where opening a channel stands.
#[derive(Debug, Clone, Copy, PartialEq, Eq, Structural)]
pub enum OpenOp {
    /// The clock is being read to fix the deadline.
    Start,
    /// Waiting for the server's file.
    Looking { deadline: u128 },
    /// The file is mapped; its header is being read.
    Attaching,
    /// The state word is being exchanged.
    Exchanging,
}

/// What the last action of opening a channel brought.
#[derive(Debug, Clone, Copy, PartialEq, Eq, Structural)]
pub enum OpenEvent {
    /// The clock, in nanoseconds.
    Clock(u128),
    /// The size of the file, if there is one, and the clock.
    File { len: Option<u64>, now: u128 },
    /// The header of the mapped file; the state word was loaded first.
    Header(GlobalHeader),
    /// Whether the state word was exchanged.
    Exchanged(bool),
}

/// What to do next to open a channel.
pub enum OpenStep {
    /// Look at the size of the file and at the clock.
    Look,
    /// Sleep so many nanoseconds, then look again.
    SleepThenLook(u128),
    /// Open and map the file and load its header.
    Attach,
    /// Replace the state word by `to` if it is `from`.
    Exchange { from: u32, to: u32 },
    /// The channel is open: store `client_pid` in the header, then go on with `channel`.
    Opened { channel: Channel, client_pid: u64 },
    /// The channel cannot be opened.
    Failed(Error),
}

impl OpenStep {
    /// What performing this step does to the header of the mapped file, where nobody else
    /// changes it meanwhile.
    pub open spec fn performed(self, header: GlobalHeader) -> GlobalHeader {
        match self {
            OpenStep::Exchange { from, to } => if header.state == from {
                GlobalHeader { state: to, ..header }
            } else {
                header
            },
            OpenStep::Opened { channel, client_pid } => GlobalHeader { client_pid, ..header },
            _ => header,
        }
    }
}

/// Whether a client may attach to a file with this header.
pub open spec fn attach_result(config: ChannelConfig, header: GlobalHeader) -> Result<()> {
    if header.state != ChannelState::ServerReady.code() {
        Err(Error::ChannelClosed)
    } else if !header.valid() || header.ring_data_size != config.ring_size {
        Err(Error::InvalidHeader)
    } else {
        Ok(())
    }
}

/// What is known of a channel.
pub struct ChannelView {
    pub sender: SenderView,
    pub receiver: ReceiverView,
    pub role: Role,
    pub name: Seq<char>,
    pub wait: SpinThenWait,
}

/// One end of a channel: the writer of one ring and the reader of the other. The server
/// writes ring A and reads ring B, the client the other way round.
pub struct Channel {
    sender: RingSender,
    receiver: RingReceiver,
    role: Role,
    name: String,
    wait: SpinThenWait,
}

impl View for Channel {
    type V = ChannelView;

    closed spec fn view(&self) -> ChannelView {
        ChannelView {
            sender: self.sender@,
            receiver: self.receiver@,
            role: self.role,
            name: self.name@,
            wait: self.wait,
        }
    }
}

impl ChannelView {
    pub open spec fn valid(self) -> bool {
        &&& self.sender.valid()
        &&& self.receiver.valid()
        &&& self.sender.size == self.receiver.size
    }

    /// An end that has sent and received nothing.
    pub open spec fn fresh(role: Role, name: Seq<char>, config: ChannelConfig) -> Self {
        ChannelView {
            sender: SenderView { size: config.ring_size as int, next_seq: 1, wc: 0, rc: 0 },
            receiver: ReceiverView { size: config.ring_size as int, expected_seq: 1, rc: 0 },
            role,
            name,
            wait: config.wait_strategy,
        }
    }
}

impl Channel {
    /// Sets a channel up as its server with the default configuration.
    pub fn create(name: &str, pid: u64) -> (r: Result<(Self, ChannelFile)>)
        ensures
            r is Ok,
            created(name@, ChannelConfig::standard(), pid, r->Ok_0.0, r->Ok_0.1),
    {
        proof {
            assert(is_pow2(16_777_216)) by {
                reveal_with_fuel(is_pow2, 25);
            }
        }
        Self::create_with_config(name, ChannelConfig::default(), pid)
    }

    /// Sets a channel up as its server: the end itself, and what is to be written to
    /// the file so that a client can connect.
    pub fn create_with_config(name: &str, config: ChannelConfig, pid: u64) -> (r: Result<
        (Self, ChannelFile),
    >)
        requires
            is_pow2(config.ring_size as int) ==> file_size(config.ring_size as int) <= usize::MAX,
        ensures
            !is_pow2(config.ring_size as int) ==> r == Err::<(Self, ChannelFile), Error>(
                Error::Io(
                    IoError::Custom {
                        kind: IoErrorKind::InvalidInput,
                        message: "ring_size must be a power of two",
                    },
                ),
            ),
            is_pow2(config.ring_size as int) ==> r is Ok && created(
                name@,
                config,
                pid,
                r->Ok_0.0,
                r->Ok_0.1,
            ),
    {
        if !is_power_of_two(config.ring_size) {
            return Err(
                Error::Io(
                    IoError::Custom {
                        kind: IoErrorKind::InvalidInput,
                        message: "ring_size must be a power of two",
                    },
                ),
            );
        }
        let file_name = shm_file_name(name);
        let offsets = RingOffsets::new(config.ring_size);
        // The header has 32 bits for the size.
        let ring_data_size: u32 = ((config.ring_size as u64) % 0x1_0000_0000) as u32;
        let global = GlobalHeader {
            magic: MAGIC,
            version: VERSION,
            ring_data_size,
            server_pid: pid,
            client_pid: 0,
            server_heartbeat: 0,
            client_heartbeat: 0,
            state: ChannelState::ServerReady.to_u32(),
        };
        let file = ChannelFile {
            file_name,
            offsets,
            global,
            ring_a: RingHeader::new(),
            ring_b: RingHeader::new(),
        };
        let channel = Channel {
            sender: RingSender::new(config.ring_size),
            receiver: RingReceiver::new(config.ring_size),
            role: Role::Server,
            name: String::from_str(name),
            wait: config.wait_strategy,
        };
        Ok((channel, file))
    }

    /// One step of connecting to a channel as its client with the default configuration.
    pub fn open(name: &str, pid: u64, op: OpenOp, event: OpenEvent) -> (r: (OpenOp, OpenStep))
        requires
            open_answers(ChannelConfig::standard(), op, event),
        ensures
            open_stepped(name@, ChannelConfig::standard(), pid, op, event, r),
    {
        Self::open_with_config(name, ChannelConfig::default(), pid, op, event)
    }

    /// One step of connecting to a channel as its client.
    ///
    /// The client waits for the server's file to have its full size, checks the header,
    /// and claims the channel by exchanging the state word. Once it has, and only then, it
    /// leaves its process number `pid` in the header.
    pub fn open_with_config(
        name: &str,
        config: ChannelConfig,
        pid: u64,
        op: OpenOp,
        event: OpenEvent,
    ) -> (r: (OpenOp, OpenStep))
        requires
            open_answers(config, op, event),
        ensures
            open_stepped(name@, config, pid, op, event, r),
    {
        match (op, event) {
            (OpenOp::Start, OpenEvent::Clock(now)) => (
                OpenOp::Looking { deadline: now + config.connect_timeout },
                OpenStep::Look,
            ),
            (OpenOp::Looking { deadline }, OpenEvent::File { len, now }) => {
                match look_for_file(config.ring_size, len, now, deadline) {
                    RetryStep::Ready => (OpenOp::Attaching, OpenStep::Attach),
                    RetryStep::Pause(nanos) => (op, OpenStep::SleepThenLook(nanos)),
                    RetryStep::Failed(e) => (op, OpenStep::Failed(e)),
                }
            },
            (OpenOp::Attaching, OpenEvent::Header(header)) => {
                match Self::check_header(&config, &header) {
                    Err(e) => (op, OpenStep::Failed(e)),
                    Ok(()) => (
                        OpenOp::Exchanging,
                        OpenStep::Exchange {
                            from: ChannelState::ServerReady.to_u32(),
                            to: ChannelState::Connected.to_u32(),
                        },
                    ),
                }
            },
            (OpenOp::Exchanging, OpenEvent::Exchanged(true)) => {
                let channel = Channel {
                    sender: RingSender::new(config.ring_size),
                    receiver: RingReceiver::new(config.ring_size),
                    role: Role::Client,
                    name: String::from_str(name),
                    wait: config.wait_strategy,
                };
                (op, OpenStep::Opened { channel, client_pid: pid })
            },
            _ => (op, OpenStep::Failed(Error::ChannelClosed)),
        }
    }

    /// Whether a client may attach to a file with this header.
    fn check_header(config: &ChannelConfig, header: &GlobalHeader) -> (r: Result<()>)
        ensures
            r == attach_result(*config, *header),
    {
        if header.state != ChannelState::ServerReady.to_u32() {
            return Err(Error::ChannelClosed);
        }
        match header.validate() {
            Ok(()) => {},
            Err(e) => {
                return Err(e);
            },
        }
        if header.ring_data_size as usize != config.ring_size {
            return Err(Error::InvalidHeader);
        }
        Ok(())
    }

    /// One step of sending a message; waits as long as it takes.
    pub fn send(
        &mut self,
        op: BlockingOp<ParkOp>,
        event: WaitEvent,
        view: &SendView,
        line: &mut WriteCursorLine,
        data: &mut [u8],
        payload: &[u8],
    ) -> (r: (BlockingOp<ParkOp>, Step<()>))
        requires
            old(self)@.valid(),
            old(self)@.sender.ready(
                *view,
                old(data)@.len() as int,
                payload@.len() as int,
                op is Waiting,
            ),
            op_answers(&old(self)@.wait, op, event),
        ensures
            final(self)@.valid(),
            final(self)@ == (ChannelView { sender: final(self)@.sender, ..old(self)@ }),
            send_stepped(
                &old(self)@.wait,
                None,
                op,
                event,
                *view,
                payload@,
                r,
                (old(self)@.sender, *old(line), old(data)@),
                (final(self)@.sender, *final(line), final(data)@),
            ),
    {
        let wait = self.wait;
        self.sender.send(&wait, None, op, event, view, line, data, payload)
    }

    /// One step of sending a message; waits `timeout` nanoseconds at most.
    pub fn send_timeout(
        &mut self,
        timeout: u128,
        op: BlockingOp<ParkOp>,
        event: WaitEvent,
        view: &SendView,
        line: &mut WriteCursorLine,
        data: &mut [u8],
        payload: &[u8],
    ) -> (r: (BlockingOp<ParkOp>, Step<()>))
        requires
            old(self)@.valid(),
            old(self)@.sender.ready(
                *view,
                old(data)@.len() as int,
                payload@.len() as int,
                op is Waiting,
            ),
            op_answers(&old(self)@.wait, op, event),
        ensures
            final(self)@.valid(),
            final(self)@ == (ChannelView { sender: final(self)@.sender, ..old(self)@ }),
            send_stepped(
                &old(self)@.wait,
                Some(timeout),
                op,
                event,
                *view,
                payload@,
                r,
                (old(self)@.sender, *old(line), old(data)@),
                (final(self)@.sender, *final(line), final(data)@),
            ),
    {
        let wait = self.wait;
        self.sender.send(&wait, Some(timeout), op, event, view, line, data, payload)
    }

    /// One step of receiving a message; waits as long as it takes.
    pub fn recv(
        &mut self,
        op: BlockingOp<ParkOp>,
        event: WaitEvent,
        view: &RecvView,
        line: &mut ReadCursorLine,
        data: &[u8],
    ) -> (r: (BlockingOp<ParkOp>, Step<Vec<u8>>))
        requires
            old(self)@.valid(),
            old(self)@.receiver.ready(*view, data@.len() as int),
            op_answers(&old(self)@.wait, op, event),
        ensures
            final(self)@.valid(),
            final(self)@ == (ChannelView { receiver: final(self)@.receiver, ..old(self)@ }),
            recv_stepped(
                &old(self)@.wait,
                None,
                op,
                event,
                *view,
                data@,
                r,
                (old(self)@.receiver, *old(line)),
                (final(self)@.receiver, *final(line)),
            ),
    {
        let wait = self.wait;
        self.receiver.recv(&wait, None, op, event, view, line, data)
    }

    /// One step of receiving a message; waits `timeout` nanoseconds at most.
    pub fn recv_timeout(
        &mut self,
        timeout: u128,
        op: BlockingOp<ParkOp>,
        event: WaitEvent,
        view: &RecvView,
        line: &mut ReadCursorLine,
        data: &[u8],
    ) -> (r: (BlockingOp<ParkOp>, Step<Vec<u8>>))
        requires
            old(self)@.valid(),
            old(self)@.receiver.ready(*view, data@.len() as int),
            op_answers(&old(self)@.wait, op, event),
        ensures
            final(self)@.valid(),
            final(self)@ == (ChannelView { receiver: final(self)@.receiver, ..old(self)@ }),
            recv_stepped(
                &old(self)@.wait,
                Some(timeout),
                op,
                event,
                *view,
                data@,
                r,
                (old(self)@.receiver, *old(line)),
                (final(self)@.receiver, *final(line)),
            ),
    {
        let wait = self.wait;
        self.receiver.recv(&wait, Some(timeout), op, event, view, line, data)
    }

    /// One step of receiving a message into a buffer of the caller's.
    pub fn recv_into(
        &mut self,
        op: BlockingOp<ParkOp>,
        event: WaitEvent,
        view: &RecvView,
        line: &mut ReadCursorLine,
        data: &[u8],
        buf: &mut [u8],
    ) -> (r: (BlockingOp<ParkOp>, Step<usize>))
        requires
            old(self)@.valid(),
            old(self)@.receiver.ready(*view, data@.len() as int),
            op_answers(&old(self)@.wait, op, event),
        ensures
            final(self)@.valid(),
            final(self)@ == (ChannelView { receiver: final(self)@.receiver, ..old(self)@ }),
            recv_into_stepped(
                &old(self)@.wait,
                None,
                op,
                event,
                *view,
                data@,
                r,
                (old(self)@.receiver, *old(line), old(buf)@),
                (final(self)@.receiver, *final(line), final(buf)@),
            ),
    {
        let wait = self.wait;
        self.receiver.recv_into(&wait, None, op, event, view, line, data, buf)
    }

    /// Receives a message if there is one now.
    pub fn try_recv(
        &mut self,
        write_cursor: u64,
        line: &mut ReadCursorLine,
        data: &[u8],
    ) -> (r: Result<Option<Vec<u8>>>)
        requires
            old(self)@.valid(),
            old(self)@.receiver.may_look(write_cursor as int, data@.len() as int),
        ensures
            final(self)@.valid(),
            final(self)@ == (ChannelView { receiver: final(self)@.receiver, ..old(self)@ }),
            try_recv_stepped(
                write_cursor as int,
                data@,
                r,
                (old(self)@.receiver, *old(line)),
                (final(self)@.receiver, *final(line)),
            ),
    {
        self.receiver.try_recv(write_cursor, line, data)
    }

    /// The writer of one ring.
    pub fn sender(&self) -> (r: &RingSender)
        ensures
            r@ == self@.sender,
    {
        &self.sender
    }

    /// The reader of the other.
    pub fn receiver(&self) -> (r: &RingReceiver)
        ensures
            r@ == self@.receiver,
    {
        &self.receiver
    }

    /// Which end this is.
    pub fn role(&self) -> (r: Role)
        ensures
            r == self@.role,
    {
        self.role
    }

    /// The state that the state word stands for; a word that stands for none means
    /// closed.
    pub fn state(&self, word: u32) -> (r: ChannelState)
        ensures
            r.code() == word || r == ChannelState::Closed && word > 4,
    {
        match ChannelState::from_u32(word) {
            Some(state) => state,
            None => {
                proof {
                    assert(ChannelState::Init.code() != word);
                    assert(ChannelState::ServerReady.code() != word);
                    assert(ChannelState::Connected.code() != word);
                    assert(ChannelState::Closing.code() != word);
                    assert(ChannelState::Closed.code() != word);
                }
                ChannelState::Closed
            },
        }
    }

    /// The name of the file that is to be removed to clean up after a channel whose server
    /// could not.
    pub fn cleanup(name: &str) -> (r: String)
        ensures
            r@ == shm_file_text(name@),
    {
        shm_file_name(name)
    }

    /// What removing the file of a channel comes to: a file that is not there is as good
    /// as removed.
    pub fn cleanup_result(
        removed: std::result::Result<(), IoFailure>,
    ) -> (r: Result<()>)
        ensures
            r == match removed {
                Ok(()) => Ok::<(), Error>(()),
                Err(failure) => if failure.kind == IoErrorKind::NotFound {
                    Ok(())
                } else {
                    Err(Error::Io(failure.error))
                },
            },
    {
        match removed {
            Ok(()) => Ok(()),
            Err(failure) => if failure.kind == IoErrorKind::NotFound {
                Ok(())
            } else {
                Err(Error::Io(failure.error))
            },
        }
    }

    /// Turns the channel into a connection that can be split.
    pub fn into_connection(self) -> (r: ShmemConnection)
        requires
            self@.valid(),
        ensures
            r@ == (ConnectionView {
                sender: self@.sender,
                receiver: self@.receiver,
                name: self@.name,
                is_server: self@.role == Role::Server,
                wait: self@.wait,
            }),
            r@.valid(),
    {
        let is_server = match self.role {
            Role::Server => true,
            Role::Client => false,
        };
        ShmemConnection::new(self.sender, self.receiver, self.wait, self.name, is_server)
    }

    /// Closes the channel: the state word says so, and every sleeper is woken. The server's
    /// file, named here, is to be removed.
    pub fn close(
        &self,
        global: &mut GlobalHeader,
        ring_a: &mut RingHeader,
        ring_b: &mut RingHeader,
    ) -> (r: Option<String>)
        ensures
            *final(global) == (GlobalHeader {
                state: ChannelState::Closed.code(),
                ..*old(global)
            }),
            *final(ring_a) == old(ring_a).bumped(),
            *final(ring_b) == old(ring_b).bumped(),
            self@.role == Role::Client ==> r is None,
            self@.role == Role::Server ==> r is Some && r->0@ == shm_file_text(self@.name),
    {
        global.state = ChannelState::Closed.to_u32();
        ring_a.notify_all();
        ring_b.notify_all();
        match self.role {
            Role::Server => Some(shm_file_name(self.name.as_str())),
            Role::Client => None,
        }
    }
}

/// The server's end and the file of a new channel.
pub open spec fn created(
    name: Seq<char>,
    config: ChannelConfig,
    pid: u64,
    channel: Channel,
    file: ChannelFile,
) -> bool {
    &&& channel@ == ChannelView::fresh(Role::Server, name, config)
    &&& channel@.valid()
    &&& file.file_name@ == shm_file_text(name)
    &&& file.offsets == RingOffsets::layout(config.ring_size as int)
    &&& file.global == (GlobalHeader {
        magic: MAGIC,
        version: VERSION,
        ring_data_size: (config.ring_size as int % 0x1_0000_0000) as u32,
        server_pid: pid,
        client_pid: 0,
        server_heartbeat: 0,
        client_heartbeat: 0,
        state: ChannelState::ServerReady.code(),
    })
    &&& file.ring_a == RingHeader::fresh()
    &&& file.ring_b == RingHeader::fresh()
}

/// Whether `event` answers the last action of opening a channel.
pub open spec fn open_answers(config: ChannelConfig, op: OpenOp, event: OpenEvent) -> bool {
    match (op, event) {
        (OpenOp::Start, OpenEvent::Clock(now)) => now + config.connect_timeout <= u128::MAX,
        (OpenOp::Looking { deadline }, OpenEvent::File { len, now }) => file_size(
            config.ring_size as int,
        ) <= usize::MAX,
        (OpenOp::Attaching, OpenEvent::Header(header)) => true,
        (OpenOp::Exchanging, OpenEvent::Exchanged(done)) => done ==> is_pow2(
            config.ring_size as int,
        ),
        _ => false,
    }
}

/// What a step of opening a channel answers.
pub open spec fn open_stepped(
    name: Seq<char>,
    config: ChannelConfig,
    pid: u64,
    op: OpenOp,
    event: OpenEvent,
    r: (OpenOp, OpenStep),
) -> bool {
    match (op, event) {
        (OpenOp::Start, OpenEvent::Clock(now)) => r == (
            OpenOp::Looking { deadline: (now + config.connect_timeout) as u128 },
            OpenStep::Look,
        ),
        (OpenOp::Looking { deadline }, OpenEvent::File { len, now }) => match file_look(
            config.ring_size as int,
            len,
            now,
            deadline,
        ) {
            RetryStep::Ready => r == (OpenOp::Attaching, OpenStep::Attach),
            RetryStep::Pause(nanos) => r == (op, OpenStep::SleepThenLook(nanos)),
            RetryStep::Failed(e) => r.1 == OpenStep::Failed(e),
        },
        (OpenOp::Attaching, OpenEvent::Header(header)) => match attach_result(config, header) {
            Err(e) => r.1 == OpenStep::Failed(e),
            Ok(()) => r == (
                OpenOp::Exchanging,
                OpenStep::Exchange {
                    from: ChannelState::ServerReady.code(),
                    to: ChannelState::Connected.code(),
                },
            ),
        },
        (_, OpenEvent::Exchanged(true)) => {
            &&& r.1 matches OpenStep::Opened { channel, client_pid }
            &&& channel@ == ChannelView::fresh(Role::Client, name, config)
            &&& channel@.valid()
            &&& client_pid == pid
        },
        _ => r.1 == OpenStep::Failed(Error::ChannelClosed),
    }
}

/// A client that uses the server's configuration finds the server's file as it should be
/// and may attach. (The header has 32 bits for the ring size: with rings of 4 GiB and more
/// no client can attach.)
pub proof fn law_client_may_attach(
    name: Seq<char>,
    config: ChannelConfig,
    pid: u64,
    channel: Channel,
    file: ChannelFile,
)
    requires
        created(name, config, pid, channel, file),
        config.ring_size < 0x1_0000_0000,
    ensures
        attach_result(config, file.global) is Ok,
        file_size(config.ring_size as int) <= usize::MAX ==> file_look(
            config.ring_size as int,
            Some(file.offsets.total_size as u64),
            0,
            0,
        ) == RetryStep::Ready,
{
}

/// A channel has one client: once one has claimed it, and once it is closed, no other may
/// attach.
pub proof fn law_channel_has_one_client(config: ChannelConfig, header: GlobalHeader)
    requires
        header.state == ChannelState::Connected.code() || header.state
            == ChannelState::Closed.code(),
    ensures
        attach_result(config, header) == Err::<(), Error>(Error::ChannelClosed),
{
}

/// A client never attaches to rings of another size, nor to a file of another protocol.
pub proof fn law_client_checks_the_header(config: ChannelConfig, header: GlobalHeader)
    ensures
        attach_result(config, header) is Ok ==> header.ring_data_size == config.ring_size
            && header.valid() && header.state == ChannelState::ServerReady.code(),
{
}

/// A client that finds the file with `header`, and whom nobody disturbs, either is refused
/// and leaves the header as it is, or claims the channel: the state word then says that it is
/// connected, the header names its process, and nothing else in it has changed.
pub proof fn law_open_claims_or_leaves_the_header(
    name: Seq<char>,
    config: ChannelConfig,
    pid: u64,
    header: GlobalHeader,
    first: (OpenOp, OpenStep),
    second: (OpenOp, OpenStep),
)
    requires
        open_stepped(name, config, pid, OpenOp::Attaching, OpenEvent::Header(header), first),
        first.1 is Exchange ==> open_stepped(
            name,
            config,
            pid,
            first.0,
            OpenEvent::Exchanged(header.state == first.1->from),
            second,
        ),
    ensures
        match attach_result(config, header) {
            Err(e) => first.1 == OpenStep::Failed(e) && first.1.performed(header) == header,
            Ok(()) => {
                &&& first.1 is Exchange
                &&& second.1 matches OpenStep::Opened { channel, client_pid }
                &&& channel@ == ChannelView::fresh(Role::Client, name, config)
                &&& second.1.performed(first.1.performed(header)) == (GlobalHeader {
                    state: ChannelState::Connected.code(),
                    client_pid: pid,
                    ..header
                })
            },
        },
{
}

/// The two ends of a new channel stand at the two ends of two rings that nothing was
/// written to: what either sends, the other receives.
pub proof fn law_new_channel_is_two_fresh_rings(
    name: Seq<char>,
    config: ChannelConfig,
    data: Seq<u8>,
)
    requires
        data.len() == config.ring_size,
    ensures
        ({
            let server = ChannelView::fresh(Role::Server, name, config);
            let client = ChannelView::fresh(Role::Client, name, config);
            &&& fresh_ring(data).sender == server.sender
            &&& fresh_ring(data).receiver == client.receiver
            &&& fresh_ring(data).sender == client.sender
            &&& fresh_ring(data).receiver == server.receiver
        }),
{
}

/// A close is seen by the other end, whatever its watch has found: the state word says so,
/// and the word that it may sleep on has changed.
pub proof fn law_close_is_seen(
    peer: PeerState,
    before: GlobalHeader,
    ring: RingHeader,
)
    ensures
        ({
            let after = GlobalHeader { state: ChannelState::Closed.code(), ..before };
            ChannelStatus { peer, state: after.state }.terminal() == Some(Error::ChannelClosed)
        }),
        ring.bumped().writer.notify != ring.writer.notify,
        ring.bumped().reader.notify != ring.reader.notify,
{
}

/// The server writes ring A and reads ring B, and the client the other way round; a writer waits
/// on the reader's line of the ring that it writes, and a reader on the writer's line of the ring
/// that it reads.
pub proof fn law_roles_and_rings(
    role: Role,
    written: RingId,
    read: RingId,
    to_send: WaitTarget,
    to_receive: WaitTarget,
)
    requires
        call_ensures(Role::write_ring, (role,), written),
        call_ensures(Role::read_ring, (role,), read),
        call_ensures(Role::send_wait_target, (role,), to_send),
        call_ensures(Role::recv_wait_target, (role,), to_receive),
    ensures
        written is A <==> role is Server,
        read is B <==> role is Server,
        to_send.ring == written,
        to_send.line is Reader,
        to_receive.ring == read,
        to_receive.line is Writer,
{
}

/// A channel is set up with rings of any power of two and of no other size. The end is the
/// server's and has sent and received nothing; the file has the sizes and the layout that go with
/// the rings, names the server's process and no client, and says that the server is ready.
pub proof fn law_channel_is_set_up_as_asked(
    name: &str,
    config: ChannelConfig,
    pid: u64,
    r: Result<(Channel, ChannelFile)>,
)
    requires
        is_pow2(config.ring_size as int) ==> 512 + 2 * config.ring_size <= usize::MAX,
        call_ensures(Channel::create_with_config, (name, config, pid), r),
    ensures
        call_requires(Channel::create_with_config, (name, config, pid)),
        r is Ok <==> is_pow2(config.ring_size as int),
        r matches Err(e) ==> (e matches Error::Io(IoError::Custom { kind, message }) && kind
            is InvalidInput && message@ == "ring_size must be a power of two"@),
        r matches Ok((channel, file)) ==> {
            &&& channel@.role is Server
            &&& channel@.name == name@
            &&& channel@.wait == config.wait_strategy
            &&& starts_fresh(channel@, config.ring_size as int)
            &&& file.file_name@ == "shmem_ipc_"@ + name@
            &&& file.offsets.total_size == 512 + 2 * config.ring_size
            &&& file.offsets.ring_a_header == 256
            &&& file.offsets.ring_a_data == 384
            &&& file.offsets.ring_b_header == 384 + config.ring_size
            &&& file.offsets.ring_b_data == 512 + config.ring_size
            &&& file.global.magic == 0x5348_4D43
            &&& file.global.version == 1
            &&& config.ring_size < 0x1_0000_0000 ==> file.global.ring_data_size == config.ring_size
            &&& file.global.server_pid == pid
            &&& file.global.client_pid == 0
            &&& file.global.server_heartbeat == 0
            &&& file.global.client_heartbeat == 0
            &&& file.global.state == 1
            &&& file.ring_a.writer.write_cursor == 0 && file.ring_a.reader.read_cursor == 0
            &&& file.ring_b.writer.write_cursor == 0 && file.ring_b.reader.read_cursor == 0
            &&& file.ring_a.writer.parked == 0 && file.ring_a.reader.parked == 0
            &&& file.ring_b.writer.parked == 0 && file.ring_b.reader.parked == 0
        },
{
}

/// Whether an end stands at the start of two rings of `size` bytes.
pub open spec fn starts_fresh(v: ChannelView, size: int) -> bool {
    &&& v.valid()
    &&& v.sender.size == size && v.receiver.size == size
    &&& v.sender.wc == 0 && v.sender.rc == 0 && v.receiver.rc == 0
    &&& v.sender.next_seq == 1 && v.receiver.expected_seq == 1
}

/// Where nothing else is asked for, rings have 16 MiB, a wait looks 256 times before it sleeps, and
/// a client waits five seconds for its server.
pub proof fn law_channel_by_default(name: &str, pid: u64, config: ChannelConfig)
    requires
        call_ensures(<ChannelConfig as Default>::default, (), config),
    ensures
        config.ring_size == 16 * 1024 * 1024,
        config.wait_strategy.spin_count == 256,
        config.connect_timeout == 5 * 1_000_000_000,
        forall|r: Result<(Channel, ChannelFile)>| #[trigger]
            call_ensures(Channel::create, (name, pid), r) ==> {
                &&& r matches Ok((channel, file))
                &&& channel@.role is Server
                &&& channel@.name == name@
                &&& channel@.wait == config.wait_strategy
                &&& starts_fresh(channel@, config.ring_size as int)
                &&& file.file_name@ == "shmem_ipc_"@ + name@
                &&& file.global.server_pid == pid
                &&& file.global.state == 1
                &&& file.global.ring_data_size == config.ring_size
            },
        forall|op: OpenOp, event: OpenEvent, r: (OpenOp, OpenStep)| #[trigger]
            call_ensures(Channel::open, (name, pid, op, event), r) ==> open_stepped(
                name@,
                config,
                pid,
                op,
                event,
                r,
            ),
{
    assert(is_pow2(16_777_216)) by {
        reveal_with_fuel(is_pow2, 25);
    }
}

/// A client connects in four steps. It looks for the file until that has its full size, every ten
/// milliseconds and until its own deadline. It refuses a channel that is not waiting for a client,
/// and a header of another protocol or another ring size. It claims the channel by changing the
/// state word from 1 to 2. Only if nobody was faster does it have the client's end, fresh, and
/// leave its process number.
pub proof fn law_client_connects_in_four_steps(
    name: &str,
    config: ChannelConfig,
    pid: u64,
    op: OpenOp,
    event: OpenEvent,
    r: (OpenOp, OpenStep),
)
    requires
        call_ensures(Channel::open_with_config, (name, config, pid, op, event), r),
        512 + 2 * config.ring_size <= usize::MAX,
    ensures
        ({
            &&& op is Start && event is Clock && event->Clock_0 + config.connect_timeout
                <= u128::MAX ==> {
                &&& call_requires(Channel::open_with_config, (name, config, pid, op, event))
                &&& r.0 matches OpenOp::Looking { deadline }
                &&& deadline == event->Clock_0 + config.connect_timeout
                &&& r.1 is Look
            }
            &&& op is Looking && event is File ==> {
                let whole = event->len is Some && event->len->0 >= 512 + 2 * config.ring_size;
                let late = event->now >= op->deadline;
                &&& call_requires(Channel::open_with_config, (name, config, pid, op, event))
                &&& whole ==> r.0 is Attaching && r.1 is Attach
                &&& !whole && late ==> r.1 == OpenStep::Failed(Error::TimedOut)
                &&& !whole && !late ==> r.0 == op && r.1 == OpenStep::SleepThenLook(10_000_000)
            }
            &&& op is Attaching && event is Header ==> {
                let header = event->Header_0;
                let ours = header.magic == 0x5348_4D43 && header.version == 1
                    && header.ring_data_size == config.ring_size;
                &&& call_requires(Channel::open_with_config, (name, config, pid, op, event))
                &&& header.state != 1 ==> r.1 == OpenStep::Failed(Error::ChannelClosed)
                &&& header.state == 1 && !ours ==> r.1 == OpenStep::Failed(Error::InvalidHeader)
                &&& header.state == 1 && ours ==> r.0 is Exchanging && r.1 == (OpenStep::Exchange {
                    from: 1,
                    to: 2,
                })
            }
            &&& op is Exchanging && event == OpenEvent::Exchanged(true) && is_pow2(
                config.ring_size as int,
            ) ==> {
                &&& call_requires(Channel::open_with_config, (name, config, pid, op, event))
                &&& r.1 matches OpenStep::Opened { channel, client_pid }
                &&& client_pid == pid
                &&& channel@.role is Client
                &&& channel@.name == name@
                &&& channel@.wait == config.wait_strategy
                &&& starts_fresh(channel@, config.ring_size as int)
            }
            &&& op is Exchanging && event == OpenEvent::Exchanged(false) ==> r.1
                == OpenStep::Failed(Error::ChannelClosed)
        }),
{
}

/// The two ends of a channel, the server's as it is created and the client's as it is opened,
/// stand at the two ends of two empty rings that are in step: what one sends, the other receives.
pub proof fn law_ends_meet(
    name: &str,
    config: ChannelConfig,
    pids: (u64, u64),
    data: Seq<u8>,
    server: Result<(Channel, ChannelFile)>,
    client: (OpenOp, OpenStep),
)
    requires
        is_pow2(config.ring_size as int),
        8 <= config.ring_size,
        data.len() == config.ring_size,
        512 + 2 * config.ring_size <= usize::MAX,
        call_ensures(Channel::create_with_config, (name, config, pids.0), server),
        call_ensures(
            Channel::open_with_config,
            (name, config, pids.1, OpenOp::Exchanging, OpenEvent::Exchanged(true)),
            client,
        ),
    ensures
        client.1 is Opened,
        ({
            let a = server->Ok_0.0@;
            let b = client.1->channel@;
            let ring = fresh_ring(data);
            &&& ring.in_step()
            &&& ring.queue().len() == 0
            &&& a.sender == ring.sender && b.receiver == ring.receiver
            &&& b.sender == ring.sender && a.receiver == ring.receiver
        }),
{
    crate::laws::law_fresh_ring_in_step(data);
}

/// Closing says so in the state word, tells everybody, and names the server's file, and only the
/// server's, to be removed. Nothing else in the headers changes.
pub proof fn law_close_tells_everybody(channel: &Channel)
    ensures
        forall|
            global: &mut GlobalHeader,
            a: &mut RingHeader,
            b: &mut RingHeader,
            r: Option<String>,
        | #[trigger]
            call_ensures(Channel::close, (channel, global, a, b), r) ==> {
                &&& final(global).state == 4
                &&& *final(global) == (GlobalHeader { state: 4, ..*global })
                &&& told(*a, *final(a))
                &&& told(*b, *final(b))
                &&& r is Some <==> channel@.role is Server
                &&& r matches Some(file) ==> file@ == "shmem_ipc_"@ + channel@.name
            },
{
}

/// Whether both notification words of a ring count one more, and nothing else has changed.
pub open spec fn told(before: RingHeader, after: RingHeader) -> bool {
    &&& after.writer.notify == (before.writer.notify + 1) % 0x1_0000_0000
    &&& after.reader.notify == (before.reader.notify + 1) % 0x1_0000_0000
    &&& after.writer.write_cursor == before.writer.write_cursor
    &&& after.reader.read_cursor == before.reader.read_cursor
    &&& after.writer.parked == before.writer.parked
    &&& after.reader.parked == before.reader.parked
}

/// The state of a channel is what the state word says, and closed where that says nothing.
/// Cleaning up removes the file of the channel, and a file that is not there is as good as
/// removed; any other failure is reported.
pub proof fn law_state_and_cleanup(
    channel: &Channel,
    word: u32,
    state: ChannelState,
    name: &str,
    file: String,
    removed: std::result::Result<(), IoFailure>,
    cleaned: Result<()>,
    role: Role,
)
    requires
        call_ensures(Channel::state, (channel, word), state),
        call_ensures(Channel::cleanup, (name,), file),
        call_ensures(Channel::cleanup_result, (removed,), cleaned),
        call_ensures(Channel::role, (channel,), role),
    ensures
        state is Init <==> word == 0,
        state is ServerReady <==> word == 1,
        state is Connected <==> word == 2,
        state is Closing <==> word == 3,
        state is Closed <==> word >= 4,
        file@ == "shmem_ipc_"@ + name@,
        removed is Ok ==> cleaned is Ok,
        removed matches Err(failure) ==> (cleaned is Ok <==> failure.kind is NotFound) && (cleaned
            is Err ==> cleaned == Err::<(), Error>(Error::Io(failure.error))),
        role == channel@.role,
{
}

/// A connection that is made of a channel is that channel: its name, its ends and all that they
/// know, and how it waits. It is the server's where the channel was.
pub proof fn law_connection_is_the_channel(channel: Channel, r: ShmemConnection)
    requires
        channel@.valid(),
        call_ensures(Channel::into_connection, (channel,), r),
    ensures
        call_requires(Channel::into_connection, (channel,)),
        r@.name == channel@.name,
        r@.sender == channel@.sender,
        r@.receiver == channel@.receiver,
        r@.wait == channel@.wait,
        r@.is_server <==> channel@.role is Server,
        r@.valid(),
{
}

/// The file of a channel is there once it has room for the headers, of 512 bytes together, and for
/// both rings. Until then it is looked for every ten milliseconds, as long as there is time; a file
/// that is found is taken however late it is.
pub proof fn law_file_is_looked_for_in_time(
    ring_size: usize,
    len: Option<u64>,
    now: u128,
    deadline: u128,
    r: RetryStep,
)
    requires
        call_ensures(look_for_file, (ring_size, len, now, deadline), r),
    ensures
        512 + 2 * ring_size <= usize::MAX ==> call_requires(
            look_for_file,
            (ring_size, len, now, deadline),
        ),
        r is Ready <==> len is Some && len->0 >= 512 + 2 * ring_size,
        r matches RetryStep::Pause(nanos) ==> nanos == 10_000_000 && now < deadline,
        r matches RetryStep::Failed(e) ==> e is TimedOut && now >= deadline,
{
}

} // verus!
