//! Listeners and the exchange with their clients. The socket is two queues of bytes.

use std::collections::VecDeque;

use shmem_ipc::bootstrap::{ClientStage, Exchange, ServerStage, StageOutcome, ACK};
use shmem_ipc::channel::{ChannelFile, OpenEvent, OpenOp, OpenStep};
use shmem_ipc::error::{IoError, IoErrorKind, IoFailure};
use shmem_ipc::connection::Released;
use shmem_ipc::header::{GlobalHeader, RingHeader, RingId, RingLine};
use shmem_ipc::listener::{
    accept_step, bad_name, connect_pipe_step, connect_step, connection_name, decode_name,
    encode_name, handshake_path, name_length, pipe_name, Meeting,
};
use shmem_ipc::pipe::{
    cancel_pending_accept, wait_for_pipe, wait_for_pipe_client, CancelStep, PendingAccept,
    PipeWait,
};
use shmem_ipc::platform::peer::PeerState;
use shmem_ipc::ring::{BlockingOp, ChannelStatus, RecvView, SendView, Step};
use shmem_ipc::wait::{ParkOp, RetryStep, WaitAction, WaitEvent};
use shmem_ipc::{
    Channel, ChannelConfig, Error, RecvHalf, Result, SendHalf, ShmemConnection, ShmemListener,
};

const MILLI: u128 = 1_000_000;

struct Shared {
    global: GlobalHeader,
    a: RingHeader,
    b: RingHeader,
    data_a: Vec<u8>,
    data_b: Vec<u8>,
}

impl Shared {
    fn new(file: &ChannelFile) -> Shared {
        let ring_size = file.global.ring_data_size as usize;
        Shared {
            global: file.global,
            a: file.ring_a,
            b: file.ring_b,
            data_a: vec![0; ring_size],
            data_b: vec![0; ring_size],
        }
    }

    fn header(&mut self, ring: RingId) -> &mut RingHeader {
        match ring {
            RingId::A => &mut self.a,
            RingId::B => &mut self.b,
        }
    }

    fn notify(&mut self, ring: RingId, line: RingLine) -> u32 {
        match line {
            RingLine::Writer => self.header(ring).writer.notify,
            RingLine::Reader => self.header(ring).reader.notify,
        }
    }

    fn status(&self) -> ChannelStatus {
        ChannelStatus { peer: PeerState::new(), state: self.global.state }
    }

    fn send_view(&mut self, ring: RingId) -> SendView {
        let read_cursor = self.header(ring).reader.read_cursor;
        SendView { status: self.status(), read_cursor }
    }

    fn recv_view(&mut self, ring: RingId) -> RecvView {
        let write_cursor = self.header(ring).writer.write_cursor;
        RecvView { write_cursor, status: self.status(), write_cursor_again: write_cursor }
    }
}

/// What performs an action of an operation that must not have to sleep.
fn perform(action: WaitAction, notify: u32) -> WaitEvent {
    match action {
        WaitAction::LoadNotify => WaitEvent::Notify(notify),
        WaitAction::ReadClock => WaitEvent::Clock(0),
        WaitAction::Sleep { .. } => panic!("asleep"),
        _ => WaitEvent::Proceed,
    }
}

trait Sends {
    fn step(
        &mut self,
        op: BlockingOp<ParkOp>,
        event: WaitEvent,
        view: &SendView,
        line: &mut shmem_ipc::header::WriteCursorLine,
        data: &mut [u8],
        payload: &[u8],
    ) -> (BlockingOp<ParkOp>, Step<()>);
}

impl Sends for ShmemConnection {
    fn step(
        &mut self,
        op: BlockingOp<ParkOp>,
        event: WaitEvent,
        view: &SendView,
        line: &mut shmem_ipc::header::WriteCursorLine,
        data: &mut [u8],
        payload: &[u8],
    ) -> (BlockingOp<ParkOp>, Step<()>) {
        self.send(op, event, view, line, data, payload)
    }
}

impl Sends for SendHalf {
    fn step(
        &mut self,
        op: BlockingOp<ParkOp>,
        event: WaitEvent,
        view: &SendView,
        line: &mut shmem_ipc::header::WriteCursorLine,
        data: &mut [u8],
        payload: &[u8],
    ) -> (BlockingOp<ParkOp>, Step<()>) {
        self.send(op, event, view, line, data, payload)
    }
}

trait Receives {
    fn step(
        &mut self,
        op: BlockingOp<ParkOp>,
        event: WaitEvent,
        view: &RecvView,
        line: &mut shmem_ipc::header::ReadCursorLine,
        data: &[u8],
    ) -> (BlockingOp<ParkOp>, Step<Vec<u8>>);
}

impl Receives for ShmemConnection {
    fn step(
        &mut self,
        op: BlockingOp<ParkOp>,
        event: WaitEvent,
        view: &RecvView,
        line: &mut shmem_ipc::header::ReadCursorLine,
        data: &[u8],
    ) -> (BlockingOp<ParkOp>, Step<Vec<u8>>) {
        self.recv(op, event, view, line, data)
    }
}

impl Receives for RecvHalf {
    fn step(
        &mut self,
        op: BlockingOp<ParkOp>,
        event: WaitEvent,
        view: &RecvView,
        line: &mut shmem_ipc::header::ReadCursorLine,
        data: &[u8],
    ) -> (BlockingOp<ParkOp>, Step<Vec<u8>>) {
        self.recv(op, event, view, line, data)
    }
}

fn send(end: &mut impl Sends, ring: RingId, shared: &mut Shared, payload: &[u8]) -> Result<()> {
    let mut op: BlockingOp<ParkOp> = BlockingOp::Start;
    let mut event = WaitEvent::Proceed;
    loop {
        let view = shared.send_view(ring);
        let mut line = shared.header(ring).writer;
        let data = match ring {
            RingId::A => &mut shared.data_a,
            RingId::B => &mut shared.data_b,
        };
        let (next, step) = end.step(op, event, &view, &mut line, data, payload);
        shared.header(ring).writer = line;
        op = next;
        match step {
            Step::Done { result, .. } => return result,
            Step::Act(on, action) => event = perform(action, shared.notify(ring, on)),
        }
    }
}

fn recv(end: &mut impl Receives, ring: RingId, shared: &mut Shared) -> Result<Vec<u8>> {
    let mut op: BlockingOp<ParkOp> = BlockingOp::Start;
    let mut event = WaitEvent::Proceed;
    loop {
        let view = shared.recv_view(ring);
        let mut line = shared.header(ring).reader;
        let data = match ring {
            RingId::A => &shared.data_a,
            RingId::B => &shared.data_b,
        };
        let (next, step) = end.step(op, event, &view, &mut line, data);
        shared.header(ring).reader = line;
        op = next;
        match step {
            Step::Done { result, .. } => return result,
            Step::Act(on, action) => event = perform(action, shared.notify(ring, on)),
        }
    }
}

fn open(name: &str, config: ChannelConfig, shared: &mut Shared) -> Result<Channel> {
    let mut op = OpenOp::Start;
    let mut event = OpenEvent::Clock(0);
    loop {
        let (next, step) = Channel::open_with_config(name, config, 100, op, event);
        op = next;
        event = match step {
            OpenStep::Look | OpenStep::SleepThenLook(_) => {
                OpenEvent::File { len: Some(u64::MAX), now: 0 }
            }
            OpenStep::Attach => OpenEvent::Header(shared.global),
            OpenStep::Exchange { from, to } => {
                let done = shared.global.state == from;
                if done {
                    shared.global.state = to;
                }
                OpenEvent::Exchanged(done)
            }
            OpenStep::Failed(e) => return Err(e),
            OpenStep::Opened { channel, client_pid } => {
                shared.global.client_pid = client_pid;
                return Ok(channel);
            }
        };
    }
}

struct Established {
    server: ShmemConnection,
    client: ShmemConnection,
    shared: Shared,
}

/// Runs both ends of an exchange in turn.
fn establish(listener: &mut ShmemListener, config: ChannelConfig) -> Established {
    let mut to_client: VecDeque<u8> = VecDeque::new();
    let mut to_server: VecDeque<u8> = VecDeque::new();
    let mut server = Exchange::Next(ServerStage::Identify);
    let mut client = Exchange::Next(ClientStage::Identify);
    let mut server_end = None;
    let mut client_end = None;
    let mut shared = None;
    let mut frame = Vec::new();
    let mut heard = String::new();
    loop {
        let mut moved = false;
        if let Exchange::Next(stage) = &server {
            let stage = *stage;
            let outcome = match stage {
                ServerStage::Identify | ServerStage::Watch => Some(StageOutcome::Done),
                ServerStage::Create => {
                    let (channel, file, bytes) = listener.handshake(99).unwrap();
                    shared = Some(Shared::new(&file));
                    server_end = Some(channel);
                    frame = bytes;
                    Some(StageOutcome::Done)
                }
                ServerStage::SendName => {
                    to_client.extend(frame.iter());
                    Some(StageOutcome::Done)
                }
                ServerStage::ReceiveAck => to_server.pop_front().map(StageOutcome::Byte),
                ServerStage::SendAck => {
                    to_client.push_back(ACK);
                    Some(StageOutcome::Done)
                }
            };
            if let Some(outcome) = outcome {
                server = stage.step(outcome);
                moved = true;
            }
        }
        if let Exchange::Next(stage) = &client {
            let stage = *stage;
            let outcome = match stage {
                ClientStage::Identify | ClientStage::Watch => Some(StageOutcome::Done),
                ClientStage::ReceiveName => {
                    if to_client.len() >= 2 {
                        let len = name_length([
                            to_client.pop_front().unwrap(),
                            to_client.pop_front().unwrap(),
                        ]);
                        let bytes: Vec<u8> = to_client.drain(..len).collect();
                        heard = decode_name(bytes).unwrap();
                        Some(StageOutcome::Done)
                    } else {
                        None
                    }
                }
                ClientStage::Open => {
                    let channel = open(&heard, config, shared.as_mut().unwrap());
                    client_end = Some(channel.unwrap());
                    Some(StageOutcome::Done)
                }
                ClientStage::SendAck => {
                    to_server.push_back(ACK);
                    Some(StageOutcome::Done)
                }
                ClientStage::ReceiveAck => to_client.pop_front().map(StageOutcome::Byte),
            };
            if let Some(outcome) = outcome {
                client = stage.step(outcome);
                moved = true;
            }
        }
        match (&server, &client) {
            (Exchange::Over(s), Exchange::Over(c)) => {
                assert!(s.is_ok() && c.is_ok());
                return Established {
                    server: server_end.unwrap().into_connection(),
                    client: client_end.unwrap().into_connection(),
                    shared: shared.unwrap(),
                };
            }
            _ => assert!(moved, "the exchange is stuck"),
        }
    }
}

#[test]
fn test_single_client() {
    let mut listener =
        ShmemListener::bind("test_ls_single", ChannelConfig::default(), Ok(())).unwrap();
    let Established { mut server, mut client, mut shared } =
        establish(&mut listener, ChannelConfig::default());
    send(&mut client, RingId::B, &mut shared, b"hello from client").unwrap();
    let msg = recv(&mut server, RingId::B, &mut shared).unwrap();
    assert_eq!(msg, b"hello from client");
    send(&mut server, RingId::A, &mut shared, b"hello from server").unwrap();
    let reply = recv(&mut client, RingId::A, &mut shared).unwrap();
    assert_eq!(reply, b"hello from server");
    assert_eq!(server.name(), "test_ls_single.conn.0");
    assert_eq!(client.name(), "test_ls_single.conn.0");
}

#[test]
fn test_multiple_clients_sequential() {
    let mut listener =
        ShmemListener::bind("test_ls_multi_seq", ChannelConfig::default(), Ok(())).unwrap();
    for i in 0u32..5 {
        let Established { mut server, mut client, mut shared } =
            establish(&mut listener, ChannelConfig::default());
        send(&mut client, RingId::B, &mut shared, &i.to_le_bytes()).unwrap();
        let msg = recv(&mut server, RingId::B, &mut shared).unwrap();
        let client_id = u32::from_le_bytes([msg[0], msg[1], msg[2], msg[3]]);
        assert_eq!(client_id, i);
        let ack = format!("ack_{client_id}");
        send(&mut server, RingId::A, &mut shared, ack.as_bytes()).unwrap();
        let reply = recv(&mut client, RingId::A, &mut shared).unwrap();
        assert_eq!(reply, format!("ack_{i}").as_bytes());
        assert_eq!(server.name(), format!("test_ls_multi_seq.conn.{i}"));
    }
}

#[test]
fn test_multiple_clients_concurrent() {
    let mut listener =
        ShmemListener::bind("test_ls_multi_conc", ChannelConfig::default(), Ok(())).unwrap();
    let mut clients: Vec<Established> = Vec::new();
    for i in 0u32..3 {
        let mut e = establish(&mut listener, ChannelConfig::default());
        send(&mut e.client, RingId::B, &mut e.shared, &i.to_le_bytes()).unwrap();
        clients.push(e);
    }
    for e in clients.iter_mut().rev() {
        let msg = recv(&mut e.server, RingId::B, &mut e.shared).unwrap();
        let client_id = u32::from_le_bytes([msg[0], msg[1], msg[2], msg[3]]);
        let ack = format!("ack_{client_id}");
        send(&mut e.server, RingId::A, &mut e.shared, ack.as_bytes()).unwrap();
    }
    for e in clients.iter_mut() {
        let reply = recv(&mut e.client, RingId::A, &mut e.shared).unwrap();
        assert_eq!(&reply[..4], b"ack_");
    }
}

#[test]
fn test_split_connection() {
    let config = ChannelConfig::default();
    let mut listener = ShmemListener::bind("test_ls_split", config, Ok(())).unwrap();
    let Established { server, client, mut shared } = establish(&mut listener, config);
    let mut server_guard = server.drop_guard();
    let mut client_guard = client.drop_guard();
    let (mut server_tx, mut server_rx) = server.split(&mut server_guard);
    let (mut client_tx, mut client_rx) = client.split(&mut client_guard);
    for i in 0u32..100 {
        send(&mut client_tx, RingId::B, &mut shared, &i.to_le_bytes()).unwrap();
        send(&mut server_tx, RingId::A, &mut shared, &i.to_le_bytes()).unwrap();
    }
    for i in 0u32..100 {
        let msg = recv(&mut server_rx, RingId::B, &mut shared).unwrap();
        assert_eq!(u32::from_le_bytes([msg[0], msg[1], msg[2], msg[3]]), i);
        let msg = recv(&mut client_rx, RingId::A, &mut shared).unwrap();
        assert_eq!(u32::from_le_bytes([msg[0], msg[1], msg[2], msg[3]]), i);
    }
    assert_eq!(server_tx.wait_spin_count(), 256);
    assert_eq!(server_rx.wait_spin_count(), 256);
}

#[test]
fn last_half_to_go_closes() {
    let config = ChannelConfig::default();
    let mut listener = ShmemListener::bind("halves", config, Ok(())).unwrap();
    let Established { server, client, mut shared } = establish(&mut listener, config);
    let mut guard = server.drop_guard();
    let mut client_guard = client.drop_guard();
    let (mut tx, rx) = server.split(&mut guard);
    let (_client_tx, mut client_rx) = client.split(&mut client_guard);

    // The receiving half goes: the sending one still works.
    drop(rx);
    let before = (shared.global, shared.a, shared.b);
    assert!(matches!(
        guard.release(&mut shared.global, &mut shared.a, &mut shared.b),
        Released::Kept
    ));
    assert_eq!((shared.global, shared.a, shared.b), before);
    send(&mut tx, RingId::A, &mut shared, b"still").unwrap();
    assert_eq!(recv(&mut client_rx, RingId::A, &mut shared).unwrap(), b"still");

    // The last one closes, and the server's file is to be removed.
    drop(tx);
    match guard.release(&mut shared.global, &mut shared.a, &mut shared.b) {
        Released::Closed { remove } => {
            assert_eq!(remove.as_deref(), Some("shmem_ipc_halves.conn.0"));
        }
        Released::Kept => panic!("nobody is left"),
    }
    assert_eq!(shared.global.state, 4);
    assert!(matches!(
        recv(&mut client_rx, RingId::A, &mut shared),
        Err(Error::ChannelClosed)
    ));
    client_guard.release(&mut shared.global, &mut shared.a, &mut shared.b);
    assert!(matches!(
        client_guard.release(&mut shared.global, &mut shared.a, &mut shared.b),
        Released::Closed { remove: None }
    ));
}

#[test]
fn test_accept_timeout() {
    let not_yet = IoFailure { kind: IoErrorKind::WouldBlock, error: IoError::Os(11) };
    let deadline = 100 * MILLI;
    let mut clock = 0u128;
    let result = loop {
        match accept_step(Err(not_yet), clock, deadline) {
            RetryStep::Ready => break Ok(()),
            RetryStep::Pause(nanos) => {
                assert_eq!(nanos, MILLI);
                clock += nanos;
            }
            RetryStep::Failed(e) => break Err(e),
        }
    };
    assert!(matches!(result, Err(Error::TimedOut)));
    assert!(clock >= 90 * MILLI);
    assert!(clock < 500 * MILLI);
}

#[test]
fn test_accept_timeout_then_multiple_clients_concurrent() {
    let config = ChannelConfig::default();
    let mut listener =
        ShmemListener::bind("test_ls_timeout_then_multi", config, Ok(())).unwrap();
    let not_yet = IoFailure { kind: IoErrorKind::WouldBlock, error: IoError::Os(11) };
    assert!(matches!(
        accept_step(Err(not_yet), 50 * MILLI, 50 * MILLI),
        RetryStep::Failed(Error::TimedOut)
    ));
    // A try that ran out of time uses no number up.
    let mut accepted = 0usize;
    for i in 0u32..5 {
        assert!(matches!(accept_step(Ok(()), 0, 0), RetryStep::Ready));
        let mut e = establish(&mut listener, ChannelConfig::default());
        assert_eq!(e.server.name(), format!("test_ls_timeout_then_multi.conn.{i}"));
        send(&mut e.client, RingId::B, &mut e.shared, &i.to_le_bytes()).unwrap();
        let msg = recv(&mut e.server, RingId::B, &mut e.shared).unwrap();
        let client_id = u32::from_le_bytes([msg[0], msg[1], msg[2], msg[3]]);
        let ack = format!("ack_{client_id}");
        send(&mut e.server, RingId::A, &mut e.shared, ack.as_bytes()).unwrap();
        let reply = recv(&mut e.client, RingId::A, &mut e.shared).unwrap();
        assert_eq!(reply, format!("ack_{i}").as_bytes());
        accepted += 1;
    }
    assert_eq!(accepted, 5, "listener did not accept all concurrent clients");
}

#[test]
fn test_successful_accept_primes_next_instance_before_next_poll() {
    let name = "test_ls_prime_next_accept";
    let mut listener = ShmemListener::bind(name, ChannelConfig::default(), Ok(())).unwrap();
    let short_connect_config =
        ChannelConfig { connect_timeout: 50 * MILLI, ..ChannelConfig::default() };
    // Whether an instance of the pipe is there for a client to connect to.
    let mut instance = false;
    let mut clock = 0u128;
    for i in 0u32..3 {
        let config = if i == 0 { ChannelConfig::default() } else { short_connect_config };
        let deadline = clock + config.connect_timeout;
        let mut connected = false;
        if i > 0 {
            // The next client connects before the server polls again.
            assert!(matches!(
                connect_pipe_step(instance, clock, deadline),
                RetryStep::Ready
            ));
            connected = true;
            clock += 200 * MILLI;
        }
        // The server polls: the first time it has to make an instance.
        instance = true;
        if !connected {
            assert!(matches!(
                connect_pipe_step(instance, clock, deadline),
                RetryStep::Ready
            ));
        }
        instance = false;
        let (result, pending) = wait_for_pipe(PipeWait::Finished(Ok(())));
        result.unwrap();
        if pending == PendingAccept::Renew {
            instance = true;
        }
        let mut e = establish(&mut listener, config);
        send(&mut e.client, RingId::B, &mut e.shared, &i.to_le_bytes()).unwrap();
        let msg = recv(&mut e.server, RingId::B, &mut e.shared).unwrap();
        let client_id = u32::from_le_bytes([msg[0], msg[1], msg[2], msg[3]]);
        assert_eq!(client_id, i);
        let ack = format!("ack_{client_id}");
        send(&mut e.server, RingId::A, &mut e.shared, ack.as_bytes()).unwrap();
        let reply = recv(&mut e.client, RingId::A, &mut e.shared).unwrap();
        assert_eq!(reply, format!("ack_{i}").as_bytes());
    }
}

#[test]
fn accepts_on_a_pipe() {
    let (result, pending) = wait_for_pipe(PipeWait::Finished(Ok(())));
    assert!(result.is_ok());
    assert_eq!(pending, PendingAccept::Renew);
    let (result, pending) = wait_for_pipe(PipeWait::TimedOut);
    assert!(matches!(result, Err(Error::TimedOut)));
    assert_eq!(pending, PendingAccept::Keep);
    let (result, pending) = wait_for_pipe(PipeWait::Finished(Err(Error::Io(IoError::Os(5)))));
    assert!(matches!(result, Err(Error::Io(IoError::Os(5)))));
    assert_eq!(pending, PendingAccept::Join);
    let (result, pending) = wait_for_pipe(PipeWait::Disconnected);
    match result {
        Err(Error::Io(IoError::Custom { kind, message })) => {
            assert_eq!(kind, IoErrorKind::BrokenPipe);
            assert_eq!(message, "named pipe accept thread disconnected");
        }
        _ => panic!("unexpected result"),
    }
    assert_eq!(pending, PendingAccept::Join);
}

#[test]
fn listener_that_cannot_bind() {
    assert!(matches!(
        ShmemListener::bind("busy", ChannelConfig::default(), Err(IoError::Os(98))),
        Err(Error::Io(IoError::Os(98)))
    ));
}

#[test]
fn listener_names() {
    assert_eq!(handshake_path("svc"), "/tmp/shmem_ipc_svc.sock");
    let socket = Some("/tmp/shmem_ipc_svc.sock".to_string());
    assert_eq!(ShmemListener::cleanup("svc", Meeting::Socket), socket);
    assert_eq!(ShmemListener::cleanup("svc", Meeting::Pipe), None);
    let listener = ShmemListener::bind("svc", ChannelConfig::default(), Ok(())).unwrap();
    assert_eq!(listener.path(Meeting::Socket), socket);
    assert_eq!(listener.path(Meeting::Pipe), None);
    assert_eq!(pipe_name("svc"), r"\\.\pipe\shmem_ipc_svc");
    assert_eq!(connection_name("svc", 0), "svc.conn.0");
    assert_eq!(connection_name("svc", u64::MAX), "svc.conn.18446744073709551615");
}

#[test]
fn refused_channel_uses_its_number_up() {
    let config = ChannelConfig { ring_size: 100, ..ChannelConfig::default() };
    let mut listener = ShmemListener::bind("odd", config, Ok(())).unwrap();
    for _ in 0..2 {
        assert!(matches!(
            listener.handshake(1),
            Err(Error::Io(IoError::Custom { kind: IoErrorKind::InvalidInput, .. }))
        ));
    }
}

#[test]
fn name_frames() {
    assert_eq!(encode_name("ab"), vec![2, 0, b'a', b'b']);
    assert_eq!(encode_name(""), vec![0, 0]);
    let long = "x".repeat(300);
    let frame = encode_name(&long);
    assert_eq!(&frame[..2], &[44, 1]);
    assert_eq!(name_length([44, 1]), 300);
    assert_eq!(decode_name(frame[2..].to_vec()).unwrap(), long);
    let text = "名前-\u{1F600}";
    assert_eq!(decode_name(encode_name(text)[2..].to_vec()).unwrap(), text);
    // Only the lowest 16 bits of the length are told.
    let too_long = "y".repeat(65536 + 5);
    assert_eq!(&encode_name(&too_long)[..2], &[5, 0]);
}

#[test]
fn name_that_is_not_text() {
    let cases: [(&[u8], usize, Option<usize>); 6] = [
        (&[0xFF, 0xFE], 0, Some(1)),
        (b"a\xC3", 1, None),
        (&[0xED, 0xA0, 0x80], 0, Some(1)),
        (b"abc\xE2\x82x", 3, Some(2)),
        (b"\xC3\xA9\xF0\x9F\x98", 2, None),
        (b"ok\xF0\x9F\x98 ", 2, Some(3)),
    ];
    for (bytes, index, len) in cases {
        let e = match decode_name(bytes.to_vec()) {
            Err(Error::Io(e)) => e,
            _ => panic!("accepted"),
        };
        match e {
            IoError::NotUtf8 { valid_up_to, error_len } => {
                assert_eq!((valid_up_to, error_len), (index, len));
            }
            _ => panic!("another error"),
        }
        assert_eq!(e.kind(), Some(IoErrorKind::InvalidData));
        let text = String::from_utf8(bytes.to_vec()).unwrap_err().to_string();
        assert_eq!(e.display(""), text);
    }
    assert!(matches!(
        bad_name(3, Some(2)),
        Error::Io(IoError::NotUtf8 { valid_up_to: 3, error_len: Some(2) })
    ));
}

#[test]
fn tries_to_connect() {
    let refused = IoFailure { kind: IoErrorKind::ConnectionRefused, error: IoError::Os(111) };
    assert!(matches!(connect_step(Ok(()), 9, 0), RetryStep::Ready));
    assert!(matches!(connect_step(Err(refused), 4, 5), RetryStep::Pause(10_000_000)));
    assert!(matches!(
        connect_step(Err(refused), 5, 5),
        RetryStep::Failed(Error::Io(IoError::Os(111)))
    ));
    assert!(matches!(connect_pipe_step(true, 9, 0), RetryStep::Ready));
    assert!(matches!(connect_pipe_step(false, 4, 5), RetryStep::Pause(10_000_000)));
    assert!(matches!(
        connect_pipe_step(false, 5, 5),
        RetryStep::Failed(Error::TimedOut)
    ));
    let broken = IoFailure { kind: IoErrorKind::Other, error: IoError::Os(24) };
    assert!(matches!(
        accept_step(Err(broken), 0, 5),
        RetryStep::Failed(Error::Io(IoError::Os(24)))
    ));
}

#[test]
fn client_on_a_pipe() {
    assert!(wait_for_pipe_client(Ok(())).is_ok());
    assert!(wait_for_pipe_client(Err(IoError::Os(535))).is_ok());
    assert!(matches!(
        wait_for_pipe_client(Err(IoError::Os(6))),
        Err(Error::Io(IoError::Os(6)))
    ));
}

#[test]
fn closing_a_listener_on_a_pipe() {
    assert_eq!(cancel_pending_accept(false, false, false), CancelStep::Nothing);
    assert_eq!(cancel_pending_accept(true, false, true), CancelStep::Join);
    assert_eq!(
        cancel_pending_accept(true, false, false),
        CancelStep::ConnectAndWait(50 * MILLI)
    );
    assert_eq!(cancel_pending_accept(true, true, true), CancelStep::Join);
    assert_eq!(cancel_pending_accept(true, true, false), CancelStep::Leave);
}

#[test]
fn peer_that_hangs_up_ends_the_exchange() {
    for kind in [
        IoErrorKind::UnexpectedEof,
        IoErrorKind::BrokenPipe,
        IoErrorKind::ConnectionReset,
    ] {
        let broken = StageOutcome::Broken(IoFailure { kind, error: IoError::Os(32) });
        assert!(matches!(
            ServerStage::ReceiveAck.step(broken),
            Exchange::Over(Err(Error::PeerDisconnected))
        ));
        assert!(matches!(
            ClientStage::ReceiveName.step(broken),
            Exchange::Over(Err(Error::PeerDisconnected))
        ));
        assert!(matches!(
            ClientStage::ReceiveAck.step(broken),
            Exchange::Over(Err(Error::PeerDisconnected))
        ));
    }
    let other = StageOutcome::Broken(IoFailure {
        kind: IoErrorKind::Other,
        error: IoError::Os(9),
    });
    assert!(matches!(
        ServerStage::SendName.step(other),
        Exchange::Over(Err(Error::Io(IoError::Os(9))))
    ));
}

#[test]
fn wrong_acknowledgement_ends_the_exchange() {
    for byte in [0u8, 2, 255] {
        match ServerStage::ReceiveAck.step(StageOutcome::Byte(byte)) {
            Exchange::Over(Err(Error::Io(IoError::Custom { kind, .. }))) => {
                assert_eq!(kind, IoErrorKind::InvalidData);
            }
            _ => panic!("accepted {byte}"),
        }
        assert!(matches!(
            ClientStage::ReceiveAck.step(StageOutcome::Byte(byte)),
            Exchange::Over(Err(Error::Io(_)))
        ));
    }
    assert!(matches!(
        ServerStage::ReceiveAck.step(StageOutcome::Byte(1)),
        Exchange::Next(ServerStage::SendAck)
    ));
    assert!(matches!(
        ClientStage::ReceiveAck.step(StageOutcome::Byte(1)),
        Exchange::Over(Ok(()))
    ));
}

#[test]
fn failed_setup_keeps_its_error() {
    let gone = StageOutcome::Failed(Error::PeerDisconnected);
    assert!(matches!(
        ServerStage::Identify.step(gone),
        Exchange::Over(Err(Error::PeerDisconnected))
    ));
    let unsupported = StageOutcome::Failed(Error::Io(IoError::Os(38)));
    assert!(matches!(
        ClientStage::Watch.step(unsupported),
        Exchange::Over(Err(Error::Io(IoError::Os(38))))
    ));
}
