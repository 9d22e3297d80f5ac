//! Operations in tasks, stepped by hand. A task that is dropped is one whose steps stop.

use shmem_ipc::bootstrap::{ServerStage, StageOutcome};
use shmem_ipc::error::{IoError, IoErrorKind, IoFailure};
use shmem_ipc::header::{RingHeader, RingLine};
use shmem_ipc::listener::{decode_name, name_length, Meeting};
use shmem_ipc::platform::peer::PeerState;
use shmem_ipc::ring::{ChannelStatus, RecvView, RingReceiver, RingSender, SendView};
use shmem_ipc::tokio::bridge::{
    wait_changed, wait_loop, BridgeAction, BridgePhase, ChangeAction, ChangePhase, RunningWait,
    WaitChanged, WaitChangedAction, WaitChangedEvent,
};
use shmem_ipc::tokio::listener::{
    connect_pipe_step, connect_step, wait_for_connection, AcceptEvent, AcceptStep, ShmemListener,
};
use shmem_ipc::tokio::{
    drain_on, drain_ready, map_timeout, recv_async, recv_into_async, recv_many_async, send_async,
    send_spin_count, wait_for_channel_ready, AsyncAction, AsyncEvent, AsyncOp, AsyncStep,
    DrainStep, ManyOp,
};
use shmem_ipc::wait::RetryStep;
use shmem_ipc::{ChannelConfig, Error, Result, DEFAULT_RING_DATA_SIZE};

const SPINS: u32 = 2;

/// One ring, and what its two ends see of the channel.
struct Ring {
    header: RingHeader,
    data: Vec<u8>,
    status: ChannelStatus,
}

impl Ring {
    fn new(size: usize) -> (RingSender, RingReceiver, Ring) {
        let ring = Ring {
            header: RingHeader::new(),
            data: vec![0; size],
            status: ChannelStatus { peer: PeerState::new(), state: 2 },
        };
        (RingSender::new(size), RingReceiver::new(size), ring)
    }

    fn send_view(&self) -> SendView {
        SendView { status: self.status, read_cursor: self.header.reader.read_cursor }
    }

    fn recv_view(&self) -> RecvView {
        let write_cursor = self.header.writer.write_cursor;
        RecvView { write_cursor, status: self.status, write_cursor_again: write_cursor }
    }

    fn kill_peer(&mut self) {
        let mut other = RingHeader::new();
        self.status.peer.finish(Ok(()), &mut self.header, &mut other);
    }
}

/// A result, or where the operation stands when the task has to wait.
enum Ran<T> {
    Done(Result<T>),
    Waits { observed: u32, op: AsyncOp },
}

fn event_of(action: AsyncAction, notify: u32) -> Option<AsyncEvent> {
    match action {
        AsyncAction::Look | AsyncAction::SpinLoop => Some(AsyncEvent::Proceed),
        AsyncAction::Note => Some(AsyncEvent::Noted(Ok(notify))),
        AsyncAction::WaitChanged { .. } => None,
    }
}

fn run_send(
    sender: &mut RingSender,
    ring: &mut Ring,
    payload: &[u8],
    mut op: AsyncOp,
    mut event: AsyncEvent,
) -> Ran<()> {
    loop {
        let view = ring.send_view();
        let line = &mut ring.header.writer;
        let (next, step) =
            send_async(sender, SPINS, op, event, &view, line, &mut ring.data, payload);
        op = next;
        match step {
            AsyncStep::Done(result) => return Ran::Done(result),
            AsyncStep::Act(_, action) => match event_of(action, ring.header.reader.notify) {
                Some(next) => event = next,
                None => match action {
                    AsyncAction::WaitChanged { observed } => {
                        return Ran::Waits { observed, op };
                    }
                    _ => unreachable!(),
                },
            },
        }
    }
}

fn send(sender: &mut RingSender, ring: &mut Ring, payload: &[u8]) -> Ran<()> {
    run_send(sender, ring, payload, AsyncOp::new(SPINS), AsyncEvent::Proceed)
}

fn sent(sender: &mut RingSender, ring: &mut Ring, payload: &[u8]) -> Result<()> {
    match send(sender, ring, payload) {
        Ran::Done(result) => result,
        Ran::Waits { .. } => panic!("had to wait"),
    }
}

fn run_recv(
    receiver: &mut RingReceiver,
    ring: &mut Ring,
    mut op: AsyncOp,
    mut event: AsyncEvent,
) -> Ran<Vec<u8>> {
    loop {
        let view = ring.recv_view();
        let line = &mut ring.header.reader;
        let (next, step) = recv_async(receiver, SPINS, op, event, &view, line, &ring.data);
        op = next;
        match step {
            AsyncStep::Done(result) => return Ran::Done(result),
            AsyncStep::Act(_, action) => match event_of(action, ring.header.writer.notify) {
                Some(next) => event = next,
                None => match action {
                    AsyncAction::WaitChanged { observed } => {
                        return Ran::Waits { observed, op };
                    }
                    _ => unreachable!(),
                },
            },
        }
    }
}

fn recv(receiver: &mut RingReceiver, ring: &mut Ring) -> Ran<Vec<u8>> {
    run_recv(receiver, ring, AsyncOp::new(SPINS), AsyncEvent::Proceed)
}

fn received(receiver: &mut RingReceiver, ring: &mut Ring) -> Result<Vec<u8>> {
    match recv(receiver, ring) {
        Ran::Done(result) => result,
        Ran::Waits { .. } => panic!("had to wait"),
    }
}

fn received_into(receiver: &mut RingReceiver, ring: &mut Ring, buf: &mut [u8]) -> Result<usize> {
    let view = ring.recv_view();
    let line = &mut ring.header.reader;
    let op = AsyncOp::new(SPINS);
    let (_, step) = recv_into_async(
        receiver,
        SPINS,
        op,
        AsyncEvent::Proceed,
        &view,
        line,
        &ring.data,
        buf,
    );
    match step {
        AsyncStep::Done(result) => result,
        AsyncStep::Act(..) => panic!("had to wait"),
    }
}

/// `None` where the task has to wait.
fn recv_many(
    receiver: &mut RingReceiver,
    ring: &mut Ring,
    out: &mut Vec<Vec<u8>>,
    max: usize,
) -> Option<Result<usize>> {
    let mut many = ManyOp::new(SPINS);
    let mut event = AsyncEvent::Proceed;
    loop {
        let view = ring.recv_view();
        let line = &mut ring.header.reader;
        let (next, step) =
            recv_many_async(receiver, SPINS, max, many, event, &view, line, &ring.data, out);
        many = next;
        match step {
            AsyncStep::Done(result) => return Some(result),
            AsyncStep::Act(_, action) => match event_of(action, ring.header.writer.notify) {
                Some(next) => event = next,
                None => return None,
            },
        }
    }
}

fn drain(
    receiver: &mut RingReceiver,
    ring: &mut Ring,
    out: &mut Vec<Vec<u8>>,
    max: usize,
) -> Result<usize> {
    let write_cursor = ring.header.writer.write_cursor;
    drain_ready(receiver, write_cursor, &mut ring.header.reader, &ring.data, out, max)
}

#[test]
fn tokio_channel_basic_send_recv() {
    let (mut server_tx, mut client_rx, mut a) = Ring::new(DEFAULT_RING_DATA_SIZE);
    let (mut client_tx, mut server_rx, mut b) = Ring::new(DEFAULT_RING_DATA_SIZE);
    sent(&mut server_tx, &mut a, b"hello").unwrap();
    assert_eq!(received(&mut client_rx, &mut a).unwrap(), b"hello");
    sent(&mut client_tx, &mut b, b"world").unwrap();
    assert_eq!(received(&mut server_rx, &mut b).unwrap(), b"world");
}

#[test]
fn tokio_connection_split_send_recv() {
    let mut listener =
        ShmemListener::bind("tokio_split", ChannelConfig::default(), Ok(())).unwrap();
    let (channel, _file, frame) = listener.finish_accept(1).unwrap();
    let len = name_length([frame[0], frame[1]]);
    assert_eq!(len, frame.len() - 2);
    assert_eq!(decode_name(frame[2..].to_vec()).unwrap(), "tokio_split.conn.0");
    let connection = channel.into_connection();
    let mut guard = connection.drop_guard();
    let (mut tx, mut rx, wait) = connection.into_rings(&mut guard);
    assert_eq!(wait.spin_count, 256);
    let ring_size = ChannelConfig::default().ring_size;
    let (mut client_tx, _, mut b) = Ring::new(ring_size);
    let (_, mut client_rx, mut a) = Ring::new(ring_size);
    sent(&mut client_tx, &mut b, b"ping").unwrap();
    assert_eq!(received(&mut rx, &mut b).unwrap(), b"ping");
    sent(&mut tx, &mut a, b"pong").unwrap();
    assert_eq!(received(&mut client_rx, &mut a).unwrap(), b"pong");
}

#[test]
fn tokio_recv_cancel_does_not_advance_cursor() {
    let (mut tx, mut rx, mut ring) = Ring::new(DEFAULT_RING_DATA_SIZE);
    let before = ring.header;
    // The task is dropped while it waits.
    assert!(matches!(recv(&mut rx, &mut ring), Ran::Waits { observed: 0, .. }));
    assert_eq!(ring.header, before);
    sent(&mut tx, &mut ring, b"payload").unwrap();
    assert_eq!(received(&mut rx, &mut ring).unwrap(), b"payload");
}

#[test]
fn tokio_send_cancel_does_not_publish() {
    let (mut tx, mut rx, mut ring) = Ring::new(256);
    let first = vec![0xAB; 180];
    let second = vec![0xCD; 180];
    sent(&mut tx, &mut ring, &first).unwrap();
    let header = ring.header;
    let data = ring.data.clone();
    assert!(matches!(send(&mut tx, &mut ring, &second), Ran::Waits { .. }));
    assert_eq!(ring.header, header);
    assert_eq!(ring.data, data);
    assert_eq!(received(&mut rx, &mut ring).unwrap(), first);
    assert!(
        matches!(recv(&mut rx, &mut ring), Ran::Waits { .. }),
        "expected timeout after cancelled send"
    );
    let (mut client_tx, mut server_rx, mut back) = Ring::new(256);
    sent(&mut client_tx, &mut back, b"ack").unwrap();
    assert_eq!(received(&mut server_rx, &mut back).unwrap(), b"ack");
}

#[test]
fn tokio_listener_accept_timeout_then_connect() {
    let mut listener =
        ShmemListener::bind("tokio_listener_timeout", ChannelConfig::default(), Ok(())).unwrap();
    assert!(matches!(listener.accept(AcceptEvent::Begin), AcceptStep::Wait));
    assert!(matches!(
        listener.accept(AcceptEvent::Waited(None)),
        AcceptStep::Done(Err(Error::TimedOut))
    ));

    assert!(matches!(listener.accept(AcceptEvent::Begin), AcceptStep::Wait));
    let mut step = listener.accept(AcceptEvent::Waited(Some(Ok(()))));
    let mut created = None;
    loop {
        let outcome = match step {
            AcceptStep::Stage(ServerStage::Create) => {
                created = Some(listener.finish_accept(1).unwrap());
                StageOutcome::Done
            }
            AcceptStep::Stage(ServerStage::ReceiveAck) => StageOutcome::Byte(1),
            AcceptStep::Stage(_) => StageOutcome::Done,
            AcceptStep::Done(result) => {
                result.unwrap();
                break;
            }
            AcceptStep::Wait => panic!("there is a client"),
        };
        step = listener.accept(AcceptEvent::Stage(outcome));
    }
    let (channel, file, _) = created.unwrap();
    assert_eq!(file.file_name, "shmem_ipc_tokio_listener_timeout.conn.0");
    let connection = channel.into_connection();
    let mut guard = connection.drop_guard();
    let (mut tx, mut rx, _) = connection.into_rings(&mut guard);
    let (mut client_tx, _, mut b) = Ring::new(DEFAULT_RING_DATA_SIZE);
    let (_, mut client_rx, mut a) = Ring::new(DEFAULT_RING_DATA_SIZE);
    sent(&mut client_tx, &mut b, b"hello").unwrap();
    assert_eq!(received(&mut rx, &mut b).unwrap(), b"hello");
    sent(&mut tx, &mut a, b"world").unwrap();
    assert_eq!(received(&mut client_rx, &mut a).unwrap(), b"world");
}

#[test]
fn waits_for_a_client_in_a_task() {
    assert!(matches!(wait_for_connection(None), Err(Error::TimedOut)));
    assert!(matches!(wait_for_connection(Some(Ok(()))), Ok(())));
    assert!(matches!(
        wait_for_connection(Some(Err(IoError::Os(24)))),
        Err(Error::Io(IoError::Os(24)))
    ));
    let listener = ShmemListener::bind("t", ChannelConfig::default(), Ok(())).unwrap();
    let socket = Some("/tmp/shmem_ipc_t.sock".to_string());
    assert_eq!(listener.path(Meeting::Socket), socket);
    assert_eq!(listener.path(Meeting::Pipe), None);
    assert_eq!(ShmemListener::cleanup("t", Meeting::Socket), socket);
    assert_eq!(ShmemListener::cleanup("t", Meeting::Pipe), None);
}

#[test]
fn cancelled_accept_keeps_its_client() {
    let mut listener = ShmemListener::bind("kept", ChannelConfig::default(), Ok(())).unwrap();
    assert!(matches!(listener.accept(AcceptEvent::Begin), AcceptStep::Wait));
    // Dropped before a client came: the next one waits.
    assert!(matches!(listener.accept(AcceptEvent::Begin), AcceptStep::Wait));
    listener.accept(AcceptEvent::Waited(Some(Ok(()))));
    for expected in [ServerStage::Identify, ServerStage::Create, ServerStage::Watch] {
        // Dropped at every stage: the next one goes on with it.
        for _ in 0..2 {
            match listener.accept(AcceptEvent::Begin) {
                AcceptStep::Stage(stage) => assert_eq!(stage, expected),
                _ => panic!("the client is lost"),
            }
        }
        listener.accept(AcceptEvent::Stage(StageOutcome::Done));
    }
    assert!(matches!(
        listener.accept(AcceptEvent::Begin),
        AcceptStep::Stage(ServerStage::SendName)
    ));
    // The client is answered for, and the listener goes on.
    let gone = StageOutcome::Failed(Error::PeerDisconnected);
    assert!(matches!(
        listener.accept(AcceptEvent::Stage(gone)),
        AcceptStep::Done(Err(Error::PeerDisconnected))
    ));
    assert!(matches!(listener.accept(AcceptEvent::Begin), AcceptStep::Wait));
}

#[test]
fn tokio_channel_ping_pong_stress() {
    let (mut server_tx, mut client_rx, mut a) = Ring::new(DEFAULT_RING_DATA_SIZE);
    let (mut client_tx, mut server_rx, mut b) = Ring::new(DEFAULT_RING_DATA_SIZE);
    let rounds = 10_000usize;
    let payload = [0xABu8; 64];
    let mut buf = vec![0u8; 64];
    let mut recv_buf = [0u8; 64];
    for _ in 0..rounds {
        sent(&mut server_tx, &mut a, &payload).unwrap();
        let n = received_into(&mut client_rx, &mut a, &mut buf).unwrap();
        sent(&mut client_tx, &mut b, &buf[..n]).unwrap();
        let n = received_into(&mut server_rx, &mut b, &mut recv_buf).unwrap();
        assert_eq!(&recv_buf[..n], &payload);
    }
}

#[test]
fn tokio_recv_many_drains_available_messages() {
    let (mut tx, mut rx, mut ring) = Ring::new(DEFAULT_RING_DATA_SIZE);
    sent(&mut tx, &mut ring, b"one").unwrap();
    sent(&mut tx, &mut ring, b"two").unwrap();
    sent(&mut tx, &mut ring, b"three").unwrap();
    let mut batch = Vec::new();
    let count = recv_many(&mut rx, &mut ring, &mut batch, 8).unwrap().unwrap();
    assert_eq!(count, 3);
    assert_eq!(
        batch,
        vec![b"one".to_vec(), b"two".to_vec(), b"three".to_vec()]
    );
    let drained = drain(&mut rx, &mut ring, &mut batch, 8).unwrap();
    assert_eq!(drained, 0);
}

#[test]
fn batch_comes_before_the_end() {
    for graceful in [false, true] {
        let (mut tx, mut rx, mut ring) = Ring::new(256);
        for message in [&b"one"[..], b"two", b"three"] {
            sent(&mut tx, &mut ring, message).unwrap();
        }
        ring.kill_peer();
        if graceful {
            ring.status.state = 4;
        }
        let mut batch = Vec::new();
        let count = recv_many(&mut rx, &mut ring, &mut batch, 16).unwrap().unwrap();
        assert_eq!(count, 3);
        assert_eq!(drain(&mut rx, &mut ring, &mut batch, 16).unwrap(), 0);
        let end = recv_many(&mut rx, &mut ring, &mut batch, 16).unwrap();
        if graceful {
            assert!(matches!(end, Err(Error::ChannelClosed)));
        } else {
            assert!(matches!(end, Err(Error::PeerDisconnected)));
        }
        assert_eq!(batch.len(), 3);
    }
}

#[test]
fn failed_watch_ends_a_batch_too() {
    let (mut tx, mut rx, mut ring) = Ring::new(256);
    sent(&mut tx, &mut ring, b"one").unwrap();
    let mut other = RingHeader::new();
    ring.status.peer.finish(Err(IoError::Os(5)), &mut ring.header, &mut other);
    let mut batch = Vec::new();
    assert_eq!(recv_many(&mut rx, &mut ring, &mut batch, 16).unwrap().unwrap(), 1);
    assert!(matches!(
        recv_many(&mut rx, &mut ring, &mut batch, 16).unwrap(),
        Err(Error::Io(IoError::Os(5)))
    ));
}

#[test]
fn batch_of_a_given_size() {
    let (mut tx, mut rx, mut ring) = Ring::new(256);
    for i in 0u8..5 {
        sent(&mut tx, &mut ring, &[i]).unwrap();
    }
    let mut batch = Vec::new();
    assert_eq!(recv_many(&mut rx, &mut ring, &mut batch, 0).unwrap().unwrap(), 0);
    assert_eq!(recv_many(&mut rx, &mut ring, &mut batch, 2).unwrap().unwrap(), 2);
    assert_eq!(drain(&mut rx, &mut ring, &mut batch, 2).unwrap(), 2);
    assert_eq!(drain(&mut rx, &mut ring, &mut batch, 2).unwrap(), 1);
    assert_eq!(batch, vec![vec![0], vec![1], vec![2], vec![3], vec![4]]);
    assert!(recv_many(&mut rx, &mut ring, &mut batch, 2).is_none());
}

#[test]
fn message_out_of_sequence_is_not_taken() {
    let (mut tx, mut rx, mut ring) = Ring::new(256);
    sent(&mut tx, &mut ring, b"good").unwrap();
    sent(&mut tx, &mut ring, b"bad").unwrap();
    // The second record's sequence number.
    ring.data[12 + 4] = 9;
    let mut batch = Vec::new();
    assert!(matches!(
        drain(&mut rx, &mut ring, &mut batch, 8),
        Err(Error::SequenceMismatch { expected: 2, got: 9 })
    ));
    assert_eq!(batch, vec![b"good".to_vec()]);
    let cursor = ring.header.reader.read_cursor;
    assert!(matches!(
        recv_many(&mut rx, &mut ring, &mut batch, 8).unwrap(),
        Err(Error::SequenceMismatch { expected: 2, got: 9 })
    ));
    assert_eq!(ring.header.reader.read_cursor, cursor);
}

#[test]
fn task_notes_the_word_before_it_waits() {
    let (mut tx, mut rx, mut ring) = Ring::new(64);
    ring.header.writer.notify = 7;
    let (observed, op) = match recv(&mut rx, &mut ring) {
        Ran::Waits { observed, op } => (observed, op),
        Ran::Done(_) => panic!("nothing to receive"),
    };
    assert_eq!(observed, 7);
    assert_eq!(op, AsyncOp::Waiting);
    sent(&mut tx, &mut ring, b"x").unwrap();
    assert_eq!(ring.header.writer.notify, 8);
    match run_recv(&mut rx, &mut ring, op, AsyncEvent::Changed(Ok(()))) {
        Ran::Done(Ok(message)) => assert_eq!(message, b"x"),
        _ => panic!("not received"),
    }
}

#[test]
fn message_that_comes_after_the_note_is_found_at_once() {
    let (mut tx, mut rx, mut ring) = Ring::new(64);
    let mut op = AsyncOp::new(0);
    let view = ring.recv_view();
    let (next, step) = recv_async(
        &mut rx,
        0,
        op,
        AsyncEvent::Proceed,
        &view,
        &mut ring.header.reader,
        &ring.data,
    );
    op = next;
    assert!(matches!(step, AsyncStep::Act(RingLine::Writer, AsyncAction::Note)));
    sent(&mut tx, &mut ring, b"late").unwrap();
    let view = ring.recv_view();
    let (_, step) = recv_async(
        &mut rx,
        0,
        op,
        AsyncEvent::Noted(Ok(0)),
        &view,
        &mut ring.header.reader,
        &ring.data,
    );
    assert!(matches!(step, AsyncStep::Done(Ok(ref message)) if message == b"late"));
}

#[test]
fn broken_bridge_ends_an_operation() {
    let (mut tx, mut rx, mut ring) = Ring::new(64);
    sent(&mut tx, &mut ring, b"x").unwrap();
    let broken = Error::Io(IoError::Os(11));
    assert!(matches!(
        run_recv(&mut rx, &mut ring, AsyncOp::Noting, AsyncEvent::Noted(Err(broken))),
        Ran::Done(Err(Error::Io(IoError::Os(11))))
    ));
    assert!(matches!(
        run_send(&mut tx, &mut ring, b"y", AsyncOp::Waiting, AsyncEvent::Changed(Err(broken))),
        Ran::Done(Err(Error::Io(IoError::Os(11))))
    ));
    assert_eq!(ring.header.reader.read_cursor, 0);
    assert_eq!(ring.header.writer.write_cursor, 9);
}

#[test]
fn blocked_send_goes_on_once_there_is_room() {
    let (mut tx, mut rx, mut ring) = Ring::new(256);
    sent(&mut tx, &mut ring, &[1; 248]).unwrap();
    let (observed, op) = match send(&mut tx, &mut ring, b"next") {
        Ran::Waits { observed, op } => (observed, op),
        Ran::Done(_) => panic!("there is no room"),
    };
    assert_eq!(received(&mut rx, &mut ring).unwrap(), vec![1; 248]);
    assert_ne!(ring.header.reader.notify, observed);
    match run_send(&mut tx, &mut ring, b"next", op, AsyncEvent::Changed(Ok(()))) {
        Ran::Done(result) => result.unwrap(),
        Ran::Waits { .. } => panic!("there is room"),
    }
    assert_eq!(received(&mut rx, &mut ring).unwrap(), b"next");
}

#[test]
fn looks_of_a_task() {
    assert_eq!(send_spin_count(0), 0);
    assert_eq!(send_spin_count(32), 32);
    assert_eq!(send_spin_count(33), 32);
    assert_eq!(send_spin_count(512), 32);
    // Two rounds of looks, with the note between them.
    let (_tx, mut rx, mut ring) = Ring::new(64);
    let mut op = AsyncOp::new(SPINS);
    let mut event = AsyncEvent::Proceed;
    let mut actions = Vec::new();
    loop {
        let view = ring.recv_view();
        let line = &mut ring.header.reader;
        let (next, step) = recv_async(&mut rx, SPINS, op, event, &view, line, &ring.data);
        op = next;
        match step {
            AsyncStep::Act(_, action) => {
                actions.push(action);
                match event_of(action, 3) {
                    Some(next) => event = next,
                    None => break,
                }
            }
            AsyncStep::Done(_) => panic!("nothing to receive"),
        }
    }
    assert_eq!(
        actions,
        vec![
            AsyncAction::SpinLoop,
            AsyncAction::SpinLoop,
            AsyncAction::Note,
            AsyncAction::SpinLoop,
            AsyncAction::SpinLoop,
            AsyncAction::WaitChanged { observed: 3 },
        ]
    );
}

#[test]
fn time_limits() {
    assert!(matches!(map_timeout::<u32>(None), Err(Error::TimedOut)));
    assert!(matches!(map_timeout(Some(Ok(5u32))), Ok(5)));
    assert!(matches!(
        map_timeout::<u32>(Some(Err(Error::ChannelClosed))),
        Err(Error::ChannelClosed)
    ));
    let config = ChannelConfig { ring_size: 64, ..ChannelConfig::default() };
    let total = shmem_ipc::header::RingOffsets::new(64).total_size as u64;
    assert!(matches!(
        wait_for_channel_ready(&config, Some(total), 9, 5),
        RetryStep::Ready
    ));
    assert!(matches!(
        wait_for_channel_ready(&config, Some(total - 1), 4, 5),
        RetryStep::Pause(10_000_000)
    ));
    assert!(matches!(
        wait_for_channel_ready(&config, None, 5, 5),
        RetryStep::Failed(Error::TimedOut)
    ));
}

#[test]
fn tries_to_connect_in_a_task() {
    let failure = |kind, code| Err(IoFailure { kind, error: IoError::Os(code) });
    assert!(matches!(connect_step(Ok(()), 9, 0), RetryStep::Ready));
    for kind in [IoErrorKind::NotFound, IoErrorKind::ConnectionRefused] {
        assert!(matches!(
            connect_step(failure(kind, 2), 4, 5),
            RetryStep::Pause(10_000_000)
        ));
        assert!(matches!(
            connect_step(failure(kind, 2), 5, 5),
            RetryStep::Failed(Error::Io(IoError::Os(2)))
        ));
    }
    assert!(matches!(
        connect_step(failure(IoErrorKind::Other, 13), 4, 5),
        RetryStep::Failed(Error::Io(IoError::Os(13)))
    ));
    assert!(matches!(
        connect_pipe_step(failure(IoErrorKind::Other, 231), 4, 5),
        RetryStep::Pause(10_000_000)
    ));
    assert!(matches!(
        connect_pipe_step(failure(IoErrorKind::ConnectionRefused, 5), 4, 5),
        RetryStep::Failed(Error::Io(IoError::Os(5)))
    ));
    assert!(matches!(
        connect_pipe_step(failure(IoErrorKind::NotFound, 2), 4, 5),
        RetryStep::Pause(_)
    ));
    assert!(matches!(connect_pipe_step(Ok(()), 9, 5), RetryStep::Ready));
}

#[derive(Clone, Copy)]
enum Direction {
    Recv,
    Send,
}

#[derive(Clone, Copy)]
enum Gap {
    Startup,
    Rearm,
}

const FULL_RING: [u8; 248] = [0xAB; 248];

/// One end of a connection whose task waits, and the peer.
struct Pending {
    direction: Direction,
    tx: RingSender,
    rx: RingReceiver,
    ring: Ring,
}

impl Pending {
    fn word(&self) -> u32 {
        match self.direction {
            Direction::Recv => self.ring.header.writer.notify,
            Direction::Send => self.ring.header.reader.notify,
        }
    }

    /// Begins the operation, which has to wait; the task listens, looks and waits.
    fn begin(&mut self) -> (u32, AsyncOp) {
        let waits = match self.direction {
            Direction::Recv => match recv(&mut self.rx, &mut self.ring) {
                Ran::Waits { observed, op } => Some((observed, op)),
                Ran::Done(_) => None,
            },
            Direction::Send => match send(&mut self.tx, &mut self.ring, &FULL_RING) {
                Ran::Waits { observed, op } => Some((observed, op)),
                Ran::Done(_) => None,
            },
        };
        let (observed, op) = waits.expect("the operation is over");
        let (phase, action) = wait_changed(ChangePhase::Look, observed, self.word());
        assert_eq!(action, ChangeAction::Listen);
        let (_, action) = wait_changed(phase, observed, self.word());
        assert_eq!(action, ChangeAction::Await);
        (observed, op)
    }

    /// The task was woken: the operation ends.
    fn finish(&mut self, observed: u32, op: AsyncOp) -> Result<Vec<u8>> {
        let (_, action) = wait_changed(ChangePhase::Look, observed, self.word());
        assert_eq!(action, ChangeAction::Done);
        let changed = AsyncEvent::Changed(Ok(()));
        match self.direction {
            Direction::Recv => match run_recv(&mut self.rx, &mut self.ring, op, changed) {
                Ran::Done(result) => result,
                Ran::Waits { .. } => panic!("operation remained pending"),
            },
            Direction::Send => {
                match run_send(&mut self.tx, &mut self.ring, &FULL_RING, op, changed) {
                    Ran::Done(result) => result.map(|()| Vec::new()),
                    Ran::Waits { .. } => panic!("operation remained pending"),
                }
            }
        }
    }

    /// What the peer does for the operation to end.
    fn advance(&mut self) {
        match self.direction {
            Direction::Recv => sent(&mut self.tx, &mut self.ring, b"warmup").unwrap(),
            Direction::Send => {
                assert_eq!(received(&mut self.rx, &mut self.ring).unwrap(), FULL_RING);
            }
        }
    }
}

/// The peer dies in a gap of the bridge: before it has parked for the first time, or before it
/// parks again. Its notification is newer than the bridge's baseline, so it is handed on.
fn peer_death_at_gap(direction: Direction, gap: Gap) {
    let (tx, rx, ring) = Ring::new(256);
    let mut pending = Pending { direction, tx, rx, ring };
    if matches!(direction, Direction::Send) {
        sent(&mut pending.tx, &mut pending.ring, &FULL_RING).unwrap();
    }
    let (mut bridge, action) = wait_loop(BridgePhase::Start, pending.word(), false);
    assert_eq!(action, BridgeAction::Report);

    if matches!(gap, Gap::Rearm) {
        let (observed, op) = pending.begin();
        let (parked, action) = wait_loop(bridge, pending.word(), false);
        assert_eq!(action, BridgeAction::Park);
        let (asleep, action) = wait_loop(parked, pending.word(), false);
        assert_eq!(action, BridgeAction::Sleep { expected: observed });
        pending.advance();
        let (rearming, action) = wait_loop(asleep, pending.word(), false);
        assert_eq!(action, BridgeAction::Wake);
        bridge = rearming;
        let result = pending.finish(observed, op).unwrap();
        if matches!(direction, Direction::Recv) {
            assert_eq!(result, b"warmup");
        }
    }

    let (observed, op) = pending.begin();
    pending.ring.kill_peer();
    assert_eq!(pending.word(), observed.wrapping_add(1));
    let (parked, action) = wait_loop(bridge, pending.word(), false);
    assert_eq!(action, BridgeAction::Park);
    let (_, action) = wait_loop(parked, pending.word(), false);
    assert_eq!(action, BridgeAction::UnparkAndWake);
    let result = pending.finish(observed, op);
    assert!(matches!(result, Err(Error::PeerDisconnected)));
    assert_eq!(
        pending.word(),
        observed.wrapping_add(1),
        "completion must not need another notification"
    );
}

#[test]
fn peer_death_before_first_recv_park() {
    peer_death_at_gap(Direction::Recv, Gap::Startup);
}

#[test]
fn peer_death_before_recv_rearm() {
    peer_death_at_gap(Direction::Recv, Gap::Rearm);
}

#[test]
fn peer_death_before_first_send_park() {
    peer_death_at_gap(Direction::Send, Gap::Startup);
}

#[test]
fn peer_death_before_send_rearm() {
    peer_death_at_gap(Direction::Send, Gap::Rearm);
}

#[test]
fn bridge_stops_wherever_it_stands() {
    assert_eq!(
        wait_loop(BridgePhase::Top { observed: 1 }, 1, true),
        (BridgePhase::Over, BridgeAction::End)
    );
    assert_eq!(
        wait_loop(BridgePhase::Parked { observed: 1 }, 2, true),
        (BridgePhase::Over, BridgeAction::UnparkAndEnd)
    );
    assert_eq!(
        wait_loop(BridgePhase::Woken { observed: 1 }, 2, true),
        (BridgePhase::Over, BridgeAction::End)
    );
    assert_eq!(
        wait_loop(BridgePhase::Woken { observed: 1 }, 1, false),
        (BridgePhase::Top { observed: 1 }, BridgeAction::Look)
    );
    assert_eq!(RunningWait::stop(4), 5);
    assert_eq!(RunningWait::stop(u32::MAX), 0);
}

#[test]
fn bridge_that_cannot_start() {
    assert!(RunningWait::spawn(Ok(()), true).is_ok());
    let e = RunningWait::spawn(Err(11), false).unwrap_err();
    assert_eq!(
        e.display("Resource temporarily unavailable"),
        "I/O error: failed to spawn async wait bridge: Resource temporarily unavailable (os error 11)"
    );
    let e = RunningWait::spawn(Ok(()), false).unwrap_err();
    assert_eq!(
        e.display(""),
        "I/O error: async wait bridge failed to start: receiving on a closed channel"
    );
}

#[test]
fn task_listens_before_its_last_look() {
    assert_eq!(wait_changed(ChangePhase::Look, 3, 4).1, ChangeAction::Done);
    let (phase, action) = wait_changed(ChangePhase::Look, 3, 3);
    assert_eq!((phase, action), (ChangePhase::Listening, ChangeAction::Listen));
    assert_eq!(wait_changed(phase, 3, 4).1, ChangeAction::Done);
    assert_eq!(
        wait_changed(phase, 3, 3),
        (ChangePhase::Look, ChangeAction::Await)
    );
}

#[test]
fn task_arms_before_its_last_look() {
    let mut wait = WaitChanged::new(3);
    assert!(matches!(
        wait.poll(WaitChangedEvent::Notify(3)),
        WaitChangedAction::Prepare
    ));
    assert!(matches!(
        wait.poll(WaitChangedEvent::Prepared(Ok(()))),
        WaitChangedAction::Load
    ));
    assert!(matches!(
        wait.poll(WaitChangedEvent::Notify(3)),
        WaitChangedAction::Poll
    ));
    assert!(matches!(
        wait.poll(WaitChangedEvent::Pending),
        WaitChangedAction::Suspend
    ));
    assert!(matches!(
        wait.poll(WaitChangedEvent::Signaled(Ok(()))),
        WaitChangedAction::Load
    ));
    assert!(matches!(
        wait.poll(WaitChangedEvent::Notify(4)),
        WaitChangedAction::Finish { disarm: true, result: Ok(()) }
    ));
    assert!(!wait.disarm());
    assert!(matches!(
        wait.poll(WaitChangedEvent::Prepared(Err(IoError::Os(6)))),
        WaitChangedAction::Finish { disarm: true, result: Err(Error::Io(IoError::Os(6))) }
    ));
    assert!(!wait.disarm());
    let mut armed = WaitChanged { observed: 1, armed: true };
    assert!(matches!(
        armed.poll(WaitChangedEvent::Signaled(Err(IoError::Os(6)))),
        WaitChangedAction::Finish { disarm: true, result: Err(Error::Io(IoError::Os(6))) }
    ));
    let mut dropped = WaitChanged { observed: 1, armed: true };
    assert!(dropped.disarm());
    assert!(!dropped.disarm());
}

#[test]
fn draining_goes_on_until_there_is_nothing() {
    assert!(matches!(drain_on(0, Ok(0), 8), DrainStep::Done(Ok(0))));
    assert!(matches!(drain_on(0, Ok(3), 8), DrainStep::Again { total: 3 }));
    assert!(matches!(drain_on(3, Ok(0), 8), DrainStep::Done(Ok(3))));
    assert!(matches!(drain_on(3, Ok(5), 8), DrainStep::Done(Ok(8))));
    assert!(matches!(
        drain_on(3, Err(Error::ChannelClosed), 8),
        DrainStep::Done(Err(Error::ChannelClosed))
    ));
}

#[test]
fn task_waits_on_the_line_of_the_other_end() {
    let (mut tx, mut rx, mut ring) = Ring::new(64);
    let view = ring.recv_view();
    let line = &mut ring.header.reader;
    let op = AsyncOp::new(0);
    let (_, step) = recv_async(&mut rx, 0, op, AsyncEvent::Proceed, &view, line, &ring.data);
    assert!(matches!(step, AsyncStep::Act(RingLine::Writer, AsyncAction::Note)));
    sent(&mut tx, &mut ring, &[0; 56]).unwrap();
    let view = ring.send_view();
    let line = &mut ring.header.writer;
    let data = &mut ring.data;
    let (_, step) = send_async(&mut tx, 0, op, AsyncEvent::Proceed, &view, line, data, b"x");
    assert!(matches!(step, AsyncStep::Act(RingLine::Reader, AsyncAction::Note)));
}
