//! What an end is told when the other process dies. Death is what the kernel reports of
//! the process: a poll of its pidfd.

use shmem_ipc::bootstrap::{ClientStage, Exchange, ServerStage, StageOutcome};
use shmem_ipc::error::{IoError, IoErrorKind, IoFailure};
use shmem_ipc::header::{ChannelState, GlobalHeader, RingHeader, RingId};
use shmem_ipc::platform::linux::{
    PeerCancellation, PeerCredentials, PeerProcess, PollFlags, SocketEvent, SocketStep, EBADF,
    EIO, ESRCH,
};
use shmem_ipc::platform::peer::{PeerMonitor, PeerState, PeerWait};
use shmem_ipc::platform::windows::PeerProcess as Handles;
use shmem_ipc::ring::{BlockingOp, ChannelStatus, RecvView, SendView, Step};
use shmem_ipc::tokio::{
    drain_ready, recv_async, recv_many_async, send_async, AsyncAction, AsyncEvent, AsyncOp,
    AsyncStep, ManyOp,
};
use shmem_ipc::wait::{ParkOp, WaitAction, WaitEvent};
use shmem_ipc::{Channel, ChannelConfig, Error, Result, Role, ShmemListener, SpinThenWait};

const FULL_RING: [u8; 248] = [0xAB; 248];
const QUEUED: [&[u8]; 3] = [b"one", b"two", b"three"];

const QUIET: PollFlags =
    PollFlags { readable: false, hung_up: false, error: false, invalid: false };
const EXITED: PollFlags = PollFlags { readable: true, ..QUIET };

fn config() -> ChannelConfig {
    ChannelConfig {
        ring_size: 256,
        wait_strategy: SpinThenWait { spin_count: 0 },
        ..ChannelConfig::default()
    }
}

/// The channel in shared memory, and what the survivor's watch has found.
struct World {
    global: GlobalHeader,
    a: RingHeader,
    b: RingHeader,
    data_a: Vec<u8>,
    data_b: Vec<u8>,
    watch: PeerState,
}

impl World {
    fn new() -> World {
        World {
            global: GlobalHeader {
                magic: shmem_ipc::header::MAGIC,
                version: shmem_ipc::header::VERSION,
                ring_data_size: 256,
                server_pid: 1,
                client_pid: 2,
                server_heartbeat: 0,
                client_heartbeat: 0,
                state: ChannelState::Connected.to_u32(),
            },
            a: RingHeader::new(),
            b: RingHeader::new(),
            data_a: vec![0; 256],
            data_b: vec![0; 256],
            watch: PeerState::new(),
        }
    }

    /// The peer's process exits: the survivor's watch finds it out.
    fn kill_peer(&mut self) {
        let waited = PeerProcess::wait(Ok((QUIET, EXITED))).unwrap();
        let finding = PeerMonitor::finding(waited).unwrap();
        self.watch.finish(finding, &mut self.a, &mut self.b);
    }

    fn header(&mut self, ring: RingId) -> &mut RingHeader {
        match ring {
            RingId::A => &mut self.a,
            RingId::B => &mut self.b,
        }
    }

    fn status(&self) -> ChannelStatus {
        ChannelStatus { peer: self.watch, state: self.global.state }
    }

    fn send_view(&mut self, ring: RingId) -> SendView {
        let read_cursor = self.header(ring).reader.read_cursor;
        SendView { status: self.status(), read_cursor }
    }

    fn recv_view(&mut self, ring: RingId) -> RecvView {
        let write_cursor = self.header(ring).writer.write_cursor;
        RecvView { write_cursor, status: self.status(), write_cursor_again: write_cursor }
    }
}

fn end(role: Role) -> Channel {
    match role {
        Role::Server => Channel::create_with_config("peer", config(), 1).unwrap().0,
        Role::Client => {
            let (_, step) = Channel::open_with_config(
                "peer",
                config(),
                2,
                shmem_ipc::channel::OpenOp::Exchanging,
                shmem_ipc::channel::OpenEvent::Exchanged(true),
            );
            match step {
                shmem_ipc::channel::OpenStep::Opened { channel, client_pid: 2 } => channel,
                _ => panic!("not opened"),
            }
        }
    }
}

/// Performs an action. While the end sleeps, its peer dies if it is meant to.
fn perform(
    world: &mut World,
    action: WaitAction,
    word: fn(&RingHeader) -> u32,
    ring: RingId,
    dies: &mut bool,
) -> WaitEvent {
    match action {
        WaitAction::LoadNotify => WaitEvent::Notify(word(world.header(ring))),
        WaitAction::ReadClock => WaitEvent::Clock(0),
        WaitAction::Sleep { expected, .. } => {
            assert!(*dies, "operation completed before peer exit");
            *dies = false;
            assert_eq!(word(world.header(ring)), expected);
            world.kill_peer();
            assert_ne!(word(world.header(ring)), expected);
            WaitEvent::Proceed
        }
        _ => WaitEvent::Proceed,
    }
}

fn recv(end: &mut Channel, world: &mut World, mut dies: bool) -> Result<Vec<u8>> {
    let ring = end.role().read_ring();
    let mut op: BlockingOp<ParkOp> = BlockingOp::Start;
    let mut event = WaitEvent::Proceed;
    loop {
        let view = world.recv_view(ring);
        let mut line = world.header(ring).reader;
        let data = match ring {
            RingId::A => &world.data_a,
            RingId::B => &world.data_b,
        };
        let (next, step) = end.recv(op, event, &view, &mut line, data);
        world.header(ring).reader = line;
        op = next;
        match step {
            Step::Done { result, .. } => return result,
            Step::Act(_, action) => {
                event = perform(world, action, |h| h.writer.notify, ring, &mut dies);
            }
        }
    }
}

fn send(end: &mut Channel, world: &mut World, payload: &[u8], mut dies: bool) -> Result<()> {
    let ring = end.role().write_ring();
    let mut op: BlockingOp<ParkOp> = BlockingOp::Start;
    let mut event = WaitEvent::Proceed;
    loop {
        let view = world.send_view(ring);
        let mut line = world.header(ring).writer;
        let data = match ring {
            RingId::A => &mut world.data_a,
            RingId::B => &mut world.data_b,
        };
        let (next, step) = end.send(op, event, &view, &mut line, data, payload);
        world.header(ring).writer = line;
        op = next;
        match step {
            Step::Done { result, .. } => return result,
            Step::Act(_, action) => {
                event = perform(world, action, |h| h.reader.notify, ring, &mut dies);
            }
        }
    }
}

fn try_recv(end: &mut Channel, world: &mut World) -> Result<Option<Vec<u8>>> {
    let ring = end.role().read_ring();
    let write_cursor = world.header(ring).writer.write_cursor;
    let mut line = world.header(ring).reader;
    let data = match ring {
        RingId::A => &world.data_a,
        RingId::B => &world.data_b,
    };
    let result = end.try_recv(write_cursor, &mut line, data);
    world.header(ring).reader = line;
    result
}

fn expect_terminal<T>(result: Result<T>, graceful: bool) {
    match result {
        Err(Error::ChannelClosed) if graceful => {}
        Err(Error::PeerDisconnected) if !graceful => {}
        Err(err) => panic!("unexpected terminal error: {err:?}"),
        Ok(_) => panic!("operation succeeded after termination"),
    }
}

#[test]
fn native_peer_lifecycle() {
    // Both ends, and both directions of an operation that is parked.
    for role in [Role::Server, Role::Client] {
        let mut world = World::new();
        let mut survivor = end(role);
        expect_terminal(recv(&mut survivor, &mut world, true), false);
        expect_terminal(recv(&mut survivor, &mut world, false), false);
        expect_terminal(send(&mut survivor, &mut world, b"after-exit", false), false);

        let mut world = World::new();
        let mut survivor = end(role);
        send(&mut survivor, &mut world, &FULL_RING, false).unwrap();
        expect_terminal(send(&mut survivor, &mut world, b"blocked", true), false);
        expect_terminal(recv(&mut survivor, &mut world, false), false);
        expect_terminal(send(&mut survivor, &mut world, b"after-exit", false), false);
    }

    // Death is seen by the sending side first; then what was queued is received.
    let mut world = World::new();
    let mut survivor = end(Role::Server);
    let mut peer = end(Role::Client);
    for message in QUEUED {
        send(&mut peer, &mut world, message, false).unwrap();
    }
    world.kill_peer();
    expect_terminal(send(&mut survivor, &mut world, &FULL_RING, false), false);
    for expected in QUEUED {
        assert_eq!(recv(&mut survivor, &mut world, false).unwrap(), expected);
    }
    assert!(try_recv(&mut survivor, &mut world).unwrap().is_none());
    expect_terminal(recv(&mut survivor, &mut world, false), false);

    // A close stays a close when the process dies after it.
    let mut world = World::new();
    let mut survivor = end(Role::Client);
    let mut peer = end(Role::Server);
    for message in QUEUED {
        send(&mut peer, &mut world, message, false).unwrap();
    }
    let (mut global, mut a, mut b) = (world.global, world.a, world.b);
    peer.close(&mut global, &mut a, &mut b);
    (world.global, world.a, world.b) = (global, a, b);
    expect_terminal(send(&mut survivor, &mut world, &FULL_RING, false), true);
    for expected in QUEUED {
        assert_eq!(recv(&mut survivor, &mut world, false).unwrap(), expected);
    }
    assert!(try_recv(&mut survivor, &mut world).unwrap().is_none());
    expect_terminal(recv(&mut survivor, &mut world, false), true);
    world.kill_peer();
    expect_terminal(send(&mut survivor, &mut world, b"after-exit", false), true);
    expect_terminal(recv(&mut survivor, &mut world, false), true);

    // Fresh generations on one listener.
    let mut listener = ShmemListener::bind("peer", config(), Ok(())).unwrap();
    for generation in 0u32..3 {
        let (channel, file, _) = listener.handshake(1).unwrap();
        assert_eq!(file.file_name, format!("shmem_ipc_peer.conn.{generation}"));
        let mut world = World::new();
        let mut peer = end(Role::Client);
        send(&mut peer, &mut world, &generation.to_le_bytes(), false).unwrap();
        let mut survivor = channel;
        let message = recv(&mut survivor, &mut world, false).unwrap();
        assert_eq!(message, generation.to_le_bytes());
        // The last half is released: its watch is called off and has found nothing.
        let called_off = PeerProcess::wait(Ok((EXITED, QUIET))).unwrap();
        assert!(PeerMonitor::finding(called_off).is_none());
    }

    // Death while the connection is being established.
    let hung_up = StageOutcome::Broken(IoFailure {
        kind: IoErrorKind::UnexpectedEof,
        error: IoError::Custom {
            kind: IoErrorKind::UnexpectedEof,
            message: "failed to fill whole buffer",
        },
    });
    for over in [
        ServerStage::ReceiveAck.step(hung_up),
        ServerStage::SendAck.step(hung_up),
    ] {
        match over {
            Exchange::Over(result) => expect_terminal(result, false),
            Exchange::Next(_) => panic!("the exchange went on"),
        }
    }
    for over in [
        ClientStage::ReceiveAck.step(hung_up),
        ClientStage::ReceiveName.step(hung_up),
    ] {
        match over {
            Exchange::Over(result) => expect_terminal(result, false),
            Exchange::Next(_) => panic!("the exchange went on"),
        }
    }

    // Death before the server has taken hold of the client.
    match PeerProcess::from_socket(SocketEvent::Opened(Err(IoError::Os(ESRCH))), 12) {
        SocketStep::Done(result) => expect_terminal(result, false),
        SocketStep::Open { .. } => panic!("found"),
    }
}

#[test]
fn peer_death_in_tasks() {
    let mut world = World::new();
    let connection = end(Role::Client).into_connection();
    let mut guard = connection.drop_guard();
    let (mut tx, mut rx, wait) = connection.into_rings(&mut guard);
    let spins = wait.spin_count;
    // A receive that was dropped, and one that is pending, when the peer dies.
    let view = world.recv_view(RingId::A);
    let mut line = world.a.reader;
    let (op, step) = recv_async(
        &mut rx,
        spins,
        AsyncOp::new(spins),
        AsyncEvent::Proceed,
        &view,
        &mut line,
        &world.data_a,
    );
    assert!(matches!(step, AsyncStep::Act(_, AsyncAction::Note)));
    world.kill_peer();
    let view = world.recv_view(RingId::A);
    let (_, step) = recv_async(
        &mut rx,
        spins,
        op,
        AsyncEvent::Noted(Ok(world.a.writer.notify)),
        &view,
        &mut line,
        &world.data_a,
    );
    match step {
        AsyncStep::Done(result) => expect_terminal(result, false),
        AsyncStep::Act(..) => panic!("went on"),
    }
    let view = world.send_view(RingId::B);
    let mut line = world.b.writer;
    let (_, step) = send_async(
        &mut tx,
        spins,
        AsyncOp::new(spins),
        AsyncEvent::Proceed,
        &view,
        &mut line,
        &mut world.data_b,
        b"after-exit",
    );
    match step {
        AsyncStep::Done(result) => expect_terminal(result, false),
        AsyncStep::Act(..) => panic!("went on"),
    }
}

#[test]
fn batch_of_a_dead_peer() {
    let mut world = World::new();
    let mut peer = end(Role::Server);
    for message in QUEUED {
        send(&mut peer, &mut world, message, false).unwrap();
    }
    world.kill_peer();
    let connection = end(Role::Client).into_connection();
    let mut guard = connection.drop_guard();
    let (_, mut rx, _) = connection.into_rings(&mut guard);
    let mut batch = Vec::new();
    let mut results = Vec::new();
    for _ in 0..2 {
        let mut many = ManyOp::new(0);
        loop {
            let view = world.recv_view(RingId::A);
            let (next, step) = recv_many_async(
                &mut rx,
                0,
                16,
                many,
                AsyncEvent::Proceed,
                &view,
                &mut world.a.reader,
                &world.data_a,
                &mut batch,
            );
            many = next;
            match step {
                AsyncStep::Done(result) => {
                    results.push(result);
                    break;
                }
                AsyncStep::Act(_, action) => assert_eq!(action, AsyncAction::Look),
            }
        }
    }
    assert!(matches!(results[0], Ok(3)));
    assert!(matches!(results[1], Err(Error::PeerDisconnected)));
    assert_eq!(batch, QUEUED.iter().map(|m| m.to_vec()).collect::<Vec<_>>());
    let write_cursor = world.a.writer.write_cursor;
    let drained = drain_ready(
        &mut rx,
        write_cursor,
        &mut world.a.reader,
        &world.data_a,
        &mut batch,
        16,
    );
    assert!(matches!(drained, Ok(0)));
}

#[test]
fn taking_hold_of_a_peer() {
    let credentials = |len, pid| SocketEvent::Credentials(Ok(PeerCredentials { len, pid }));
    assert!(matches!(
        PeerProcess::from_socket(credentials(12, 77), 12),
        SocketStep::Open { pid: 77 }
    ));
    for (event, text) in [
        (credentials(8, 77), "invalid peer credentials"),
        (credentials(12, 0), "peer PID unavailable"),
        (credentials(12, -1), "peer PID unavailable"),
    ] {
        match PeerProcess::from_socket(event, 12) {
            SocketStep::Done(Err(Error::Io(IoError::Custom { kind, message }))) => {
                assert_eq!(kind, IoErrorKind::InvalidData);
                assert_eq!(message, text);
            }
            _ => panic!("accepted"),
        }
    }
    assert!(matches!(
        PeerProcess::from_socket(SocketEvent::Credentials(Err(IoError::Os(88))), 12),
        SocketStep::Done(Err(Error::Io(IoError::Os(88))))
    ));
    assert!(matches!(
        PeerProcess::from_socket(SocketEvent::Opened(Ok(())), 12),
        SocketStep::Done(Ok(()))
    ));
    // Not supported, not permitted and out of descriptors are failures, not death.
    for code in [38, 1, 24] {
        match PeerProcess::from_socket(SocketEvent::Opened(Err(IoError::Os(code))), 12) {
            SocketStep::Done(Err(Error::Io(IoError::Os(got)))) => assert_eq!(got, code),
            _ => panic!("not a failure"),
        }
    }
}

#[test]
fn probe_of_a_process() {
    let interrupted = IoFailure { kind: IoErrorKind::Interrupted, error: IoError::Os(4) };
    assert!(PeerProcess::check_ready(Err(interrupted)).is_none());
    let failed = IoFailure { kind: IoErrorKind::Other, error: IoError::Os(12) };
    assert!(matches!(
        PeerProcess::check_ready(Err(failed)),
        Some(Err(Error::Io(IoError::Os(12))))
    ));
    assert!(matches!(PeerProcess::check_ready(Ok(QUIET)), Some(Ok(()))));
    for flags in [EXITED, PollFlags { hung_up: true, ..QUIET }] {
        assert!(matches!(
            PeerProcess::check_ready(Ok(flags)),
            Some(Err(Error::PeerDisconnected))
        ));
    }
    match PeerProcess::check_ready(Ok(PollFlags { invalid: true, error: true, ..EXITED })) {
        Some(Err(Error::Io(IoError::Os(code)))) => assert_eq!(code, EBADF),
        _ => panic!("not a failure"),
    }
    match PeerProcess::check_ready(Ok(PollFlags { error: true, ..EXITED })) {
        Some(Err(Error::Io(IoError::Os(code)))) => assert_eq!(code, EIO),
        _ => panic!("not a failure"),
    }
}

#[test]
fn watch_over_a_process() {
    let interrupted = IoFailure { kind: IoErrorKind::Interrupted, error: IoError::Os(4) };
    assert!(PeerProcess::wait(Err(interrupted)).is_none());
    assert!(PeerProcess::wait(Ok((QUIET, QUIET))).is_none());
    let failed = IoFailure { kind: IoErrorKind::Other, error: IoError::Os(12) };
    assert!(matches!(
        PeerProcess::wait(Err(failed)),
        Some(Err(IoError::Os(12)))
    ));
    assert!(matches!(
        PeerProcess::wait(Ok((EXITED, EXITED))),
        Some(Ok(PeerWait::Cancelled))
    ));
    assert!(matches!(
        PeerProcess::wait(Ok((QUIET, PollFlags { hung_up: true, ..QUIET }))),
        Some(Ok(PeerWait::Exited))
    ));
    for (cancel, process, code) in [
        (PollFlags { invalid: true, ..QUIET }, EXITED, EBADF),
        (EXITED, PollFlags { invalid: true, ..QUIET }, EBADF),
        (PollFlags { error: true, ..QUIET }, EXITED, EIO),
        (EXITED, PollFlags { error: true, ..QUIET }, EIO),
    ] {
        match PeerProcess::wait(Ok((cancel, process))) {
            Some(Err(IoError::Os(got))) => assert_eq!(got, code),
            _ => panic!("not a failure"),
        }
    }
}

#[test]
fn calling_a_watch_off() {
    assert!(matches!(PeerCancellation::cancel(Ok(())), Some(Ok(()))));
    let failure = |kind| IoFailure { kind, error: IoError::Os(9) };
    assert!(PeerCancellation::cancel(Err(failure(IoErrorKind::Interrupted))).is_none());
    assert!(matches!(
        PeerCancellation::cancel(Err(failure(IoErrorKind::WouldBlock))),
        Some(Ok(()))
    ));
    assert!(matches!(
        PeerCancellation::cancel(Err(failure(IoErrorKind::Other))),
        Some(Err(IoError::Os(9)))
    ));
}

#[test]
fn start_of_a_watch() {
    assert!(PeerMonitor::start(Some(Ok(()))).is_ok());
    assert!(matches!(
        PeerMonitor::start(Some(Err(Error::PeerDisconnected))),
        Err(Error::PeerDisconnected)
    ));
    assert_eq!(
        PeerMonitor::start(None).unwrap_err().display(""),
        "I/O error: receiving on a closed channel"
    );
    assert!(matches!(PeerMonitor::finding(Err(IoError::Os(5))), Some(Err(IoError::Os(5)))));
    assert!(matches!(PeerMonitor::finding(Ok(PeerWait::Exited)), Some(Ok(()))));
}

#[test]
fn watch_over_a_process_handle() {
    let failed = IoError::Os(6);
    assert!(Handles::open(Ok(())).is_ok());
    assert!(matches!(Handles::open(Err(IoError::Os(87))), Err(Error::PeerDisconnected)));
    assert!(matches!(
        Handles::open(Err(IoError::Os(5))),
        Err(Error::Io(IoError::Os(5)))
    ));
    assert!(Handles::check_ready(258, failed).is_ok());
    assert!(matches!(Handles::check_ready(0, failed), Err(Error::PeerDisconnected)));
    assert!(matches!(
        Handles::check_ready(0xFFFF_FFFF, failed),
        Err(Error::Io(IoError::Os(6)))
    ));
    assert!(matches!(Handles::wait(0, failed), Ok(PeerWait::Cancelled)));
    assert!(matches!(Handles::wait(1, failed), Ok(PeerWait::Exited)));
    assert!(matches!(Handles::wait(0xFFFF_FFFF, failed), Err(IoError::Os(6))));
}
