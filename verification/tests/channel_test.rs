//! Channels over a shared file that is plain memory here. Both ends run in turn: an end
//! that goes to sleep gives the other one its turn.

use shmem_ipc::channel::{ChannelFile, OpenEvent, OpenOp, OpenStep, OPEN_POLL_NANOS};
use shmem_ipc::error::{IoError, IoErrorKind, IoFailure};
use shmem_ipc::header::{
    GlobalHeader, RingHeader, RingId, RingLine, RingOffsets, WaitTarget, MAGIC, VERSION,
};
use shmem_ipc::platform::peer::PeerState;
use shmem_ipc::ring::{BlockingOp, ChannelStatus, RecvView, SendView, Step};
use shmem_ipc::wait::{ParkOp, WaitAction, WaitEvent};
use shmem_ipc::{Channel, ChannelConfig, ChannelState, Error, Result, Role, SpinThenWait};

const MILLI: u128 = 1_000_000;
const SECOND: u128 = 1_000_000_000;

struct Shared {
    global: GlobalHeader,
    a: RingHeader,
    b: RingHeader,
    data_a: Vec<u8>,
    data_b: Vec<u8>,
    peer: PeerState,
    clock: u128,
    sleeps: u32,
}

impl Shared {
    fn new(file: &ChannelFile, ring_size: usize) -> Shared {
        Shared {
            global: file.global,
            a: file.ring_a,
            b: file.ring_b,
            data_a: vec![0; ring_size],
            data_b: vec![0; ring_size],
            peer: PeerState::new(),
            clock: 0,
            sleeps: 0,
        }
    }

    fn header(&mut self, ring: RingId) -> &mut RingHeader {
        match ring {
            RingId::A => &mut self.a,
            RingId::B => &mut self.b,
        }
    }

    fn status(&self) -> ChannelStatus {
        ChannelStatus { peer: self.peer, state: self.global.state }
    }

    fn send_view(&mut self, ring: RingId) -> SendView {
        let read_cursor = self.header(ring).reader.read_cursor;
        SendView { status: self.status(), read_cursor }
    }

    fn recv_view(&mut self, ring: RingId) -> RecvView {
        let write_cursor = self.header(ring).writer.write_cursor;
        RecvView { write_cursor, status: self.status(), write_cursor_again: write_cursor }
    }

    fn word(&mut self, ring: RingId, line: RingLine) -> (&mut u32, &mut u32) {
        let header = self.header(ring);
        match line {
            RingLine::Writer => (&mut header.writer.notify, &mut header.writer.parked),
            RingLine::Reader => (&mut header.reader.notify, &mut header.reader.parked),
        }
    }

    fn perform(
        &mut self,
        action: WaitAction,
        ring: RingId,
        line: RingLine,
        idle: &mut dyn FnMut(&mut Shared),
    ) -> WaitEvent {
        match action {
            WaitAction::SpinLoop => WaitEvent::Proceed,
            WaitAction::ReadClock => WaitEvent::Clock(self.clock),
            WaitAction::LoadNotify => WaitEvent::Notify(*self.word(ring, line).0),
            WaitAction::Park => {
                *self.word(ring, line).1 = 1;
                WaitEvent::Proceed
            }
            WaitAction::Unpark => {
                *self.word(ring, line).1 = 0;
                WaitEvent::Proceed
            }
            WaitAction::Sleep { expected, timeout } => {
                self.sleeps += 1;
                assert_eq!(*self.word(ring, line).1, 1, "asleep and not parked");
                if *self.word(ring, line).0 == expected {
                    idle(self);
                }
                if *self.word(ring, line).0 == expected {
                    match timeout {
                        Some(timeout) => self.clock += timeout,
                        None => panic!("asleep for ever"),
                    }
                }
                WaitEvent::Proceed
            }
            WaitAction::Finish(_) | WaitAction::UnparkFinish(_) => unreachable!(),
        }
    }
}

fn nobody(_: &mut Shared) {}

fn send_limited(
    end: &mut Channel,
    shared: &mut Shared,
    timeout: Option<u128>,
    payload: &[u8],
    idle: &mut dyn FnMut(&mut Shared),
) -> Result<()> {
    let ring = end.role().write_ring();
    let mut op: BlockingOp<ParkOp> = BlockingOp::Start;
    let mut event = WaitEvent::Proceed;
    loop {
        let view = shared.send_view(ring);
        let mut line = shared.header(ring).writer;
        let data = match ring {
            RingId::A => &mut shared.data_a,
            RingId::B => &mut shared.data_b,
        };
        let (next, step) = match timeout {
            None => end.send(op, event, &view, &mut line, data, payload),
            Some(t) => end.send_timeout(t, op, event, &view, &mut line, data, payload),
        };
        shared.header(ring).writer = line;
        op = next;
        match step {
            Step::Done { unpark, result } => {
                if let Some(line) = unpark {
                    *shared.word(ring, line).1 = 0;
                }
                return result;
            }
            Step::Act(on, action) => {
                assert_eq!(on, RingLine::Reader);
                event = shared.perform(action, ring, on, idle);
            }
        }
    }
}

fn send(end: &mut Channel, shared: &mut Shared, payload: &[u8]) -> Result<()> {
    send_limited(end, shared, None, payload, &mut nobody)
}

fn recv_limited(
    end: &mut Channel,
    shared: &mut Shared,
    timeout: Option<u128>,
    idle: &mut dyn FnMut(&mut Shared),
) -> Result<Vec<u8>> {
    let ring = end.role().read_ring();
    let mut op: BlockingOp<ParkOp> = BlockingOp::Start;
    let mut event = WaitEvent::Proceed;
    loop {
        let view = shared.recv_view(ring);
        let mut line = shared.header(ring).reader;
        let data = match ring {
            RingId::A => &shared.data_a,
            RingId::B => &shared.data_b,
        };
        let (next, step) = match timeout {
            None => end.recv(op, event, &view, &mut line, data),
            Some(t) => end.recv_timeout(t, op, event, &view, &mut line, data),
        };
        shared.header(ring).reader = line;
        op = next;
        match step {
            Step::Done { unpark, result } => {
                if let Some(line) = unpark {
                    *shared.word(ring, line).1 = 0;
                }
                return result;
            }
            Step::Act(on, action) => {
                assert_eq!(on, RingLine::Writer);
                event = shared.perform(action, ring, on, idle);
            }
        }
    }
}

fn recv(end: &mut Channel, shared: &mut Shared) -> Result<Vec<u8>> {
    recv_limited(end, shared, None, &mut nobody)
}

fn recv_into(end: &mut Channel, shared: &mut Shared, buf: &mut [u8]) -> Result<usize> {
    let ring = end.role().read_ring();
    let mut op: BlockingOp<ParkOp> = BlockingOp::Start;
    let mut event = WaitEvent::Proceed;
    loop {
        let view = shared.recv_view(ring);
        let mut line = shared.header(ring).reader;
        let data = match ring {
            RingId::A => &shared.data_a,
            RingId::B => &shared.data_b,
        };
        let (next, step) = end.recv_into(op, event, &view, &mut line, data, buf);
        shared.header(ring).reader = line;
        op = next;
        match step {
            Step::Done { result, .. } => return result,
            Step::Act(on, action) => event = shared.perform(action, ring, on, &mut nobody),
        }
    }
}

fn try_recv(end: &mut Channel, shared: &mut Shared) -> Result<Option<Vec<u8>>> {
    let ring = end.role().read_ring();
    let write_cursor = shared.header(ring).writer.write_cursor;
    let mut line = shared.header(ring).reader;
    let data = match ring {
        RingId::A => &shared.data_a,
        RingId::B => &shared.data_b,
    };
    let result = end.try_recv(write_cursor, &mut line, data);
    shared.header(ring).reader = line;
    result
}

/// Opens as the client does. `file` is the file as it is found.
fn open(
    name: &str,
    config: ChannelConfig,
    shared: &mut Shared,
    len: Option<u64>,
) -> Result<Channel> {
    let mut op = OpenOp::Start;
    let mut event = OpenEvent::Clock(shared.clock);
    loop {
        let (next, step) = Channel::open_with_config(name, config, 18, op, event);
        op = next;
        event = match step {
            OpenStep::Look => OpenEvent::File { len, now: shared.clock },
            OpenStep::SleepThenLook(nanos) => {
                assert_eq!(nanos, OPEN_POLL_NANOS);
                shared.clock += nanos;
                OpenEvent::File { len, now: shared.clock }
            }
            OpenStep::Attach => OpenEvent::Header(shared.global),
            OpenStep::Exchange { from, to } => {
                let done = shared.global.state == from;
                if done {
                    shared.global.state = to;
                }
                OpenEvent::Exchanged(done)
            }
            OpenStep::Failed(e) => return Err(e),
            OpenStep::Opened { channel, client_pid } => {
                shared.global.client_pid = client_pid;
                return Ok(channel);
            }
        };
    }
}

fn close(end: Channel, shared: &mut Shared) -> Option<String> {
    end.close(&mut shared.global, &mut shared.a, &mut shared.b)
}

fn connected_with(name: &str, config: ChannelConfig) -> (Channel, Channel, Shared) {
    let (server, file) = Channel::create_with_config(name, config, 17).unwrap();
    let mut shared = Shared::new(&file, config.ring_size);
    let len = Some(file.offsets.total_size as u64);
    let client = open(name, config, &mut shared, len).unwrap();
    (server, client, shared)
}

fn connected(name: &str) -> (Channel, Channel, Shared) {
    connected_with(name, ChannelConfig::default())
}

fn small(ring_size: usize) -> ChannelConfig {
    ChannelConfig {
        ring_size,
        wait_strategy: SpinThenWait { spin_count: 0 },
        ..ChannelConfig::default()
    }
}

#[test]
fn test_basic_send_recv() {
    let (mut server, mut client, mut shared) = connected("test_basic");
    send(&mut server, &mut shared, b"hello").unwrap();
    let msg = recv(&mut client, &mut shared).unwrap();
    assert_eq!(msg, b"hello");
    send(&mut client, &mut shared, b"world").unwrap();
    let reply = recv(&mut server, &mut shared).unwrap();
    assert_eq!(reply, b"world");
}

#[test]
fn test_multiple_messages() {
    let (mut server, mut client, mut shared) = connected("test_multi");
    for i in 0u32..100 {
        send(&mut server, &mut shared, &i.to_le_bytes()).unwrap();
    }
    for i in 0u32..100 {
        let msg = recv(&mut client, &mut shared).unwrap();
        let expected = i.to_le_bytes();
        assert_eq!(msg, expected);
    }
    send(&mut client, &mut shared, b"done").unwrap();
    let reply = recv(&mut server, &mut shared).unwrap();
    assert_eq!(reply, b"done");
}

#[test]
fn test_large_message() {
    let (mut server, mut client, mut shared) = connected("test_large");
    let data = vec![0xABu8; 1024 * 1024];
    send(&mut server, &mut shared, &data).unwrap();
    let msg = recv(&mut client, &mut shared).unwrap();
    assert_eq!(msg, data);
}

#[test]
fn test_recv_timeout() {
    let (_server, mut client, mut shared) = connected("test_timeout");
    let start = shared.clock;
    let result = recv_limited(&mut client, &mut shared, Some(50 * MILLI), &mut nobody);
    assert!(matches!(result, Err(Error::TimedOut)));
    assert_eq!(shared.clock - start, 50 * MILLI);
}

#[test]
fn test_try_recv() {
    let (mut server, mut client, mut shared) = connected("test_try_recv");
    let result = try_recv(&mut client, &mut shared).unwrap();
    assert!(result.is_none());
    send(&mut server, &mut shared, b"ping").unwrap();
    let msg = try_recv(&mut client, &mut shared).unwrap();
    assert_eq!(msg, Some(b"ping".to_vec()), "try_recv timed out waiting for message");
}

#[test]
fn test_drop_closes_channel() {
    let (server, mut client, mut shared) = connected("test_drop");
    assert_eq!(server.state(shared.global.state), ChannelState::Connected);
    let removed = close(server, &mut shared);
    assert_eq!(removed.as_deref(), Some("shmem_ipc_test_drop"));
    let result = recv_limited(&mut client, &mut shared, Some(2 * SECOND), &mut nobody);
    assert!(
        matches!(result, Err(Error::ChannelClosed)),
        "expected ChannelClosed, got: {:?}",
        result
    );
    // The client's end removes nothing.
    assert_eq!(close(client, &mut shared), None);
}

#[test]
fn test_close_wakes_peer_promptly() {
    let config = ChannelConfig {
        wait_strategy: SpinThenWait { spin_count: 0 },
        ..Default::default()
    };
    let (server, mut client, mut shared) = connected_with("test_close_wakes_peer", config);
    assert_eq!(server.state(shared.global.state), ChannelState::Connected);
    let mut server = Some(server);
    let mut on_sleep = |shared: &mut Shared| {
        close(server.take().unwrap(), shared);
    };
    let result = recv_limited(&mut client, &mut shared, Some(5 * SECOND), &mut on_sleep);
    assert!(
        matches!(result, Err(Error::ChannelClosed)),
        "expected ChannelClosed, got: {:?}",
        result
    );
    assert_eq!(shared.sleeps, 1);
    assert!(shared.clock < SECOND, "close wake took too long");
}

#[test]
fn test_send_after_peer_close() {
    let (mut server, client, mut shared) = connected("test_send_after_close");
    close(client, &mut shared);
    let result = send(&mut server, &mut shared, b"should fail");
    assert!(
        matches!(result, Err(Error::ChannelClosed)),
        "expected ChannelClosed, got: {:?}",
        result
    );
    assert_eq!(shared.a.writer.write_cursor, 0);
}

#[test]
fn test_recv_into_too_small_buffer() {
    let (mut server, mut client, mut shared) = connected("test_recv_into_small");
    send(&mut server, &mut shared, &[0xABu8; 100]).unwrap();
    send(&mut server, &mut shared, b"second").unwrap();
    let mut small_buf = [0u8; 10];
    let result = recv_into(&mut client, &mut shared, &mut small_buf);
    assert!(
        matches!(result, Err(Error::MessageTooLarge { size: 100, max: 10 })),
        "expected MessageTooLarge, got: {:?}",
        result
    );
    assert_eq!(small_buf, [0u8; 10]);
    let msg = recv(&mut client, &mut shared).unwrap();
    assert_eq!(msg, b"second");
}

#[test]
fn test_drain_after_close() {
    let (mut server, mut client, mut shared) = connected("test_drain");
    send(&mut client, &mut shared, b"msg1").unwrap();
    send(&mut client, &mut shared, b"msg2").unwrap();
    send(&mut client, &mut shared, b"msg3").unwrap();
    close(client, &mut shared);

    assert_eq!(recv(&mut server, &mut shared).unwrap(), b"msg1");
    assert_eq!(recv(&mut server, &mut shared).unwrap(), b"msg2");
    assert_eq!(recv(&mut server, &mut shared).unwrap(), b"msg3");

    let result = recv_limited(&mut server, &mut shared, Some(100 * MILLI), &mut nobody);
    assert!(
        matches!(result, Err(Error::ChannelClosed)),
        "expected ChannelClosed after drain, got: {:?}",
        result
    );
}

#[test]
fn test_reconnect_same_name_across_generations() {
    for generation in 0..3u32 {
        let (mut server, mut client, mut shared) = connected("test_reconnect_same_name");
        let request = format!("gen{generation}-req").into_bytes();
        let reply = format!("gen{generation}-ack").into_bytes();
        send(&mut server, &mut shared, &request).unwrap();
        let msg = recv(&mut client, &mut shared).unwrap();
        assert_eq!(msg, request);
        send(&mut client, &mut shared, &reply).unwrap();
        assert_eq!(recv(&mut server, &mut shared).unwrap(), reply);
    }
}

#[test]
fn test_ping_pong_performance() {
    let count = 10_000;
    let (mut server, mut client, mut shared) = connected("test_perf");
    let msg = vec![0xABu8; 64];
    let mut buf = vec![0u8; 64];
    for _ in 0..count {
        send(&mut server, &mut shared, &msg).unwrap();
        let n = recv_into(&mut client, &mut shared, &mut buf).unwrap();
        send(&mut client, &mut shared, &buf[..n]).unwrap();
        let reply = recv(&mut server, &mut shared).unwrap();
        assert_eq!(reply, msg, "echo data mismatch");
    }
    assert_eq!(shared.sleeps, 0);
    assert_eq!(shared.a.writer.write_cursor, 72 * count);
}

#[test]
fn standard_configuration() {
    let config = ChannelConfig::default();
    assert_eq!(config.ring_size, 16 * 1024 * 1024);
    assert_eq!(config.wait_strategy.spin_count, 256);
    assert_eq!(config.connect_timeout, 5 * SECOND);
    assert_eq!(SpinThenWait::default().spin_count, 512);
    assert_eq!(shmem_ipc::DEFAULT_RING_DATA_SIZE, 16 * 1024 * 1024);
}

#[test]
fn ring_size_must_be_a_power_of_two() {
    for ring_size in [0usize, 3, 12, 100, 1000] {
        match Channel::create_with_config("odd", small(ring_size), 1) {
            Err(Error::Io(IoError::Custom { kind, message })) => {
                assert_eq!(kind, IoErrorKind::InvalidInput);
                assert_eq!(message, "ring_size must be a power of two");
            }
            _ => panic!("accepted {ring_size}"),
        }
    }
    assert!(Channel::create_with_config("even", small(64), 1).is_ok());
}

#[test]
fn new_file() {
    let (server, file) = Channel::create_with_config("layout", small(64), 4711).unwrap();
    assert_eq!(server.role(), Role::Server);
    assert_eq!(file.file_name, "shmem_ipc_layout");
    assert_eq!(file.offsets, RingOffsets::new(64));
    assert_eq!(
        file.global,
        GlobalHeader {
            magic: MAGIC,
            version: VERSION,
            ring_data_size: 64,
            server_pid: 4711,
            client_pid: 0,
            server_heartbeat: 0,
            client_heartbeat: 0,
            state: 1,
        }
    );
    let (_, standard) = Channel::create("layout", 1).unwrap();
    assert_eq!(standard.global.ring_data_size, 16 * 1024 * 1024);
    assert_eq!(Channel::cleanup("layout"), "shmem_ipc_layout");
}

#[test]
fn client_waits_for_the_whole_file() {
    let config = small(64);
    let (_server, file) = Channel::create_with_config("late", config, 1).unwrap();
    for len in [None, Some(0), Some(file.offsets.total_size as u64 - 1)] {
        let mut shared = Shared::new(&file, 64);
        shared.clock = 7;
        let result = open("late", config, &mut shared, len);
        assert!(matches!(result, Err(Error::TimedOut)));
        assert_eq!(shared.clock, 7 + 5 * SECOND);
    }
    let mut shared = Shared::new(&file, 64);
    let more = Some(file.offsets.total_size as u64 + 1);
    assert!(open("late", config, &mut shared, more).is_ok());
}

#[test]
fn open_with_the_standard_configuration() {
    let (op, step) = Channel::open("plain", 1, OpenOp::Start, OpenEvent::Clock(3));
    assert_eq!(op, OpenOp::Looking { deadline: 5 * SECOND + 3 });
    assert!(matches!(step, OpenStep::Look));
}

#[test]
fn second_client_is_refused() {
    let config = small(64);
    let (_server, _client, mut shared) = connected_with("taken", config);
    let len = Some(RingOffsets::new(64).total_size as u64);
    assert_eq!(shared.global.client_pid, 18);
    let claimed = shared.global;
    let result = open("taken", config, &mut shared, len);
    assert!(matches!(result, Err(Error::ChannelClosed)));
    assert_eq!(shared.global.state, 2);
    assert_eq!(shared.global, claimed);
}

#[test]
fn client_that_loses_the_race_is_refused() {
    let config = small(64);
    let (_, step) = Channel::open_with_config(
        "race",
        config,
        18,
        OpenOp::Exchanging,
        OpenEvent::Exchanged(false),
    );
    assert!(matches!(step, OpenStep::Failed(Error::ChannelClosed)));
}

#[test]
fn client_checks_the_header() {
    let config = small(64);
    let (_server, file) = Channel::create_with_config("header", config, 1).unwrap();
    let len = Some(u64::MAX);
    let good = file.global;
    for bad in [
        GlobalHeader { magic: MAGIC + 1, ..good },
        GlobalHeader { version: VERSION + 1, ..good },
        GlobalHeader { ring_data_size: 128, ..good },
    ] {
        let mut shared = Shared::new(&file, 64);
        shared.global = bad;
        let result = open("header", config, &mut shared, len);
        assert!(matches!(result, Err(Error::InvalidHeader)));
        assert_eq!(shared.global, bad);
    }
    for state in [0u32, 2, 3, 4, 99] {
        let mut shared = Shared::new(&file, 64);
        shared.global = GlobalHeader { state, magic: 0, ..good };
        let result = open("header", config, &mut shared, len);
        assert!(matches!(result, Err(Error::ChannelClosed)));
    }
}

#[test]
fn states_of_a_channel() {
    let (server, _file) = Channel::create_with_config("state", small(64), 1).unwrap();
    assert_eq!(server.state(0), ChannelState::Init);
    assert_eq!(server.state(1), ChannelState::ServerReady);
    assert_eq!(server.state(2), ChannelState::Connected);
    assert_eq!(server.state(3), ChannelState::Closing);
    assert_eq!(server.state(4), ChannelState::Closed);
    assert_eq!(server.state(5), ChannelState::Closed);
    assert_eq!(server.state(u32::MAX), ChannelState::Closed);
}

#[test]
fn cleanup_of_a_missing_file_succeeds() {
    let failure = |kind| IoFailure { kind, error: IoError::Os(13) };
    assert!(Channel::cleanup_result(Ok(())).is_ok());
    assert!(Channel::cleanup_result(Err(failure(IoErrorKind::NotFound))).is_ok());
    assert!(matches!(
        Channel::cleanup_result(Err(failure(IoErrorKind::Other))),
        Err(Error::Io(IoError::Os(13)))
    ));
}

#[test]
fn full_ring_makes_the_writer_wait() {
    let (mut server, mut client, mut shared) = connected_with("full", small(256));
    let first = vec![1u8; 240];
    send(&mut server, &mut shared, &first).unwrap();
    let result = send_limited(&mut server, &mut shared, Some(MILLI), b"x", &mut nobody);
    assert!(matches!(result, Err(Error::TimedOut)));
    assert_eq!(shared.a.writer.write_cursor, 248);

    let mut taken = Vec::new();
    let mut on_sleep = |shared: &mut Shared| {
        taken.push(recv(&mut client, shared).unwrap());
    };
    send_limited(&mut server, &mut shared, None, b"second", &mut on_sleep).unwrap();
    assert_eq!(taken, vec![first]);
    assert_eq!(shared.a.reader.parked, 0);
    assert_eq!(recv(&mut client, &mut shared).unwrap(), b"second");
}

#[test]
fn too_little_room_is_waited_on_again() {
    let fill = |server: &mut Channel, shared: &mut Shared| {
        send(server, shared, &[1; 12]).unwrap();
        send(server, shared, &[2; 172]).unwrap();
        assert_eq!(shared.a.writer.write_cursor, 200);
    };
    // The first message that is taken leaves 76 bytes free, and 188 are waited for.
    let (mut server, mut client, mut shared) = connected_with("little", small(256));
    fill(&mut server, &mut shared);
    let mut on_sleep = |shared: &mut Shared| {
        assert_eq!(shared.a.reader.parked, 1);
        recv(&mut client, shared).unwrap();
    };
    send_limited(&mut server, &mut shared, None, &[3; 180], &mut on_sleep).unwrap();
    assert_eq!(shared.sleeps, 2);
    assert_eq!(shared.a.writer.write_cursor, 388);
    assert_eq!(recv(&mut client, &mut shared).unwrap(), [3; 180]);

    // The peer dies after it has left too little room.
    let (mut server, mut client, mut shared) = connected_with("little_dead", small(256));
    fill(&mut server, &mut shared);
    let mut alive = true;
    let mut on_sleep = |shared: &mut Shared| {
        if alive {
            recv(&mut client, shared).unwrap();
            alive = false;
        } else {
            shared.peer.finish(Ok(()), &mut shared.a, &mut shared.b);
        }
    };
    let result = send_limited(&mut server, &mut shared, None, &[3; 180], &mut on_sleep);
    assert!(matches!(result, Err(Error::PeerDisconnected)));
    assert_eq!(shared.sleeps, 2);
    assert_eq!(shared.a.writer.write_cursor, 200);
    assert_eq!(shared.a.reader.parked, 0);
}

#[test]
fn message_longer_than_the_ring_is_refused() {
    let (mut server, _client, mut shared) = connected_with("long", small(256));
    let longest = vec![9u8; 248];
    send(&mut server, &mut shared, &longest).unwrap();
    let result = send(&mut server, &mut shared, &[0u8; 249]);
    assert!(matches!(result, Err(Error::MessageTooLarge { size: 249, max: 248 })));
}

#[test]
fn reader_sleeps_until_a_message_is_published() {
    let (mut server, mut client, mut shared) = connected_with("sleep", small(64));
    let mut on_sleep = |shared: &mut Shared| {
        send(&mut server, shared, b"wake").unwrap();
        // The writer finds the reader parked, so it has to wake it.
        assert_eq!(shared.a.writer.parked, 1);
    };
    let msg = recv_limited(&mut client, &mut shared, None, &mut on_sleep).unwrap();
    assert_eq!(msg, b"wake");
    assert_eq!(shared.sleeps, 1);
    assert_eq!(shared.a.writer.parked, 0);
}

#[test]
fn dead_peer_ends_a_wait() {
    let (mut server, _client, mut shared) = connected_with("dead", small(64));
    let mut on_sleep = |shared: &mut Shared| {
        shared.peer.finish(Ok(()), &mut shared.a, &mut shared.b);
    };
    let result = recv_limited(&mut server, &mut shared, None, &mut on_sleep);
    assert!(matches!(result, Err(Error::PeerDisconnected)));
    let result = send(&mut server, &mut shared, b"after-exit");
    assert!(matches!(result, Err(Error::PeerDisconnected)));
}

#[test]
fn dead_peer_ends_a_blocked_send() {
    let (mut server, _client, mut shared) = connected_with("dead_send", small(256));
    send(&mut server, &mut shared, &[0xAB; 248]).unwrap();
    let mut on_sleep = |shared: &mut Shared| {
        shared.peer.finish(Ok(()), &mut shared.a, &mut shared.b);
    };
    let result = send_limited(&mut server, &mut shared, None, b"blocked", &mut on_sleep);
    assert!(matches!(result, Err(Error::PeerDisconnected)));
}

#[test]
fn queued_messages_come_before_the_death_of_the_peer() {
    let (mut server, mut client, mut shared) = connected_with("queued", small(256));
    let queued: [&[u8]; 3] = [b"one", b"two", b"three"];
    for message in queued {
        send(&mut client, &mut shared, message).unwrap();
    }
    shared.peer.finish(Ok(()), &mut shared.a, &mut shared.b);
    for expected in queued {
        assert_eq!(recv(&mut server, &mut shared).unwrap(), expected);
    }
    assert!(try_recv(&mut server, &mut shared).unwrap().is_none());
    assert!(matches!(recv(&mut server, &mut shared), Err(Error::PeerDisconnected)));
}

#[test]
fn close_comes_before_the_death_of_the_peer() {
    let (mut server, client, mut shared) = connected_with("graceful", small(256));
    close(client, &mut shared);
    shared.peer.finish(Ok(()), &mut shared.a, &mut shared.b);
    assert!(matches!(recv(&mut server, &mut shared), Err(Error::ChannelClosed)));
    assert!(matches!(send(&mut server, &mut shared, b"x"), Err(Error::ChannelClosed)));
}

#[test]
fn failed_watch_keeps_its_error() {
    let (mut server, _client, mut shared) = connected_with("watch", small(256));
    shared.peer.finish(Err(IoError::Os(5)), &mut shared.a, &mut shared.b);
    shared.peer.finish(Ok(()), &mut shared.a, &mut shared.b);
    assert!(matches!(
        recv(&mut server, &mut shared),
        Err(Error::Io(IoError::Os(5)))
    ));
    assert_eq!(shared.a.writer.notify, 2);
    assert_eq!(shared.b.reader.notify, 2);
}

#[test]
fn ends_wait_on_what_the_other_bumps() {
    assert_eq!(
        Role::Server.send_wait_target(),
        WaitTarget { ring: RingId::A, line: RingLine::Reader }
    );
    assert_eq!(
        Role::Server.recv_wait_target(),
        WaitTarget { ring: RingId::B, line: RingLine::Writer }
    );
    assert_eq!(
        Role::Client.send_wait_target(),
        WaitTarget { ring: RingId::B, line: RingLine::Reader }
    );
    assert_eq!(
        Role::Client.recv_wait_target(),
        WaitTarget { ring: RingId::A, line: RingLine::Writer }
    );
    let (mut server, mut client, mut shared) = connected_with("bumps", small(64));
    send(&mut server, &mut shared, b"x").unwrap();
    assert_eq!((shared.a.writer.notify, shared.a.reader.notify), (1, 0));
    recv(&mut client, &mut shared).unwrap();
    assert_eq!((shared.a.writer.notify, shared.a.reader.notify), (1, 1));
    assert_eq!((shared.b.writer.notify, shared.b.reader.notify), (0, 0));
}

#[test]
fn close_at_the_last_look_leaves_nobody_parked() {
    let (mut server, _client, mut shared) = connected_with("last_look", small(64));
    let mut op: BlockingOp<ParkOp> = BlockingOp::Start;
    let mut event = WaitEvent::Proceed;
    let result = loop {
        let view = shared.recv_view(RingId::B);
        let mut line = shared.b.reader;
        let (next, step) = server.recv(op, event, &view, &mut line, &shared.data_b);
        op = next;
        match step {
            Step::Act(on, WaitAction::Park) => {
                event = shared.perform(WaitAction::Park, RingId::B, on, &mut nobody);
                shared.global.state = 4;
            }
            Step::Act(on, action) => {
                event = shared.perform(action, RingId::B, on, &mut nobody);
            }
            Step::Done { unpark, result } => {
                assert_eq!(unpark, Some(RingLine::Writer));
                *shared.word(RingId::B, RingLine::Writer).1 = 0;
                break result;
            }
        }
    };
    assert!(matches!(result, Err(Error::ChannelClosed)));
    assert_eq!(shared.b.writer.parked, 0);
}

#[test]
fn unwatched_peer_is_never_reported_dead() {
    let (mut server, client, mut shared) = connected_with("unwatched", small(64));
    send(&mut server, &mut shared, &[1; 40]).unwrap();
    let result = send_limited(&mut server, &mut shared, Some(MILLI), &[2; 40], &mut nobody);
    assert!(matches!(result, Err(Error::TimedOut)));
    let result = recv_limited(&mut server, &mut shared, Some(MILLI), &mut nobody);
    assert!(matches!(result, Err(Error::TimedOut)));
    close(client, &mut shared);
    assert!(matches!(recv(&mut server, &mut shared), Err(Error::ChannelClosed)));
}

#[test]
fn answers_that_need_no_read_cursor() {
    // A read cursor that no reader can have is not looked at where the answer is known.
    let (mut server, _client, mut shared) = connected_with("cursor", small(64));
    shared.a.reader.read_cursor = 999;
    let result = send(&mut server, &mut shared, &[0; 57]);
    assert!(matches!(result, Err(Error::MessageTooLarge { size: 57, max: 56 })));
    let view = shared.send_view(RingId::A);
    assert!(server.sender().is_ready(&view, 64, 57, false));
    assert!(server.sender().is_ready(&view, 64, 56, false));
    assert!(!server.sender().is_ready(&view, 64, 56, true));
    assert!(!server.sender().is_ready(&view, 128, 1, false));
    shared.global.state = 4;
    let view = shared.send_view(RingId::A);
    assert!(server.sender().is_free_to_try(&view, 64, 56));
    assert!(matches!(send(&mut server, &mut shared, b"x"), Err(Error::ChannelClosed)));
    let view = shared.recv_view(RingId::B);
    assert!(server.receiver().is_ready(&view, 64));
    assert!(!server.receiver().is_ready(&view, 32));
}
