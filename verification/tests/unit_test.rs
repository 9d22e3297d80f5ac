//! The parts one by one.

use shmem_ipc::circular::{is_power_of_two, masked_slot, pieces, read_ring, write_ring};
use shmem_ipc::error::{IoError, IoErrorKind};
use shmem_ipc::header::{
    ChannelState, GlobalHeader, ReadCursorLine, RingHeader, RingId, RingOffsets, WriteCursorLine,
    GLOBAL_HEADER_SIZE, MAGIC, RING_HEADER_SIZE, VERSION,
};
use shmem_ipc::platform::windows::{
    event_name, is_process_alive, stable_name_hash, timeout_to_due_time, wait_for_event,
    wait_for_event_or_timeout, wait_on_handle, AsyncWaitState, ChannelWaitSet, HandleStage,
    HandleStep, SignalKind, SleepPlan, WaitHandle, WaitObject, WaitObjects, WaitSlot, WaitStatus,
    INFINITE,
};
use shmem_ipc::platform::{new_wait_key, shm_file_name, shm_file_path, shm_path};
use shmem_ipc::platform::peer::PeerState;
use shmem_ipc::publish::{Announce, PublishStage};
use shmem_ipc::record::{from_le32, to_le32};
use shmem_ipc::ring::{
    BlockingOp, ChannelStatus, RecvView, RingReceiver, RingSender, SendView, Step, TrySendResult,
};
use shmem_ipc::text::{append_decimal, append_hex, wide};
use shmem_ipc::wait::{ParkOp, ParkPhase, SpinOp, WaitAction, WaitEvent};
use shmem_ipc::platform::windows as plain;
use shmem_ipc::{Error, Role, SpinOnly, SpinThenWait, WaitStrategy};
use windows_sys::Win32::Foundation as native;

#[test]
fn texts_of_errors() {
    let cases = [
        (Error::TimedOut, "operation timed out"),
        (Error::PeerDisconnected, "peer process disconnected"),
        (
            Error::MessageTooLarge { size: 100, max: 10 },
            "message too large: 100 bytes (max 10)",
        ),
        (Error::ChannelClosed, "channel closed"),
        (Error::InvalidHeader, "invalid shared memory header"),
        (
            Error::SequenceMismatch { expected: 2, got: 9 },
            "sequence mismatch: expected 2, got 9",
        ),
        (
            Error::Io(IoError::Os(2)),
            "I/O error: No such file or directory (os error 2)",
        ),
        (
            Error::Io(IoError::Os(-7)),
            "I/O error: No such file or directory (os error -7)",
        ),
        (
            Error::Io(IoError::Custom {
                kind: IoErrorKind::InvalidInput,
                message: "ring_size must be a power of two",
            }),
            "I/O error: ring_size must be a power of two",
        ),
    ];
    for (error, text) in cases {
        assert_eq!(error.display("No such file or directory"), text);
    }
    assert!(Error::TimedOut.source().is_none());
    assert!(matches!(
        Error::Io(IoError::Os(5)).source(),
        Some(IoError::Os(5))
    ));
    assert!(matches!(Error::from(IoError::Os(5)), Error::Io(IoError::Os(5))));
}

#[test]
fn codes_of_states() {
    let states = [
        ChannelState::Init,
        ChannelState::ServerReady,
        ChannelState::Connected,
        ChannelState::Closing,
        ChannelState::Closed,
    ];
    for (code, state) in states.iter().enumerate() {
        assert_eq!(state.to_u32(), code as u32);
        assert_eq!(ChannelState::from_u32(code as u32), Some(*state));
        assert_eq!(state.is_active(), code == 1 || code == 2);
    }
    assert_eq!(ChannelState::from_u32(5), None);
    assert_eq!(ChannelState::from_u32(u32::MAX), None);
}

#[test]
fn layout_of_the_file() {
    assert_eq!(GLOBAL_HEADER_SIZE, 256);
    assert_eq!(RING_HEADER_SIZE, 128);
    let offsets = RingOffsets::new(1024);
    assert_eq!(offsets.ring(RingId::A), (256, 384));
    assert_eq!(offsets.ring(RingId::B), (384 + 1024, 384 + 1024 + 128));
    assert_eq!(offsets.total_size, 256 + 2 * (128 + 1024));
    assert_eq!(Role::Server.write_ring(), RingId::A);
    assert_eq!(Role::Server.read_ring(), RingId::B);
    assert_eq!(Role::Client.write_ring(), RingId::B);
    assert_eq!(Role::Client.read_ring(), RingId::A);
}

#[test]
fn check_of_a_header() {
    let good = GlobalHeader {
        magic: MAGIC,
        version: VERSION,
        ring_data_size: 64,
        server_pid: 0,
        client_pid: 0,
        server_heartbeat: 0,
        client_heartbeat: 0,
        state: 0,
    };
    assert!(good.validate().is_ok());
    for bad in [
        GlobalHeader { magic: 0, ..good },
        GlobalHeader { version: VERSION + 1, ..good },
    ] {
        assert!(matches!(bad.validate(), Err(Error::InvalidHeader)));
    }
}

#[test]
fn notification_of_both_ends() {
    let mut header = RingHeader {
        writer: WriteCursorLine { write_cursor: 5, notify: u32::MAX, parked: 1 },
        reader: ReadCursorLine { read_cursor: 4, notify: 7, parked: 0 },
    };
    header.notify_all();
    assert_eq!(header.writer, WriteCursorLine { write_cursor: 5, notify: 0, parked: 1 });
    assert_eq!(header.reader, ReadCursorLine { read_cursor: 4, notify: 8, parked: 0 });
}

#[test]
fn powers_of_two() {
    for n in [1usize, 2, 4, 256, 1 << 24, 1 << 63] {
        assert!(is_power_of_two(n));
    }
    for n in [0usize, 3, 6, 255, 257, usize::MAX] {
        assert!(!is_power_of_two(n));
    }
}

#[test]
fn runs_of_slots() {
    assert_eq!(pieces(0, 5, 8), ((0, 5), (0, 0)));
    assert_eq!(pieces(6, 11, 8), ((6, 2), (0, 3)));
    assert_eq!(pieces(16, 24, 8), ((0, 8), (0, 0)));
    assert_eq!(pieces(13, 21, 8), ((5, 3), (0, 5)));
    assert_eq!(pieces(13, 100, 8), ((5, 3), (0, 5)));
    assert_eq!(pieces(9, 9, 8), ((1, 0), (0, 0)));
    assert_eq!(pieces(u64::MAX - 1, u64::MAX, 3), ((2, 1), (0, 0)));
}

#[test]
fn bytes_go_round_the_ring() {
    let mut data = [0u8; 8];
    assert_eq!(masked_slot(13, 7), 5);
    write_ring(&mut data, 7, 13, &[1, 2, 3, 4, 5]);
    assert_eq!(data, [4, 5, 0, 0, 0, 1, 2, 3]);
    let mut out = [9u8; 6];
    read_ring(&data, 7, 13, &mut out, 5);
    assert_eq!(out, [1, 2, 3, 4, 5, 9]);
}

#[test]
fn numbers_in_records() {
    assert_eq!(to_le32(0x0102_0304), [4, 3, 2, 1]);
    assert_eq!(from_le32(&[9, 4, 3, 2, 1], 1), 0x0102_0304);
    assert_eq!(from_le32(&to_le32(u32::MAX), 0), u32::MAX);
}

#[test]
fn numbers_as_text() {
    let mut out = String::from("n=");
    append_decimal(&mut out, 0);
    append_decimal(&mut out, 1203);
    append_decimal(&mut out, u64::MAX);
    assert_eq!(out, "n=0120318446744073709551615");
    let mut out = String::new();
    append_hex(&mut out, 0xabc, 6);
    append_hex(&mut out, 0x12345, 2);
    assert_eq!(out, "000abc45");
}

#[test]
fn text_in_utf16() {
    assert_eq!(wide("ab"), vec![0x61, 0x62, 0]);
    assert_eq!(wide(""), vec![0]);
    assert_eq!(wide("\u{FFFD}\u{1F600}"), vec![0xFFFD, 0xD83D, 0xDE00, 0]);
    let text = "Zażółć 日本 \u{10FFFF}\u{10000}";
    let expected: Vec<u16> = text.encode_utf16().chain(std::iter::once(0)).collect();
    assert_eq!(wide(text), expected);
}

#[test]
fn paths() {
    assert_eq!(shm_path("demo"), "/dev/shm/shmem_ipc_demo");
    assert_eq!(shm_file_name("demo"), "shmem_ipc_demo");
    assert_eq!(shm_file_path("shmem_ipc_demo"), "/dev/shm/shmem_ipc_demo");
}

#[test]
fn wait_keys() {
    let now: u128 = 0x1234_5678_9ABC_DEF0_0FED_CBA9_8765_4321;
    let expected = (now as u64).rotate_left(17)
        ^ 4711u64.wrapping_mul(0x9E37_79B9_7F4A_7C15)
        ^ 3;
    assert_eq!(new_wait_key(now, 4711, 3), expected);
    assert_eq!(new_wait_key(1, 0, 0), 1 << 17);
    assert_ne!(new_wait_key(now, 4711, 3), new_wait_key(now, 4711, 4));
}

#[test]
fn hash_of_a_name() {
    assert_eq!(stable_name_hash(""), 0xcbf2_9ce4_8422_2325);
    assert_eq!(stable_name_hash("a"), 0xaf63_dc4c_8601_ec8c);
    assert_eq!(stable_name_hash("foobar"), 0x8594_4171_f739_67e8);
}

#[test]
fn names_of_events() {
    let name = event_name("a", 0x1F, WaitSlot::RingBReader, SignalKind::Async);
    let text = String::from_utf16(&name[..name.len() - 1]).unwrap();
    assert_eq!(
        text,
        "Local\\shmem_ipc_af63dc4c8601ec8c_000000000000001f_b_reader_async"
    );
    assert_eq!(name.last(), Some(&0));
    let mut names = Vec::new();
    for slot in ChannelWaitSet::new() {
        for kind in [SignalKind::Sync, SignalKind::Async] {
            for key in [1u64, 2] {
                names.push(event_name("chan", key, slot, kind));
            }
        }
    }
    let count = names.len();
    names.sort();
    names.dedup();
    assert_eq!(names.len(), count);
    assert_eq!(WaitSlot::RingAWriter.suffix(), "a_writer");
    assert_eq!(WaitSlot::RingAReader.suffix(), "a_reader");
    assert_eq!(WaitSlot::RingBWriter.suffix(), "b_writer");
    assert_eq!(SignalKind::Sync.suffix(), "sync");
}

#[test]
fn timers() {
    assert_eq!(timeout_to_due_time(0), 0);
    assert_eq!(timeout_to_due_time(1), -1);
    assert_eq!(timeout_to_due_time(100), -1);
    assert_eq!(timeout_to_due_time(101), -2);
    assert_eq!(timeout_to_due_time(5_000_000), -50_000);
    assert_eq!(timeout_to_due_time(u128::MAX), -i64::MAX);
    assert_eq!(wait_on_handle(None), SleepPlan::Event { timeout_ms: INFINITE });
    assert_eq!(wait_on_handle(Some(0)), SleepPlan::Event { timeout_ms: 0 });
    assert_eq!(wait_on_handle(Some(250)), SleepPlan::EventOrTimer { due_time: -3 });
}

#[test]
fn statuses_of_waits() {
    assert_eq!(wait_for_event(0), WaitStatus::Over);
    assert_eq!(wait_for_event(258), WaitStatus::Over);
    assert_eq!(wait_for_event(0xFFFF_FFFF), WaitStatus::Failed);
    assert_eq!(wait_for_event(128), WaitStatus::Unexpected(128));
    assert_eq!(wait_for_event_or_timeout(0), WaitStatus::StopTimer);
    assert_eq!(wait_for_event_or_timeout(1), WaitStatus::Over);
    assert_eq!(wait_for_event_or_timeout(0xFFFF_FFFF), WaitStatus::Failed);
    assert_eq!(wait_for_event_or_timeout(258), WaitStatus::Unexpected(258));
}

#[test]
fn opening_wait_objects() {
    let slot = WaitSlot::RingAWriter;
    let mut stage = HandleStage::Start;
    let (next, step) = WaitHandle::open("c", 1, slot, stage, Ok(()));
    stage = next;
    match step {
        HandleStep::CreateEvent(name) => {
            assert_eq!(name, event_name("c", 1, slot, SignalKind::Sync));
        }
        _ => panic!("no event"),
    }
    match WaitHandle::open("c", 1, slot, stage, Err(IoError::Os(8))).1 {
        HandleStep::Fail { close, error: IoError::Os(8) } => assert!(close.is_empty()),
        _ => panic!("no failure"),
    }
    let (next, step) = WaitHandle::open("c", 1, slot, stage, Ok(()));
    stage = next;
    match step {
        HandleStep::CreateEvent(name) => {
            assert_eq!(name, event_name("c", 1, slot, SignalKind::Async));
        }
        _ => panic!("no event"),
    }
    match WaitHandle::open("c", 1, slot, stage, Err(IoError::Os(8))).1 {
        HandleStep::Fail { close, .. } => assert_eq!(close, vec![WaitObject::Event]),
        _ => panic!("no failure"),
    }
    let (next, step) = WaitHandle::open("c", 1, slot, stage, Ok(()));
    stage = next;
    assert!(matches!(step, HandleStep::CreateTimer));
    match WaitHandle::open("c", 1, slot, stage, Err(IoError::Os(8))).1 {
        HandleStep::Fail { close, .. } => {
            assert_eq!(close, vec![WaitObject::Event, WaitObject::AsyncEvent]);
        }
        _ => panic!("no failure"),
    }
    assert!(matches!(
        WaitHandle::open("c", 1, slot, stage, Ok(())).1,
        HandleStep::Ready
    ));
}

#[test]
fn releasing_wait_objects() {
    let all = WaitObjects {
        registered: true,
        event: true,
        async_event: true,
        timeout_timer: true,
    };
    assert_eq!(
        all.release(),
        vec![
            WaitObject::Registration,
            WaitObject::Event,
            WaitObject::AsyncEvent,
            WaitObject::Timer,
        ]
    );
    let some = WaitObjects { registered: false, async_event: false, ..all };
    assert_eq!(some.release(), vec![WaitObject::Event, WaitObject::Timer]);
    let none = WaitObjects { event: false, timeout_timer: false, ..some };
    assert!(none.release().is_empty());
}

#[test]
fn signals_for_tasks() {
    let mut wait = AsyncWaitState::new();
    assert!(!wait.poll(7, false));
    assert_eq!(wait.callback(), Some(7));
    assert!(wait.poll(7, false));
    assert!(!wait.poll(8, false));
    assert!(wait.poll(8, true));
    assert_eq!(wait.waker, None);
    assert_eq!(wait.callback(), None);
    wait.clear_waiter();
    assert_eq!(wait, AsyncWaitState::new());
    assert!(AsyncWaitState::prepare_wait(false));
    assert!(!AsyncWaitState::prepare_wait(true));
}

#[test]
fn life_of_a_process() {
    assert!(is_process_alive(true, Some(259)));
    assert!(!is_process_alive(true, Some(0)));
    assert!(!is_process_alive(true, None));
    assert!(!is_process_alive(false, Some(259)));
}

fn wait_actions(
    wait: &SpinThenWait,
    timeout: Option<u128>,
    steps: &[(WaitEvent, Result<bool, Error>)],
) -> Vec<WaitAction> {
    let mut op: ParkOp = wait.begin(timeout);
    let mut actions = Vec::new();
    for (event, condition) in steps {
        let (next, action) = wait.wait_until(op, *event, *condition);
        op = next;
        actions.push(action);
    }
    actions
}

#[test]
fn steps_that_do_not_look() {
    for condition in [Ok(true), Ok(false), Err(Error::ChannelClosed)] {
        let wait = SpinThenWait { spin_count: 0 };
        let actions = wait_actions(
            &wait,
            Some(100),
            &[
                (WaitEvent::Proceed, condition),
                (WaitEvent::Clock(1000), condition),
                (WaitEvent::Notify(7), Ok(false)),
                (WaitEvent::Clock(1040), condition),
                (WaitEvent::Proceed, Ok(false)),
                (WaitEvent::Proceed, condition),
                (WaitEvent::Proceed, condition),
            ],
        );
        assert!(matches!(
            actions[..],
            [
                WaitAction::ReadClock,
                WaitAction::LoadNotify,
                WaitAction::ReadClock,
                WaitAction::Park,
                WaitAction::Sleep { expected: 7, timeout: Some(60) },
                WaitAction::Unpark,
                WaitAction::LoadNotify,
            ]
        ));
    }
}

#[test]
fn spin_then_sleep() {
    let wait = SpinThenWait { spin_count: 2 };
    let actions = wait_actions(
        &wait,
        Some(100),
        &[
            (WaitEvent::Proceed, Ok(false)),
            (WaitEvent::Proceed, Ok(false)),
            (WaitEvent::Proceed, Ok(false)),
            (WaitEvent::Clock(1000), Ok(false)),
            (WaitEvent::Notify(5), Ok(false)),
            (WaitEvent::Clock(1040), Ok(false)),
            (WaitEvent::Proceed, Ok(false)),
            (WaitEvent::Proceed, Ok(false)),
            (WaitEvent::Proceed, Ok(false)),
            (WaitEvent::Notify(6), Ok(false)),
            (WaitEvent::Clock(1100), Ok(false)),
        ],
    );
    assert!(matches!(
        actions[..],
        [
            WaitAction::SpinLoop,
            WaitAction::SpinLoop,
            WaitAction::ReadClock,
            WaitAction::LoadNotify,
            WaitAction::ReadClock,
            WaitAction::Park,
            WaitAction::Sleep { expected: 5, timeout: Some(60) },
            WaitAction::Unpark,
            WaitAction::LoadNotify,
            WaitAction::ReadClock,
            WaitAction::Finish(Err(Error::TimedOut)),
        ]
    ));
}

#[test]
fn last_look_before_a_sleep() {
    let wait = SpinThenWait { spin_count: 0 };
    let actions = wait_actions(
        &wait,
        None,
        &[
            (WaitEvent::Proceed, Ok(true)),
            (WaitEvent::Notify(5), Ok(false)),
            (WaitEvent::Proceed, Ok(true)),
        ],
    );
    assert!(matches!(
        actions[..],
        [
            WaitAction::LoadNotify,
            WaitAction::Park,
            WaitAction::UnparkFinish(Ok(())),
        ]
    ));
    let op = wait.begin(None);
    assert!(matches!(op.phase, ParkPhase::Spin { left: 0 }));
    assert!(wait.wake_if_parked(1));
    assert!(!wait.wake_if_parked(0));
    assert!(wait.wake_force());
}

#[test]
fn condition_that_fails_ends_a_wait() {
    let wait = SpinThenWait { spin_count: 1 };
    let actions = wait_actions(&wait, None, &[(WaitEvent::Proceed, Err(Error::ChannelClosed))]);
    assert!(matches!(
        actions[..],
        [WaitAction::Finish(Err(Error::ChannelClosed))]
    ));
    // Parked already, it is unparked.
    let wait = SpinThenWait { spin_count: 0 };
    let actions = wait_actions(
        &wait,
        None,
        &[
            (WaitEvent::Proceed, Ok(false)),
            (WaitEvent::Notify(5), Ok(false)),
            (WaitEvent::Proceed, Err(Error::PeerDisconnected)),
        ],
    );
    assert!(matches!(
        actions[..],
        [
            WaitAction::LoadNotify,
            WaitAction::Park,
            WaitAction::UnparkFinish(Err(Error::PeerDisconnected)),
        ]
    ));
}

/// Runs a spinning wait whose condition never holds. Counts the looks.
fn spin(timeout: Option<u128>, clock: &mut dyn FnMut() -> u128, limit: u32) -> (u32, bool) {
    let mut op: SpinOp = SpinOnly.begin(timeout);
    let mut event = WaitEvent::Proceed;
    let mut looks = 0;
    while looks < limit {
        let (next, action) = SpinOnly.wait_until(op, event, Ok(false));
        op = next;
        match action {
            WaitAction::SpinLoop => {
                looks += 1;
                event = WaitEvent::Proceed;
            }
            WaitAction::ReadClock => event = WaitEvent::Clock(clock()),
            WaitAction::Finish(Err(Error::TimedOut)) => return (looks, true),
            other => panic!("unexpected action {other:?}"),
        }
    }
    (looks, false)
}

#[test]
fn spinning_wait_reads_the_clock_now_and_then() {
    let mut reads = 0;
    let (looks, over) = spin(
        Some(10),
        &mut || {
            reads += 1;
            reads as u128 * 6
        },
        1_000_000,
    );
    assert!(over);
    assert_eq!(reads, 3);
    assert_eq!(looks, 2048);
    let (looks, over) = spin(None, &mut || panic!("no deadline"), 5000);
    assert!(!over);
    assert_eq!(looks, 5000);
}

#[test]
fn numbers_of_the_operating_systems() {
    assert_eq!(shmem_ipc::platform::linux::ESRCH, libc::ESRCH);
    assert_eq!(shmem_ipc::platform::linux::EIO, libc::EIO);
    assert_eq!(shmem_ipc::platform::linux::EBADF, libc::EBADF);
    assert_eq!(plain::WAIT_OBJECT_0, native::WAIT_OBJECT_0);
    assert_eq!(plain::WAIT_TIMEOUT, native::WAIT_TIMEOUT);
    assert_eq!(plain::WAIT_FAILED, native::WAIT_FAILED);
    assert_eq!(plain::STILL_ACTIVE as i32, native::STILL_ACTIVE);
    assert_eq!(plain::ERROR_INVALID_PARAMETER as u32, native::ERROR_INVALID_PARAMETER);
    assert_eq!(plain::INFINITE, windows_sys::Win32::System::Threading::INFINITE);
    assert_eq!(shmem_ipc::pipe::ERROR_PIPE_CONNECTED as u32, native::ERROR_PIPE_CONNECTED);
    assert_eq!(shmem_ipc::tokio::listener::ERROR_PIPE_BUSY as u32, native::ERROR_PIPE_BUSY);
}

#[test]
fn ring_too_small_for_a_record() {
    let mut reader = RingReceiver::new(4);
    let mut line = ReadCursorLine { read_cursor: 0, notify: 0, parked: 0 };
    let mut data = [0u8; 4];
    assert!(matches!(reader.try_recv(0, &mut line, &data), Ok(None)));

    let closed = ChannelStatus {
        peer: PeerState::new(),
        state: ChannelState::Closed.to_u32(),
    };
    let view = RecvView { write_cursor: 0, status: closed, write_cursor_again: 0 };
    let wait = SpinThenWait { spin_count: 1 };
    let (_, step) = reader.recv(
        &wait,
        None,
        BlockingOp::Start,
        WaitEvent::Proceed,
        &view,
        &mut line,
        &data,
    );
    assert!(matches!(step, Step::Done { unpark: None, result: Err(Error::ChannelClosed) }));
    assert_eq!((line.read_cursor, line.notify), (0, 0));

    let mut writer = RingSender::new(4);
    let mut line = WriteCursorLine { write_cursor: 0, notify: 0, parked: 0 };
    let view = SendView { status: closed, read_cursor: 0 };
    let sent = writer.try_send_once(&view, &mut line, &mut data, b"");
    assert!(matches!(sent, Err(Error::ChannelClosed)));
}

#[test]
fn record_fills_the_ring_exactly() {
    let open = ChannelStatus {
        peer: PeerState::new(),
        state: ChannelState::Connected.to_u32(),
    };
    let mut writer = RingSender::new(8);
    let mut line = WriteCursorLine { write_cursor: 0, notify: u32::MAX, parked: 0 };
    let mut data = [0xAAu8; 8];
    let view = SendView { status: open, read_cursor: 0 };
    let sent = writer.try_send_once(&view, &mut line, &mut data, b"");
    assert!(matches!(sent, Ok(TrySendResult::Sent)));
    assert_eq!(data, [0, 0, 0, 0, 1, 0, 0, 0]);
    assert_eq!((line.write_cursor, line.notify), (8, 0));
    let sent = writer.try_send_once(&view, &mut line, &mut data, b"");
    assert!(matches!(sent, Ok(TrySendResult::Full)));
    let sent = writer.try_send_once(&view, &mut line, &mut data, b"x");
    assert!(matches!(sent, Err(Error::MessageTooLarge { size: 1, max: 0 })));
}

#[test]
fn order_of_a_publication() {
    let run = |announce: Announce, parked: u32| {
        let mut stages = vec![PublishStage::Store];
        while let Some(stage) = stages.last().copied() {
            if stage == PublishStage::Over {
                break;
            }
            stages.push(stage.step(announce, parked));
        }
        stages
    };
    assert_eq!(
        run(Announce::IfParked, 1),
        vec![
            PublishStage::Store,
            PublishStage::Bump,
            PublishStage::LoadParked,
            PublishStage::Wake,
            PublishStage::Over,
        ]
    );
    assert_eq!(
        run(Announce::IfParked, 0),
        vec![
            PublishStage::Store,
            PublishStage::Bump,
            PublishStage::LoadParked,
            PublishStage::Over,
        ]
    );
    assert_eq!(
        run(Announce::Always, 0),
        vec![
            PublishStage::Store,
            PublishStage::Bump,
            PublishStage::Wake,
            PublishStage::Over,
        ]
    );
    let line = WriteCursorLine { write_cursor: 8, notify: 1, parked: 0 };
    assert_eq!(line.publication(&line), PublishStage::Over);
    let moved = WriteCursorLine { write_cursor: 17, notify: 2, parked: 0 };
    assert_eq!(line.publication(&moved), PublishStage::Store);
    let line = ReadCursorLine { read_cursor: 8, notify: 1, parked: 0 };
    assert_eq!(line.publication(&line), PublishStage::Over);
    let moved = ReadCursorLine { read_cursor: 17, notify: 2, parked: 0 };
    assert_eq!(line.publication(&moved), PublishStage::Store);
}

#[test]
fn kinds_of_errors() {
    assert_eq!(IoError::Os(2).kind(), None);
    let custom = IoError::Custom { kind: IoErrorKind::BrokenPipe, message: "m" };
    assert_eq!(custom.kind(), Some(IoErrorKind::BrokenPipe));
    let context = IoError::Context { message: "m", code: 1 };
    assert_eq!(context.kind(), Some(IoErrorKind::Other));
    let text = IoError::NotUtf8 { valid_up_to: 0, error_len: None };
    assert_eq!(text.kind(), Some(IoErrorKind::InvalidData));
}
