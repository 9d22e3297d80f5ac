//! What Windows is asked for, and what its answers mean.
//!
//! Each wait of a channel has two named events, one for threads and one for tasks, and a
//! timer that bounds the wait of a thread.

#[allow(unused_imports)]
use vstd::arithmetic::power::pow;
use vstd::prelude::*;
use vstd::string::StringExecFns;

use crate::error::{Error, IoError, Result};
use crate::platform::peer::PeerWait;
use crate::text::{append_hex, wide};
#[allow(unused_imports)]
use crate::text::{hex, lemma_hex_injective, lemma_hex_len, lemma_utf16_injective, utf16};

verus! {

/// A wait without end, in milliseconds.
pub const INFINITE: u32 = 0xFFFF_FFFF;

/// The first of the objects that were waited for was signaled.
pub const WAIT_OBJECT_0: u32 = 0;

/// The time was over first.
pub const WAIT_TIMEOUT: u32 = 258;

/// The wait failed.
pub const WAIT_FAILED: u32 = 0xFFFF_FFFF;

/// The exit code of a process that has not exited.
pub const STILL_ACTIVE: u32 = 259;

/// Who waits: the writer or the reader of one of the rings.
#[derive(Debug, Clone, Copy, PartialEq, Eq, Structural)]
pub enum WaitSlot {
    RingAWriter,
    RingAReader,
    RingBWriter,
    RingBReader,
}

impl WaitSlot {
    /// The part of an event's name that says who waits.
    pub open spec fn text(self) -> Seq<char> {
        match self {
            WaitSlot::RingAWriter => "a_writer"@,
            WaitSlot::RingAReader => "a_reader"@,
            WaitSlot::RingBWriter => "b_writer"@,
            WaitSlot::RingBReader => "b_reader"@,
        }
    }

    /// The part of an event's name that says who waits.
    pub fn suffix(self) -> (r: &'static str)
        ensures
            r@ == self.text(),
    {
        match self {
            WaitSlot::RingAWriter => "a_writer",
            WaitSlot::RingAReader => "a_reader",
            WaitSlot::RingBWriter => "b_writer",
            WaitSlot::RingBReader => "b_reader",
        }
    }
}

/// What waits: a thread or a task.
#[derive(Debug, Clone, Copy, PartialEq, Eq, Structural)]
pub enum SignalKind {
    Sync,
    Async,
}

impl SignalKind {
    /// The part of an event's name that says what waits.
    pub open spec fn text(self) -> Seq<char> {
        match self {
            SignalKind::Sync => "sync"@,
            SignalKind::Async => "async"@,
        }
    }

    /// The part of an event's name that says what waits.
    pub fn suffix(self) -> (r: &'static str)
        ensures
            r@ == self.text(),
    {
        match self {
            SignalKind::Sync => "sync",
            SignalKind::Async => "async",
        }
    }
}

/// The hash of no bytes.
pub const HASH_BASIS: u64 = 0xcbf2_9ce4_8422_2325;

/// What the hash is multiplied by at each byte.
pub const HASH_PRIME: u64 = 0x0000_0100_0000_01b3;

/// The 64-bit FNV-1a hash of some bytes.
pub open spec fn fnv1a(bytes: Seq<u8>) -> u64
    decreases bytes.len(),
{
    if bytes.len() == 0 {
        HASH_BASIS
    } else {
        (((fnv1a(bytes.drop_last()) ^ (bytes.last() as u64)) as nat * HASH_PRIME as nat)
            % 0x1_0000_0000_0000_0000) as u64
    }
}

/// The hash of a channel's name: the same in every process and every build.
pub fn stable_name_hash(channel_name: &str) -> (r: u64)
    ensures
        r == fnv1a(vstd::utf8::encode_utf8(channel_name@)),
{
    let bytes = channel_name.as_bytes();
    let len: usize = bytes.len();
    let mut hash: u64 = HASH_BASIS;
    let mut i: usize = 0;
    while i < len
        invariant
            i <= len,
            len == bytes@.len(),
            hash == fnv1a(bytes@.take(i as int)),
        decreases len - i,
    {
        let mixed: u64 = hash ^ (bytes[i] as u64);
        hash = mixed.wrapping_mul(HASH_PRIME);
        proof {
            let front = bytes@.take(i + 1);
            assert(front.drop_last() =~= bytes@.take(i as int));
            assert(front.last() == bytes@[i as int]);
            assert(mixed as nat * HASH_PRIME as nat >= 0) by (nonlinear_arith);
        }
        i += 1;
    }
    proof {
        assert(bytes@.take(len as int) =~= bytes@);
    }
    hash
}

/// The name of an event: of this session, for one channel, one generation of it, one
/// wait and one kind of waiter.
pub open spec fn event_text(
    channel_name: Seq<char>,
    wait_key: u64,
    slot: WaitSlot,
    kind: SignalKind,
) -> Seq<char> {
    "Local\\shmem_ipc_"@ + hex(fnv1a(vstd::utf8::encode_utf8(channel_name)) as nat, 16) + "_"@
        + hex(wait_key as nat, 16) + "_"@ + slot.text() + "_"@ + kind.text()
}

/// The name of an event, in UTF-16 and closed by a zero.
pub fn event_name(channel_name: &str, wait_key: u64, slot: WaitSlot, kind: SignalKind) -> (r: Vec<
    u16,
>)
    ensures
        r@ == utf16(event_text(channel_name@, wait_key, slot, kind)).push(0),
{
    let name_hash = stable_name_hash(channel_name);
    let mut out = String::from_str("Local\\shmem_ipc_");
    append_hex(&mut out, name_hash, 16);
    out.append("_");
    append_hex(&mut out, wait_key, 16);
    out.append("_");
    out.append(slot.suffix());
    out.append("_");
    out.append(kind.suffix());
    wide(out.as_str())
}

/// Every wait object of a channel has a name of its own: no two waits, kinds of waiter or
/// generations share one.
pub proof fn law_wait_objects_have_names_of_their_own(
    channel_name: Seq<char>,
    key_a: u64,
    slot_a: WaitSlot,
    kind_a: SignalKind,
    key_b: u64,
    slot_b: WaitSlot,
    kind_b: SignalKind,
)
    requires
        utf16(event_text(channel_name, key_a, slot_a, kind_a)).push(0) == utf16(
            event_text(channel_name, key_b, slot_b, kind_b),
        ).push(0),
    ensures
        key_a == key_b,
        slot_a == slot_b,
        kind_a == kind_b,
{
    let a = event_text(channel_name, key_a, slot_a, kind_a);
    let b = event_text(channel_name, key_b, slot_b, kind_b);
    assert(utf16(a) =~= utf16(a).push(0).drop_last());
    assert(utf16(b) =~= utf16(b).push(0).drop_last());
    lemma_utf16_injective(a, b);
    let front = "Local\\shmem_ipc_"@ + hex(
        fnv1a(vstd::utf8::encode_utf8(channel_name)) as nat,
        16,
    ) + "_"@;
    let key_text_a = hex(key_a as nat, 16);
    let key_text_b = hex(key_b as nat, 16);
    lemma_hex_len(key_a as nat, 16);
    lemma_hex_len(key_b as nat, 16);
    let n = front.len() as int;
    assert(a.subrange(n, n + 16) =~= key_text_a);
    assert(b.subrange(n, n + 16) =~= key_text_b);
    assert(pow(16, 16) == 0x1_0000_0000_0000_0000) by {
        reveal_with_fuel(pow, 17);
    }
    lemma_hex_injective(key_a as nat, key_b as nat, 16);
    let head = front + key_text_a + "_"@;
    let m = head.len() as int;
    reveal_strlit("_");
    reveal_strlit("a_writer");
    reveal_strlit("a_reader");
    reveal_strlit("b_writer");
    reveal_strlit("b_reader");
    reveal_strlit("sync");
    reveal_strlit("async");
    assert(a.subrange(m, m + 8) =~= slot_a.text());
    assert(b.subrange(m, m + 8) =~= slot_b.text());
    assert(slot_a.text()[0] == slot_b.text()[0]);
    assert(slot_a.text()[2] == slot_b.text()[2]);
    assert(slot_a == slot_b);
    assert(a.len() == m + 9 + kind_a.text().len());
    assert(b.len() == m + 9 + kind_b.text().len());
}

/// How long a timer runs, in units of 100 nanoseconds and negative, as a relative due
/// time is: `timeout` nanoseconds rounded up, or as long as the type allows.
pub open spec fn due_time(timeout: int) -> int {
    let ticks = (timeout + 99) / 100;
    if ticks <= i64::MAX {
        -ticks
    } else {
        -(i64::MAX as int)
    }
}

/// The due time of a timer that runs `timeout` nanoseconds.
pub fn timeout_to_due_time(timeout: u128) -> (r: i64)
    ensures
        r == due_time(timeout as int),
{
    let ticks: u128 = timeout / 100 + if timeout % 100 != 0 {
        1
    } else {
        0
    };
    if ticks <= i64::MAX as u128 {
        -(ticks as i64)
    } else {
        -i64::MAX
    }
}

/// A timer never runs for less than it was asked to, as long as the type can hold it, and
/// for less than 100 nanoseconds more.
pub proof fn law_timer_does_not_run_short(timeout: int)
    requires
        0 <= timeout <= 100 * i64::MAX,
    ensures
        timeout <= -100 * due_time(timeout) < timeout + 100,
{
}

/// How a thread is to sleep.
#[derive(Debug, Clone, Copy, PartialEq, Eq, Structural)]
pub enum SleepPlan {
    /// Wait for the event, so many milliseconds at most.
    Event { timeout_ms: u32 },
    /// Set the timer, then wait for the event or the timer.
    EventOrTimer { due_time: i64 },
}

/// How a thread is to sleep that waits `timeout` nanoseconds at most.
pub fn wait_on_handle(timeout: Option<u128>) -> (r: SleepPlan)
    ensures
        match timeout {
            None => r == (SleepPlan::Event { timeout_ms: INFINITE }),
            Some(0) => r == (SleepPlan::Event { timeout_ms: 0 }),
            Some(timeout) => r matches SleepPlan::EventOrTimer { due_time: d } && d == due_time(
                timeout as int,
            ),
        },
{
    match timeout {
        None => SleepPlan::Event { timeout_ms: INFINITE },
        Some(timeout) => {
            if timeout == 0 {
                SleepPlan::Event { timeout_ms: 0 }
            } else {
                SleepPlan::EventOrTimer { due_time: timeout_to_due_time(timeout) }
            }
        },
    }
}

/// What a wait came to.
#[derive(Debug, Clone, Copy, PartialEq, Eq, Structural)]
pub enum WaitStatus {
    /// The wait is over; there is nothing else to do.
    Over,
    /// The event was signaled: the timer is to be stopped, and a signal that it may have
    /// given already is to be taken back.
    StopTimer,
    /// The wait failed.
    Failed,
    /// The status is none that a wait can have.
    Unexpected(u32),
}

/// What the status of a wait for one event means.
pub fn wait_for_event(status: u32) -> (r: WaitStatus)
    ensures
        r == if status == WAIT_OBJECT_0 || status == WAIT_TIMEOUT {
            WaitStatus::Over
        } else if status == WAIT_FAILED {
            WaitStatus::Failed
        } else {
            WaitStatus::Unexpected(status)
        },
{
    if status == WAIT_OBJECT_0 || status == WAIT_TIMEOUT {
        WaitStatus::Over
    } else if status == WAIT_FAILED {
        WaitStatus::Failed
    } else {
        WaitStatus::Unexpected(status)
    }
}

/// What the status of a wait for the event or the timer means.
pub fn wait_for_event_or_timeout(status: u32) -> (r: WaitStatus)
    ensures
        r == if status == WAIT_OBJECT_0 {
            WaitStatus::StopTimer
        } else if status == WAIT_OBJECT_0 + 1 {
            WaitStatus::Over
        } else if status == WAIT_FAILED {
            WaitStatus::Failed
        } else {
            WaitStatus::Unexpected(status)
        },
{
    if status == WAIT_OBJECT_0 {
        WaitStatus::StopTimer
    } else if status == WAIT_OBJECT_0 + 1 {
        WaitStatus::Over
    } else if status == WAIT_FAILED {
        WaitStatus::Failed
    } else {
        WaitStatus::Unexpected(status)
    }
}

/// The objects of one wait.
#[derive(Debug, Clone, Copy, PartialEq, Eq, Structural)]
pub enum WaitObject {
    /// The registration of a task's wait.
    Registration,
    Event,
    AsyncEvent,
    Timer,
}

/// What to do next to open the objects of one wait.
pub enum HandleStep {
    /// Create or open the event of this name.
    CreateEvent(Vec<u16>),
    /// Create a timer.
    CreateTimer,
    /// All are open.
    Ready,
    /// Close these, then report the error.
    Fail { close: Vec<WaitObject>, error: IoError },
}

/// Which object of a wait is being opened.
#[derive(Debug, Clone, Copy, PartialEq, Eq, Structural)]
pub enum HandleStage {
    /// None yet.
    Start,
    Event,
    AsyncEvent,
    Timer,
}

impl HandleStage {
    /// The objects that are open while this one is being opened.
    pub open spec fn open_before(self) -> Seq<WaitObject> {
        match self {
            HandleStage::Start | HandleStage::Event => Seq::empty(),
            HandleStage::AsyncEvent => seq![WaitObject::Event],
            HandleStage::Timer => seq![WaitObject::Event, WaitObject::AsyncEvent],
        }
    }
}

/// The objects of one wait, as its owner sees them.
pub struct WaitHandle;

impl WaitHandle {
    /// What a step of opening the objects of a wait answers: the event for threads, the
    /// event for tasks and the timer are opened in turn, and where one cannot be, those
    /// opened before are closed.
    pub open spec fn opened(
        channel_name: Seq<char>,
        wait_key: u64,
        slot: WaitSlot,
        stage: HandleStage,
        result: std::result::Result<(), IoError>,
        r: (HandleStage, HandleStep),
    ) -> bool {
        match (result, stage) {
            (Err(e), _) => r.1 matches HandleStep::Fail { close, error } && error == e && close@
                == stage.open_before(),
            (Ok(()), HandleStage::Start) => {
                &&& r.0 == HandleStage::Event
                &&& r.1 matches HandleStep::CreateEvent(name)
                &&& name@ == utf16(
                    event_text(channel_name, wait_key, slot, SignalKind::Sync),
                ).push(0)
            },
            (Ok(()), HandleStage::Event) => {
                &&& r.0 == HandleStage::AsyncEvent
                &&& r.1 matches HandleStep::CreateEvent(name)
                &&& name@ == utf16(
                    event_text(channel_name, wait_key, slot, SignalKind::Async),
                ).push(0)
            },
            (Ok(()), HandleStage::AsyncEvent) => r.0 == HandleStage::Timer
                && r.1 is CreateTimer,
            (Ok(()), HandleStage::Timer) => r.1 is Ready,
        }
    }

    /// One step of opening the objects of a wait. It begins with `HandleStage::Start` and
    /// `Ok(())`.
    pub fn open(
        channel_name: &str,
        wait_key: u64,
        slot: WaitSlot,
        stage: HandleStage,
        result: std::result::Result<(), IoError>,
    ) -> (r: (HandleStage, HandleStep))
        ensures
            Self::opened(channel_name@, wait_key, slot, stage, result, r),
    {
        match result {
            Err(error) => {
                let mut close: Vec<WaitObject> = Vec::new();
                match stage {
                    HandleStage::Start | HandleStage::Event => {},
                    HandleStage::AsyncEvent => {
                        close.push(WaitObject::Event);
                    },
                    HandleStage::Timer => {
                        close.push(WaitObject::Event);
                        close.push(WaitObject::AsyncEvent);
                    },
                }
                assert(close@ =~= stage.open_before());
                (stage, HandleStep::Fail { close, error })
            },
            Ok(()) => match stage {
                HandleStage::Start => (
                    HandleStage::Event,
                    HandleStep::CreateEvent(
                        event_name(channel_name, wait_key, slot, SignalKind::Sync),
                    ),
                ),
                HandleStage::Event => (
                    HandleStage::AsyncEvent,
                    HandleStep::CreateEvent(
                        event_name(channel_name, wait_key, slot, SignalKind::Async),
                    ),
                ),
                HandleStage::AsyncEvent => (HandleStage::Timer, HandleStep::CreateTimer),
                HandleStage::Timer => (HandleStage::Timer, HandleStep::Ready),
            },
        }
    }
}

/// The waits of a channel in the order in which their objects are opened.
pub struct ChannelWaitSet;

impl ChannelWaitSet {
    /// The waits of a channel in the order in which their objects are opened; the first
    /// that fails decides.
    pub fn new() -> (r: [WaitSlot; 4])
        ensures
            r@ == seq![
                WaitSlot::RingAWriter,
                WaitSlot::RingAReader,
                WaitSlot::RingBWriter,
                WaitSlot::RingBReader,
            ],
    {
        let r = [
            WaitSlot::RingAWriter,
            WaitSlot::RingAReader,
            WaitSlot::RingBWriter,
            WaitSlot::RingBReader,
        ];
        assert(r@ =~= seq![
            WaitSlot::RingAWriter,
            WaitSlot::RingAReader,
            WaitSlot::RingBWriter,
            WaitSlot::RingBReader,
        ]);
        r
    }
}

/// Which objects of a wait are open.
#[derive(Debug, Clone, Copy, PartialEq, Eq, Structural)]
pub struct WaitObjects {
    pub registered: bool,
    pub event: bool,
    pub async_event: bool,
    pub timeout_timer: bool,
}

impl WaitObjects {
    /// Whether an object is open.
    pub open spec fn has(self, object: WaitObject) -> bool {
        match object {
            WaitObject::Registration => self.registered,
            WaitObject::Event => self.event,
            WaitObject::AsyncEvent => self.async_event,
            WaitObject::Timer => self.timeout_timer,
        }
    }

    /// The objects to release when the wait is dropped, in this order. The registration
    /// goes first: until it is gone its callback may still run.
    pub fn release(&self) -> (r: Vec<WaitObject>)
        ensures
            r@ == seq![
                WaitObject::Registration,
                WaitObject::Event,
                WaitObject::AsyncEvent,
                WaitObject::Timer,
            ].filter(|object: WaitObject| self.has(object)),
    {
        let all = [
            WaitObject::Registration,
            WaitObject::Event,
            WaitObject::AsyncEvent,
            WaitObject::Timer,
        ];
        let ghost keep = |object: WaitObject| self.has(object);
        let mut out: Vec<WaitObject> = Vec::new();
        let mut i: usize = 0;
        proof {
            reveal(Seq::filter);
            assert(all@.take(0).filter(keep) =~= Seq::<WaitObject>::empty());
        }
        while i < 4
            invariant
                i <= 4,
                all@.len() == 4,
                keep == (|object: WaitObject| self.has(object)),
                out@ == all@.take(i as int).filter(keep),
            decreases 4 - i,
        {
            let object = all[i];
            let open = match object {
                WaitObject::Registration => self.registered,
                WaitObject::Event => self.event,
                WaitObject::AsyncEvent => self.async_event,
                WaitObject::Timer => self.timeout_timer,
            };
            proof {
                reveal(Seq::filter);
                assert(all@.take(i + 1).drop_last() =~= all@.take(i as int));
                assert(all@.take(i + 1).last() == object);
                assert(keep(object) == open);
            }
            if open {
                out.push(object);
            }
            i += 1;
        }
        proof {
            assert(all@.take(4) =~= seq![
                WaitObject::Registration,
                WaitObject::Event,
                WaitObject::AsyncEvent,
                WaitObject::Timer,
            ]);
        }
        out
    }
}

/// The wait of a task. Tasks are told apart by a number.
#[derive(Debug, Clone, Copy, PartialEq, Eq, Structural)]
pub struct AsyncWaitState {
    /// The event was signaled and no task has seen it yet.
    pub signaled: bool,
    /// The task to wake.
    pub waker: Option<u64>,
}

impl AsyncWaitState {
    /// The wait after a task has looked for the signal, and whether there was one. A
    /// signal is used up by the look that sees it.
    pub open spec fn polled(self, task: u64, meanwhile: bool) -> (Self, bool) {
        if self.signaled {
            (AsyncWaitState { signaled: false, waker: self.waker }, true)
        } else if meanwhile {
            (AsyncWaitState { signaled: false, waker: None }, true)
        } else {
            (AsyncWaitState { signaled: false, waker: Some(task) }, false)
        }
    }

    /// The wait after the event was signaled.
    pub open spec fn called_back(self) -> Self {
        AsyncWaitState { signaled: true, waker: self.waker }
    }

    /// No signal and no task.
    pub fn new() -> (r: Self)
        ensures
            r == (AsyncWaitState { signaled: false, waker: None }),
    {
        AsyncWaitState { signaled: false, waker: None }
    }

    /// A task looks for the signal. Where there is none it leaves itself to be woken and
    /// looks once more; `meanwhile` is whether the event was signaled between the two
    /// looks.
    pub fn poll(&mut self, task: u64, meanwhile: bool) -> (ready: bool)
        ensures
            (*final(self), ready) == old(self).polled(task, meanwhile),
    {
        if self.signaled {
            self.signaled = false;
            return true;
        }
        if meanwhile {
            self.waker = None;
            true
        } else {
            self.waker = Some(task);
            false
        }
    }

    /// The event was signaled. Answers with the task to wake.
    pub fn callback(&mut self) -> (wake: Option<u64>)
        ensures
            wake == old(self).waker,
            *final(self) == old(self).called_back(),
    {
        self.signaled = true;
        self.waker
    }

    /// No task waits any more.
    pub fn clear_waiter(&mut self)
        ensures
            *final(self) == (AsyncWaitState { signaled: false, waker: None }),
    {
        self.signaled = false;
        self.waker = None;
    }

    /// Whether the wait has to be registered before a task can be left to be woken: once
    /// is enough.
    pub fn prepare_wait(registered: bool) -> (r: bool)
        ensures
            r == !registered,
    {
        !registered
    }
}

/// A signal is not lost on a task: one that comes before the task looks, or between its two
/// looks, is seen by it; one that comes after wakes it, and is seen when it looks again.
pub proof fn law_signal_reaches_the_task(wait: AsyncWaitState, task: u64, meanwhile: bool)
    ensures
        wait.called_back().polled(task, meanwhile).1,
        wait.polled(task, true).1,
        ({
            let (after, ready) = wait.polled(task, meanwhile);
            !ready ==> after.waker == Some(task) && after.called_back().polled(task, false).1
        }),
{
}

/// Windows' number for a process that is not there.
pub const ERROR_INVALID_PARAMETER: i32 = 87;

/// A handle of a process, which stays valid when its number is used again.
pub struct PeerProcess;

impl PeerProcess {
    /// Whether the process could be taken hold of. Only a process that is not there counts
    /// as a peer that is gone.
    pub fn open(opened: std::result::Result<(), IoError>) -> (r: Result<()>)
        ensures
            r == match opened {
                Ok(()) => Ok::<(), Error>(()),
                Err(e) => Err(
                    if e == IoError::Os(ERROR_INVALID_PARAMETER) {
                        Error::PeerDisconnected
                    } else {
                        Error::Io(e)
                    },
                ),
            },
    {
        match opened {
            Ok(()) => Ok(()),
            Err(IoError::Os(code)) => if code == ERROR_INVALID_PARAMETER {
                Err(Error::PeerDisconnected)
            } else {
                Err(Error::Io(IoError::Os(code)))
            },
            Err(e) => Err(Error::Io(e)),
        }
    }

    /// Whether the process can be watched, by the status of a wait for it that takes no
    /// time; `error` is what the system says of a wait that failed.
    pub fn check_ready(status: u32, error: IoError) -> (r: Result<()>)
        ensures
            r == if status == WAIT_TIMEOUT {
                Ok::<(), Error>(())
            } else if status == WAIT_OBJECT_0 {
                Err(Error::PeerDisconnected)
            } else {
                Err(Error::Io(error))
            },
    {
        if status == WAIT_TIMEOUT {
            Ok(())
        } else if status == WAIT_OBJECT_0 {
            Err(Error::PeerDisconnected)
        } else {
            Err(Error::Io(error))
        }
    }

    /// How the watch ends, by the status of a wait for being called off or for the process.
    pub fn wait(status: u32, error: IoError) -> (r: std::result::Result<PeerWait, IoError>)
        ensures
            r == if status == WAIT_OBJECT_0 {
                Ok::<PeerWait, IoError>(PeerWait::Cancelled)
            } else if status == WAIT_OBJECT_0 + 1 {
                Ok(PeerWait::Exited)
            } else {
                Err(error)
            },
    {
        if status == WAIT_OBJECT_0 {
            Ok(PeerWait::Cancelled)
        } else if status == WAIT_OBJECT_0 + 1 {
            Ok(PeerWait::Exited)
        } else {
            Err(error)
        }
    }
}

/// Whether a process is alive: it can be opened, and its exit code can be read and is
/// that of a running process.
pub fn is_process_alive(opened: bool, exit_code: Option<u32>) -> (r: bool)
    ensures
        r == (opened && exit_code == Some(STILL_ACTIVE)),
{
    match exit_code {
        Some(code) => opened && code == STILL_ACTIVE,
        None => false,
    }
}

/// The objects of one wait are opened in turn: the event for threads, the event for tasks, and the
/// timer. Where one cannot be, those before it, and no others, are closed, and the error is
/// reported. The events go by the names of this channel, this key and this wait, and no two of the
/// channel's events by the same.
pub proof fn law_objects_are_opened_in_turn(
    name: &str,
    key: u64,
    slot: WaitSlot,
    stage: HandleStage,
    result: std::result::Result<(), IoError>,
    r: (HandleStage, HandleStep),
    sync: Vec<u16>,
    task: Vec<u16>,
)
    requires
        call_ensures(WaitHandle::open, (name, key, slot, stage, result), r),
        call_ensures(event_name, (name, key, slot, SignalKind::Sync), sync),
        call_ensures(event_name, (name, key, slot, SignalKind::Async), task),
    ensures
        result is Ok && stage is Start ==> r.0 is Event && r.1 is CreateEvent && r.1->CreateEvent_0@
            == sync@,
        result is Ok && stage is Event ==> r.0 is AsyncEvent && r.1 is CreateEvent
            && r.1->CreateEvent_0@ == task@,
        result is Ok && stage is AsyncEvent ==> r.0 is Timer && r.1 is CreateTimer,
        result is Ok && stage is Timer ==> r.1 is Ready,
        result is Err ==> {
            &&& r.1 is Fail
            &&& r.1->error == result->Err_0
            &&& r.1->close@.contains(WaitObject::Event) <==> stage is AsyncEvent || stage is Timer
            &&& r.1->close@.contains(WaitObject::AsyncEvent) <==> stage is Timer
            &&& !r.1->close@.contains(WaitObject::Timer)
            &&& !r.1->close@.contains(WaitObject::Registration)
            &&& r.1->close@.no_duplicates()
        },
        sync@.len() > 0 && sync@.last() == 0,
        task@.len() > 0 && task@.last() == 0,
        sync@ != task@,
{
    if sync@ == task@ {
        law_wait_objects_have_names_of_their_own(
            name@,
            key,
            slot,
            SignalKind::Sync,
            key,
            slot,
            SignalKind::Async,
        );
    }
    if result is Err {
        let close = r.1->close@;
        match stage {
            HandleStage::Start | HandleStage::Event => {},
            HandleStage::AsyncEvent => {
                assert(close[0] == WaitObject::Event);
            },
            HandleStage::Timer => {
                assert(close[0] == WaitObject::Event && close[1] == WaitObject::AsyncEvent);
            },
        }
    }
}

/// Channels of different names have different events, unless their names have the same hash.
pub proof fn law_channels_have_events_of_their_own(
    a: Seq<char>,
    b: Seq<char>,
    key: u64,
    slot: WaitSlot,
    kind: SignalKind,
)
    requires
        utf16(event_text(a, key, slot, kind)).push(0) == utf16(
            event_text(b, key, slot, kind),
        ).push(0),
    ensures
        fnv1a(vstd::utf8::encode_utf8(a)) == fnv1a(vstd::utf8::encode_utf8(b)),
{
    let x = event_text(a, key, slot, kind);
    let y = event_text(b, key, slot, kind);
    assert(utf16(x) =~= utf16(x).push(0).drop_last());
    assert(utf16(y) =~= utf16(y).push(0).drop_last());
    lemma_utf16_injective(x, y);
    let n = "Local\\shmem_ipc_"@.len() as int;
    let p = fnv1a(vstd::utf8::encode_utf8(a)) as nat;
    let q = fnv1a(vstd::utf8::encode_utf8(b)) as nat;
    lemma_hex_len(p, 16);
    lemma_hex_len(q, 16);
    assert(x.subrange(n, n + 16) =~= hex(p, 16));
    assert(y.subrange(n, n + 16) =~= hex(q, 16));
    assert(pow(16, 16) == 0x1_0000_0000_0000_0000) by {
        reveal_with_fuel(pow, 17);
    }
    lemma_hex_injective(p, q, 16);
}

/// The hash of a name goes through its bytes in order: each is mixed in, and the result multiplied
/// by the prime of 64-bit FNV-1a, beginning with its basis.
pub proof fn law_hash_goes_through_the_bytes(bytes: Seq<u8>, byte: u8, name: &str, hash: u64)
    requires
        call_ensures(stable_name_hash, (name,), hash),
    ensures
        fnv1a(Seq::empty()) == 0xcbf2_9ce4_8422_2325,
        fnv1a(bytes.push(byte)) == ((fnv1a(bytes) ^ (byte as u64)) as int * 0x0000_0100_0000_01b3)
            % 0x1_0000_0000_0000_0000,
        hash == fnv1a(vstd::utf8::encode_utf8(name@)),
{
    assert(bytes.push(byte).drop_last() =~= bytes);
}

/// A thread without a time limit sleeps until it is woken; with one of 0 it only looks at the
/// event; with any other it sleeps until it is woken or a timer has run that long, rounded up to
/// the timer's unit of 100 nanoseconds. A time that the timer cannot hold is as long as it can.
pub proof fn law_thread_sleeps_as_long_as_told(
    timeout: Option<u128>,
    plan: SleepPlan,
    nanos: u128,
    due: i64,
)
    requires
        call_ensures(wait_on_handle, (timeout,), plan),
        call_ensures(timeout_to_due_time, (nanos,), due),
    ensures
        timeout is None ==> plan == (SleepPlan::Event { timeout_ms: 0xFFFF_FFFF }),
        timeout == Some(0u128) ==> plan == (SleepPlan::Event { timeout_ms: 0 }),
        timeout matches Some(t) && t > 0 ==> plan is EventOrTimer,
        timeout == Some(nanos) && nanos > 0 ==> plan->due_time == due,
        due <= 0,
        nanos <= 100 * i64::MAX ==> nanos <= -100 * due < nanos + 100,
        nanos > 100 * i64::MAX ==> due == -i64::MAX,
{
}

/// What the status of a wait means. An event or the end of the time ends a wait for the event; of
/// two objects, the first is the event, whose timer is then stopped, and the second the timer. A
/// failure, and a status that is none of these, is told apart.
pub proof fn law_statuses_are_told_apart(status: u32, one: WaitStatus, two: WaitStatus)
    requires
        call_ensures(wait_for_event, (status,), one),
        call_ensures(wait_for_event_or_timeout, (status,), two),
    ensures
        one is Over <==> status == 0 || status == 258,
        two is StopTimer <==> status == 0,
        two is Over <==> status == 1,
        one is Failed <==> status == 0xFFFF_FFFF,
        two is Failed <==> status == 0xFFFF_FFFF,
        one !is StopTimer,
        one matches WaitStatus::Unexpected(told) ==> told == status,
        two matches WaitStatus::Unexpected(told) ==> told == status,
{
}

/// Dropping a wait releases exactly what is open, each once; the registration goes first, and the
/// events go before the timer.
pub proof fn law_what_is_open_is_released(objects: WaitObjects, r: Vec<WaitObject>)
    requires
        call_ensures(WaitObjects::release, (&objects,), r),
    ensures
        r@.contains(WaitObject::Registration) <==> objects.registered,
        r@.contains(WaitObject::Event) <==> objects.event,
        r@.contains(WaitObject::AsyncEvent) <==> objects.async_event,
        r@.contains(WaitObject::Timer) <==> objects.timeout_timer,
        r@.no_duplicates(),
        objects.registered ==> r@[0] == WaitObject::Registration,
        objects.timeout_timer ==> r@.last() == WaitObject::Timer,
{
    let all = seq![
        WaitObject::Registration,
        WaitObject::Event,
        WaitObject::AsyncEvent,
        WaitObject::Timer,
    ];
    let keep = |object: WaitObject| objects.has(object);
    let three = seq![WaitObject::Registration, WaitObject::Event, WaitObject::AsyncEvent];
    let two = seq![WaitObject::Registration, WaitObject::Event];
    let one = seq![WaitObject::Registration];
    reveal(Seq::filter);
    assert(all.drop_last() =~= three);
    assert(three.drop_last() =~= two);
    assert(two.drop_last() =~= one);
    assert(one.drop_last() =~= Seq::<WaitObject>::empty());
    let f1 = one.filter(keep);
    let f2 = two.filter(keep);
    let f3 = three.filter(keep);
    let f4 = all.filter(keep);
    assert(Seq::<WaitObject>::empty().filter(keep) =~= Seq::<WaitObject>::empty());
    assert(f1 =~= if objects.registered {
        seq![WaitObject::Registration]
    } else {
        Seq::<WaitObject>::empty()
    });
    assert(f2 =~= if objects.event {
        f1.push(WaitObject::Event)
    } else {
        f1
    });
    assert(f3 =~= if objects.async_event {
        f2.push(WaitObject::AsyncEvent)
    } else {
        f2
    });
    assert(f4 =~= if objects.timeout_timer {
        f3.push(WaitObject::Timer)
    } else {
        f3
    });
    assert(r@ == f4);
    if objects.registered {
        assert(f4[0] == WaitObject::Registration);
    }
    let n1 = f1.len() as int;
    let n2 = f2.len() as int;
    let n3 = f3.len() as int;
    if objects.event {
        assert(f4[n1] == WaitObject::Event);
    }
    if objects.async_event {
        assert(f4[n2] == WaitObject::AsyncEvent);
    }
    if objects.timeout_timer {
        assert(f4[n3] == WaitObject::Timer);
    }
}

/// A signal wakes the task that is left to be woken, and is seen by the next look, once. A task
/// that finds none is left to be woken. Once nobody waits, no signal and no task is left.
pub proof fn law_signal_is_seen_once(task: u64, meanwhile: bool, fresh: AsyncWaitState)
    requires
        call_ensures(AsyncWaitState::new, (), fresh),
    ensures
        !fresh.signaled && fresh.waker is None,
        forall|s: &mut AsyncWaitState, ready: bool| #[trigger]
            call_ensures(AsyncWaitState::poll, (s, task, meanwhile), ready) ==> {
                &&& ready <==> s.signaled || meanwhile
                &&& !final(s).signaled
                &&& !ready ==> final(s).waker == Some(task)
            },
        forall|s: &mut AsyncWaitState, wake: Option<u64>| #[trigger]
            call_ensures(AsyncWaitState::callback, (s,), wake) ==> {
                &&& wake == s.waker
                &&& final(s).signaled
                &&& final(s).waker == s.waker
            },
        forall|s: &mut AsyncWaitState| #[trigger]
            call_ensures(AsyncWaitState::clear_waiter, (s,), ()) ==> !final(s).signaled
                && final(s).waker is None,
        forall|registered: bool, r: bool| #[trigger]
            call_ensures(AsyncWaitState::prepare_wait, (registered,), r) ==> (r <==> !registered),
{
}

/// Only that a process is not there, or that it has been signaled, says that it is gone; a process
/// that is still being waited for is alive, and any failure is an error of its own.
pub proof fn law_process_is_gone_when_the_kernel_says_so(
    opened: std::result::Result<(), IoError>,
    held: Result<()>,
    status: u32,
    error: IoError,
    ready: Result<()>,
    waited: std::result::Result<PeerWait, IoError>,
    found: bool,
    exit_code: Option<u32>,
    alive: bool,
)
    requires
        call_ensures(PeerProcess::open, (opened,), held),
        call_ensures(PeerProcess::check_ready, (status, error), ready),
        call_ensures(PeerProcess::wait, (status, error), waited),
        call_ensures(is_process_alive, (found, exit_code), alive),
    ensures
        held is Ok <==> opened is Ok,
        opened matches Err(e) ==> if e matches IoError::Os(code) && code == 87 {
            held == Err::<(), Error>(Error::PeerDisconnected)
        } else {
            held == Err::<(), Error>(Error::Io(e))
        },
        ready is Ok <==> status == 258,
        status == 0 ==> ready == Err::<(), Error>(Error::PeerDisconnected),
        status != 0 && status != 258 ==> ready == Err::<(), Error>(Error::Io(error)),
        waited == Ok::<PeerWait, IoError>(PeerWait::Cancelled) <==> status == 0,
        waited == Ok::<PeerWait, IoError>(PeerWait::Exited) <==> status == 1,
        waited is Err ==> waited->Err_0 == error,
        alive <==> found && exit_code == Some(259u32),
{
}

/// The waits of a channel are those of the writer and the reader of either ring, each once; each
/// has its own word in the names of its events, and so has each kind of waiter.
pub proof fn law_waits_of_a_channel(
    slots: [WaitSlot; 4],
    a: WaitSlot,
    b: WaitSlot,
    words: (&'static str, &'static str),
    kinds: (&'static str, &'static str),
)
    requires
        call_ensures(ChannelWaitSet::new, (), slots),
        call_ensures(WaitSlot::suffix, (a,), words.0),
        call_ensures(WaitSlot::suffix, (b,), words.1),
        call_ensures(SignalKind::suffix, (SignalKind::Sync,), kinds.0),
        call_ensures(SignalKind::suffix, (SignalKind::Async,), kinds.1),
    ensures
        slots@.contains(a),
        slots@.no_duplicates(),
        slots@[0] is RingAWriter && slots@[1] is RingAReader,
        slots@[2] is RingBWriter && slots@[3] is RingBReader,
        words.0@ == words.1@ <==> a == b,
        a is RingAWriter ==> words.0@ == "a_writer"@,
        a is RingAReader ==> words.0@ == "a_reader"@,
        a is RingBWriter ==> words.0@ == "b_writer"@,
        a is RingBReader ==> words.0@ == "b_reader"@,
        kinds.0@ == "sync"@ && kinds.1@ == "async"@,
{
    reveal_strlit("a_writer");
    reveal_strlit("a_reader");
    reveal_strlit("b_writer");
    reveal_strlit("b_reader");
    assert(slots@[0] == WaitSlot::RingAWriter && slots@[1] == WaitSlot::RingAReader && slots@[2]
        == WaitSlot::RingBWriter && slots@[3] == WaitSlot::RingBReader);
    if words.0@ == words.1@ {
        assert(words.0@[0] == words.1@[0] && words.0@[2] == words.1@[2]);
    }
}

/// The name of an event is that of its session, with the hash of the channel's name, the key, the
/// wait and the kind of waiter, each behind an underscore.
pub proof fn law_event_name_is_made_of(
    name: &str,
    key: u64,
    slot: WaitSlot,
    kind: SignalKind,
    hash: u64,
    words: (&'static str, &'static str),
    r: Vec<u16>,
)
    requires
        call_ensures(event_name, (name, key, slot, kind), r),
        call_ensures(stable_name_hash, (name,), hash),
        call_ensures(WaitSlot::suffix, (slot,), words.0),
        call_ensures(SignalKind::suffix, (kind,), words.1),
    ensures
        r@ == utf16(
            "Local\\shmem_ipc_"@ + hex(hash as nat, 16) + "_"@ + hex(key as nat, 16) + "_"@
                + words.0@ + "_"@ + words.1@,
        ).push(0),
{
}

} // verus!
