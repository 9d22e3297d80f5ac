//! How a task learns that a notification word has changed.
//!
//! On Unix a thread of its own sleeps on the word and wakes the tasks. On Windows the
//! kernel calls back when the event of the wait is signaled.

use vstd::prelude::*;

use crate::error::{Error, IoError, IoErrorKind, Result};
#[allow(unused_imports)]
use crate::header::{bump, bumped_times, lemma_bumped_times};

verus! {

/// Where the thread stands. `observed` is what the word was when the tasks were last
/// woken, or when the thread began.
#[derive(Debug, Clone, Copy, PartialEq, Eq, Structural)]
pub enum BridgePhase {
    /// The word is being loaded for the first time.
    Start,
    /// At the top of the loop.
    Top { observed: u32 },
    /// The parked word is set.
    Parked { observed: u32 },
    /// Back from a sleep; the parked word is clear.
    Woken { observed: u32 },
    /// Over.
    Over,
}

/// What the thread is to do next. Then it loads the word, and after it whether it is to
/// stop, and steps again.
#[derive(Debug, Clone, Copy, PartialEq, Eq, Structural)]
pub enum BridgeAction {
    /// Report that the thread is ready.
    Report,
    /// Store 1 to the parked word, then put a full fence.
    Park,
    /// Sleep while the word is `expected`; then store 0 to the parked word.
    Sleep { expected: u32 },
    /// Store 0 to the parked word, then wake the tasks.
    UnparkAndWake,
    /// Wake the tasks.
    Wake,
    /// Nothing.
    Look,
    /// Store 0 to the parked word, then end.
    UnparkAndEnd,
    /// End.
    End,
}

impl BridgePhase {
    /// What the word was when the tasks were last woken, or when the thread began.
    pub open spec fn baseline(self) -> Option<u32> {
        match self {
            BridgePhase::Top { observed } | BridgePhase::Parked { observed }
            | BridgePhase::Woken { observed } => Some(observed),
            _ => None,
        }
    }

    /// Whether the parked word is set.
    pub open spec fn parked(self) -> bool {
        self is Parked
    }

    /// The thread after a step, and what it is to do.
    pub open spec fn stepped(self, notify: u32, stop: bool) -> (BridgePhase, BridgeAction) {
        match self {
            BridgePhase::Start => (BridgePhase::Top { observed: notify }, BridgeAction::Report),
            BridgePhase::Top { observed } => if stop {
                (BridgePhase::Over, BridgeAction::End)
            } else {
                (BridgePhase::Parked { observed }, BridgeAction::Park)
            },
            BridgePhase::Parked { observed } => if stop {
                (BridgePhase::Over, BridgeAction::UnparkAndEnd)
            } else if notify != observed {
                (BridgePhase::Top { observed: notify }, BridgeAction::UnparkAndWake)
            } else {
                (BridgePhase::Woken { observed }, BridgeAction::Sleep { expected: observed })
            },
            BridgePhase::Woken { observed } => if stop {
                (BridgePhase::Over, BridgeAction::End)
            } else if notify != observed {
                (BridgePhase::Top { observed: notify }, BridgeAction::Wake)
            } else {
                (BridgePhase::Top { observed }, BridgeAction::Look)
            },
            BridgePhase::Over => (BridgePhase::Over, BridgeAction::End),
        }
    }

    /// Whether an action wakes the tasks.
    pub open spec fn wakes(action: BridgeAction) -> bool {
        action == BridgeAction::UnparkAndWake || action == BridgeAction::Wake
    }
}

/// One step of the thread.
pub fn wait_loop(phase: BridgePhase, notify: u32, stop: bool) -> (r: (BridgePhase, BridgeAction))
    ensures
        r == phase.stepped(notify, stop),
{
    match phase {
        BridgePhase::Start => (BridgePhase::Top { observed: notify }, BridgeAction::Report),
        BridgePhase::Top { observed } => {
            if stop {
                (BridgePhase::Over, BridgeAction::End)
            } else {
                (BridgePhase::Parked { observed }, BridgeAction::Park)
            }
        },
        BridgePhase::Parked { observed } => {
            // The order to stop may be older than the last change of the word.
            if stop {
                (BridgePhase::Over, BridgeAction::UnparkAndEnd)
            } else if notify != observed {
                (BridgePhase::Top { observed: notify }, BridgeAction::UnparkAndWake)
            } else {
                (BridgePhase::Woken { observed }, BridgeAction::Sleep { expected: observed })
            }
        },
        BridgePhase::Woken { observed } => {
            if stop {
                (BridgePhase::Over, BridgeAction::End)
            } else if notify != observed {
                (BridgePhase::Top { observed: notify }, BridgeAction::Wake)
            } else {
                (BridgePhase::Top { observed }, BridgeAction::Look)
            }
        },
        BridgePhase::Over => (BridgePhase::Over, BridgeAction::End),
    }
}

/// The thread never sleeps on a word that has changed since the tasks were last woken, nor
/// after it was told to stop: it sleeps only on the word as it has just loaded it.
pub proof fn law_bridge_sleeps_on_the_current_word(phase: BridgePhase, notify: u32, stop: bool)
    ensures
        phase.stepped(notify, stop).1 matches BridgeAction::Sleep { expected } ==> {
            &&& !stop
            &&& expected == notify
            &&& phase.baseline() == Some(expected)
            &&& phase.parked()
        },
{
}

/// A change of the word since the tasks were last woken is handed on at the next look,
/// whether it came before the thread was parked, while it was being parked or while it
/// slept. (The word counts changes, and comes back to a value only after 2^32 of them.)
pub proof fn law_bridge_hands_every_change_on(
    phase: BridgePhase,
    observed: u32,
    changes: nat,
    stop: bool,
)
    requires
        phase == (BridgePhase::Parked { observed }) || phase == (BridgePhase::Woken { observed }),
        0 < changes < 0x1_0000_0000,
    ensures
        ({
            let notify = bumped_times(observed, changes);
            let (after, action) = phase.stepped(notify, stop);
            if stop {
                after is Over
            } else {
                &&& BridgePhase::wakes(action)
                &&& after == (BridgePhase::Top { observed: notify })
            }
        }),
{
    lemma_bumped_times(observed, changes);
}

/// What the thread goes through when it loads these words and orders in turn.
pub open spec fn bridge_run(loads: Seq<(u32, bool)>) -> (BridgePhase, BridgeAction)
    decreases loads.len(),
{
    if loads.len() == 0 {
        (BridgePhase::Start, BridgeAction::Look)
    } else {
        bridge_run(loads.drop_last()).0.stepped(loads.last().0, loads.last().1)
    }
}

/// Whether the parked word is set after an action.
pub open spec fn leaves_parked(action: BridgeAction) -> bool {
    action is Park
}

/// However long the thread runs: the parked word is set exactly while it is parked, so
/// that it is clear once the thread is over; and the baseline is what was loaded first or
/// what the tasks were last woken for, never a value that was passed over.
pub proof fn law_bridge_keeps_its_baseline(loads: Seq<(u32, bool)>)
    requires
        loads.len() > 0,
    ensures
        bridge_run(loads).0.parked() <==> leaves_parked(bridge_run(loads).1),
        ({
            let before = bridge_run(loads.drop_last()).0;
            let (after, action) = bridge_run(loads);
            after.baseline() is Some ==> if before is Start || BridgePhase::wakes(action) {
                after.baseline() == Some(loads.last().0)
            } else {
                after.baseline() == before.baseline()
            }
        }),
{
}

/// The thread that sleeps on the word.
pub struct RunningWait;

impl RunningWait {
    /// Whether the thread runs: whether it could be started, and whether it reported that
    /// it is ready.
    pub fn spawn(spawned: std::result::Result<(), i32>, reported: bool) -> (r: Result<()>)
        ensures
            r == match spawned {
                Err(code) => Err::<(), Error>(
                    Error::Io(
                        IoError::Context { message: "failed to spawn async wait bridge", code },
                    ),
                ),
                Ok(()) => if reported {
                    Ok(())
                } else {
                    Err(
                        Error::Io(
                            IoError::Custom {
                                kind: IoErrorKind::Other,
                                message: "async wait bridge failed to start: receiving on a closed channel",
                            },
                        ),
                    )
                },
            },
    {
        match spawned {
            Err(code) => Err(
                Error::Io(
                    IoError::Context { message: "failed to spawn async wait bridge", code },
                ),
            ),
            Ok(()) => {
                if reported {
                    Ok(())
                } else {
                    Err(
                        Error::Io(
                            IoError::Custom {
                                kind: IoErrorKind::Other,
                                message: "async wait bridge failed to start: receiving on a closed channel",
                            },
                        ),
                    )
                }
            },
        }
    }

    /// The word that the thread is stopped with, after the order to stop is stored: it
    /// differs from every word that the thread may sleep on.
    pub fn stop(notify: u32) -> (r: u32)
        ensures
            r == bump(notify),
    {
        notify.wrapping_add(1)
    }
}

/// A thread that was told to stop ends at the next look, wherever it stands.
pub proof fn law_bridge_stops(phase: BridgePhase, notify: u32)
    requires
        phase !is Start,
    ensures
        phase.stepped(notify, true).0 is Over,
        !phase.stepped(notify, true).0.parked(),
{
}

/// Where a task stands that waits for the word to change.
#[derive(Debug, Clone, Copy, PartialEq, Eq, Structural)]
pub enum ChangePhase {
    /// Looking at the word.
    Look,
    /// Looking at it once more, listening already.
    Listening,
}

/// What the task is to do next. Then it loads the word and steps again.
#[derive(Debug, Clone, Copy, PartialEq, Eq, Structural)]
pub enum ChangeAction {
    /// Begin to listen for being woken.
    Listen,
    /// Wait to be woken.
    Await,
    /// The word has changed.
    Done,
}

impl ChangePhase {
    /// The task after a look, and what it is to do.
    pub open spec fn stepped(self, observed: u32, notify: u32) -> (ChangePhase, ChangeAction) {
        if notify != observed {
            (self, ChangeAction::Done)
        } else {
            match self {
                ChangePhase::Look => (ChangePhase::Listening, ChangeAction::Listen),
                ChangePhase::Listening => (ChangePhase::Look, ChangeAction::Await),
            }
        }
    }
}

/// One step of a task that waits for the word not to be `observed` any more. It waits only
/// on a word that it has seen unchanged after it began to listen: a wake that comes
/// between the look and the wait is not lost.
pub fn wait_changed(phase: ChangePhase, observed: u32, notify: u32) -> (r: (
    ChangePhase,
    ChangeAction,
))
    ensures
        r == phase.stepped(observed, notify),
{
    if notify != observed {
        (phase, ChangeAction::Done)
    } else {
        match phase {
            ChangePhase::Look => (ChangePhase::Listening, ChangeAction::Listen),
            ChangePhase::Listening => (ChangePhase::Look, ChangeAction::Await),
        }
    }
}

/// A wait for the word to change that the kernel calls back for.
#[derive(Debug, Clone, Copy, PartialEq, Eq, Structural)]
pub struct WaitChanged {
    pub observed: u32,
    /// The parked word is set and the callback is registered.
    pub armed: bool,
}

/// What the last action of such a wait brought.
#[derive(Debug, Clone, Copy)]
pub enum WaitChangedEvent {
    /// The word. Also starts a poll.
    Notify(u32),
    /// The parked word is set; whether the callback could be registered.
    Prepared(std::result::Result<(), IoError>),
    /// No callback yet; the task will be woken.
    Pending,
    /// There was a callback, or why there will be none.
    Signaled(std::result::Result<(), IoError>),
}

/// What to do next.
#[derive(Debug, Clone, Copy)]
pub enum WaitChangedAction {
    /// Load the word.
    Load,
    /// Store 1 to the parked word, put a full fence, register the callback.
    Prepare,
    /// Ask whether there was a callback.
    Poll,
    /// The task goes on waiting.
    Suspend,
    /// Where `disarm` is set, forget the task and store 0 to the parked word. The wait is
    /// over.
    Finish { disarm: bool, result: Result<()> },
}

impl WaitChanged {
    /// A wait for the word not to be `observed` any more.
    pub fn new(observed: u32) -> (r: Self)
        ensures
            r == (WaitChanged { observed, armed: false }),
    {
        WaitChanged { observed, armed: false }
    }

    /// The wait after a step, and what is to be done.
    pub open spec fn stepped(self, event: WaitChangedEvent) -> (Self, WaitChangedAction) {
        let disarmed = WaitChanged { armed: false, ..self };
        match event {
            WaitChangedEvent::Notify(notify) => if notify != self.observed {
                (disarmed, WaitChangedAction::Finish { disarm: self.armed, result: Ok(()) })
            } else if !self.armed {
                (self, WaitChangedAction::Prepare)
            } else {
                (self, WaitChangedAction::Poll)
            },
            WaitChangedEvent::Prepared(Ok(())) => (
                WaitChanged { armed: true, ..self },
                WaitChangedAction::Load,
            ),
            // The parked word is set already.
            WaitChangedEvent::Prepared(Err(e)) => (
                disarmed,
                WaitChangedAction::Finish { disarm: true, result: Err(Error::Io(e)) },
            ),
            WaitChangedEvent::Pending => (self, WaitChangedAction::Suspend),
            WaitChangedEvent::Signaled(Ok(())) => (self, WaitChangedAction::Load),
            WaitChangedEvent::Signaled(Err(e)) => (
                disarmed,
                WaitChangedAction::Finish { disarm: self.armed, result: Err(Error::Io(e)) },
            ),
        }
    }

    /// One step.
    pub fn poll(&mut self, event: WaitChangedEvent) -> (r: WaitChangedAction)
        ensures
            (*final(self), r) == old(self).stepped(event),
    {
        match event {
            WaitChangedEvent::Notify(notify) => {
                if notify != self.observed {
                    let disarm = self.disarm();
                    WaitChangedAction::Finish { disarm, result: Ok(()) }
                } else if !self.armed {
                    WaitChangedAction::Prepare
                } else {
                    WaitChangedAction::Poll
                }
            },
            WaitChangedEvent::Prepared(Ok(())) => {
                self.armed = true;
                WaitChangedAction::Load
            },
            WaitChangedEvent::Prepared(Err(e)) => {
                self.armed = false;
                WaitChangedAction::Finish { disarm: true, result: Err(Error::Io(e)) }
            },
            WaitChangedEvent::Pending => WaitChangedAction::Suspend,
            WaitChangedEvent::Signaled(Ok(())) => WaitChangedAction::Load,
            WaitChangedEvent::Signaled(Err(e)) => {
                let disarm = self.disarm();
                WaitChangedAction::Finish { disarm, result: Err(Error::Io(e)) }
            },
        }
    }

    /// Whether the task is to be forgotten and the parked word cleared, as when the wait
    /// is dropped: only once, and only where it was armed.
    pub fn disarm(&mut self) -> (r: bool)
        ensures
            r == old(self).armed,
            *final(self) == (WaitChanged { armed: false, ..*old(self) }),
    {
        let armed = self.armed;
        self.armed = false;
        armed
    }
}

/// The parked word after an action of such a wait, where it was `before`.
pub open spec fn change_parked_after(before: bool, action: WaitChangedAction) -> bool {
    match action {
        WaitChangedAction::Prepare => true,
        WaitChangedAction::Finish { disarm, result } => before && !disarm,
        _ => before,
    }
}

/// A task is suspended only on a word that it has seen unchanged once its callback was
/// registered: the poll that may suspend it follows such a look. A wait that ends well has
/// seen the word change. The parked word is set exactly while the wait is armed or being
/// armed, and is clear however the wait ends, also where the callback cannot be registered.
pub proof fn law_task_suspends_only_when_armed(
    wait: WaitChanged,
    event: WaitChangedEvent,
    parked: bool,
)
    requires
        event is Prepared ==> !wait.armed,
        parked == (wait.armed || event is Prepared),
    ensures
        wait.stepped(event).1 is Poll ==> wait.armed && event == WaitChangedEvent::Notify(
            wait.observed,
        ),
        wait.stepped(event).1 matches WaitChangedAction::Finish { disarm, result } ==> {
            &&& disarm == parked
            &&& !wait.stepped(event).0.armed
            &&& !change_parked_after(parked, wait.stepped(event).1)
            &&& result is Ok ==> (event matches WaitChangedEvent::Notify(notify) && notify
                != wait.observed)
        },
        wait.stepped(event).1 !is Finish ==> change_parked_after(parked, wait.stepped(event).1) == (
        wait.stepped(event).0.armed || wait.stepped(event).1 is Prepare),
{
}

/// The thread of the bridge never idles and never runs hot. Not told to stop, it goes from the top
/// of the loop to being parked; there it wakes the tasks if the word is not the one that they were
/// last woken for, and sleeps on that word if it is; back from sleep it wakes them if the word has
/// changed, and goes to the top of the loop. So a change is handed on within two steps of any
/// point, and a word that does not change is slept on within three.
pub proof fn law_bridge_hands_on_or_sleeps(
    phase: BridgePhase,
    observed: u32,
    notify: u32,
    first: (BridgePhase, BridgeAction),
    second: (BridgePhase, BridgeAction),
    third: (BridgePhase, BridgeAction),
)
    requires
        phase == (BridgePhase::Top { observed }) || phase == (BridgePhase::Parked { observed })
            || phase == (BridgePhase::Woken { observed }),
        call_ensures(wait_loop, (phase, notify, false), first),
        call_ensures(wait_loop, (first.0, notify, false), second),
        call_ensures(wait_loop, (second.0, notify, false), third),
    ensures
        notify != observed ==> {
            ||| first.1 is Wake || first.1 is UnparkAndWake
            ||| first.1 is Park && second.1 is UnparkAndWake
        },
        notify == observed ==> {
            ||| first.1 == (BridgeAction::Sleep { expected: notify })
            ||| second.1 == (BridgeAction::Sleep { expected: notify }) && first.1 is Park
            ||| third.1 == (BridgeAction::Sleep { expected: notify }) && second.1 is Park
        },
        first.1 is Wake || first.1 is UnparkAndWake ==> first.0 == (BridgePhase::Top {
            observed: notify,
        }),
        first.1 !is Wake && first.1 !is UnparkAndWake ==> first.0.baseline() == Some(observed),
        first.1 !is End && first.1 !is UnparkAndEnd && first.1 !is Report,
        phase is Top ==> first.1 is Park,
        phase is Woken && notify == observed ==> first.1 is Look,
{
}

/// The thread reports once, as soon as it has loaded the word that it takes for known; told to
/// stop, it ends at its next step with the parked word clear, and stays ended.
pub proof fn law_bridge_begins_and_ends(
    phase: BridgePhase,
    notify: u32,
    stop: bool,
    begun: (BridgePhase, BridgeAction),
    ended: (BridgePhase, BridgeAction),
    over: (BridgePhase, BridgeAction),
    last: u32,
)
    requires
        phase is Top || phase is Parked || phase is Woken,
        call_ensures(wait_loop, (BridgePhase::Start, notify, stop), begun),
        call_ensures(wait_loop, (phase, notify, true), ended),
        call_ensures(wait_loop, (BridgePhase::Over, notify, stop), over),
        call_ensures(RunningWait::stop, (notify,), last),
    ensures
        begun.0 == (BridgePhase::Top { observed: notify }),
        begun.1 is Report,
        ended.0 is Over,
        phase is Parked <==> ended.1 is UnparkAndEnd,
        phase !is Parked <==> ended.1 is End,
        over.0 is Over && over.1 is End,
        last == (notify + 1) % 0x1_0000_0000,
        last != notify,
{
}

/// A task that waits for the word to change is done as soon as it sees another word, and not
/// before. As long as it does not, it listens before it waits, looks once more in between, and
/// looks again when it is woken.
pub proof fn law_change_is_seen_at_once(
    phase: ChangePhase,
    observed: u32,
    notify: u32,
    r: (ChangePhase, ChangeAction),
    again: (ChangePhase, ChangeAction),
    after: (ChangePhase, ChangeAction),
)
    requires
        call_ensures(wait_changed, (phase, observed, notify), r),
        call_ensures(wait_changed, (ChangePhase::Look, observed, observed), again),
        call_ensures(wait_changed, (again.0, observed, observed), after),
    ensures
        r.1 is Done <==> notify != observed,
        again.1 is Listen,
        after.1 is Await,
        after.0 is Look,
{
}

/// The same where the kernel calls back: the wait is over as soon as the word is seen to have
/// changed, and with the system's error where it cannot be told; until then it is armed, looks once
/// more, asks for the callback, and is suspended only where there was none. Dropped, it is disarmed
/// once.
pub proof fn law_called_back_wait_sees_the_change(
    event: WaitChangedEvent,
    notify: u32,
    fresh: WaitChanged,
)
    requires
        call_ensures(WaitChanged::new, (notify,), fresh),
    ensures
        fresh.observed == notify && !fresh.armed,
        forall|s: &mut WaitChanged, r: WaitChangedAction| #[trigger]
            call_ensures(WaitChanged::poll, (s, event), r) ==> {
                let before = *s;
                let after = *final(s);
                &&& after.observed == before.observed
                &&& event matches WaitChangedEvent::Notify(word) ==> if word != before.observed {
                    &&& r matches WaitChangedAction::Finish { disarm, result: Ok(_) }
                    &&& disarm == before.armed
                    &&& !after.armed
                } else {
                    &&& after.armed == before.armed
                    &&& if before.armed {
                        r is Poll
                    } else {
                        r is Prepare
                    }
                }
                &&& event matches WaitChangedEvent::Prepared(Ok(_)) ==> r is Load && after.armed
                &&& event matches WaitChangedEvent::Prepared(Err(e)) ==> !after.armed && r == (
                WaitChangedAction::Finish { disarm: true, result: Err(Error::Io(e)) })
                &&& event is Pending ==> r is Suspend && after.armed == before.armed
                &&& event matches WaitChangedEvent::Signaled(Ok(_)) ==> r is Load && after.armed
                    == before.armed
                &&& event matches WaitChangedEvent::Signaled(Err(e)) ==> !after.armed && r == (
                WaitChangedAction::Finish { disarm: before.armed, result: Err(Error::Io(e)) })
            },
        forall|s: &mut WaitChanged, r: bool| #[trigger]
            call_ensures(WaitChanged::disarm, (s,), r) ==> r == s.armed && !final(s).armed
                && final(s).observed == s.observed,
{
}

/// The bridge runs where its thread could be started and has reported; else it says which of the
/// two failed.
pub proof fn law_bridge_runs_once_it_has_reported(
    spawned: std::result::Result<(), i32>,
    reported: bool,
    r: Result<()>,
)
    requires
        call_ensures(RunningWait::spawn, (spawned, reported), r),
    ensures
        r is Ok <==> spawned is Ok && reported,
        spawned matches Err(number) ==> {
            &&& r matches Err(Error::Io(IoError::Context { message, code }))
            &&& code == number
            &&& message@ == "failed to spawn async wait bridge"@
        },
        spawned is Ok && !reported ==> {
            &&& r matches Err(Error::Io(IoError::Custom { kind, message }))
            &&& kind is Other
            &&& message@
                == "async wait bridge failed to start: receiving on a closed channel"@
        },
{
}

} // verus!
