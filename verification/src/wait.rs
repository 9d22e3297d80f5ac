//! How an endpoint waits for its peer.
//!
//! A wait is a small machine. Each step takes what the last action brought and the
//! condition as it stands now, and answers with the next action. The caller performs
//! the action (a spin hint, a look at the clock, a sleep in the kernel), loads shared
//! memory afresh, evaluates the condition and steps again.

use vstd::prelude::*;

use crate::error::{Error, Result};
#[allow(unused_imports)]
use crate::header::{bump, bumped_times, lemma_bumped_times};

verus! {

/// What the last action brought.
#[derive(Debug, Clone, Copy)]
pub enum WaitEvent {
    /// The action was performed; it brings no value. Also starts a wait.
    Proceed,
    /// The clock, in nanoseconds from any fixed start.
    Clock(u128),
    /// The notification word.
    Notify(u32),
}

/// What the caller is to do next.
#[derive(Debug, Clone, Copy)]
pub enum WaitAction {
    /// Give the processor a spin-loop hint.
    SpinLoop,
    /// Read the clock.
    ReadClock,
    /// Load the notification word.
    LoadNotify,
    /// Store 1 to the parked word, then put a full fence.
    Park,
    /// Sleep while the notification word is `expected`, `timeout` nanoseconds at most.
    Sleep { expected: u32, timeout: Option<u128> },
    /// Store 0 to the parked word.
    Unpark,
    /// The wait is over.
    Finish(Result<()>),
    /// Store 0 to the parked word; the wait is over.
    UnparkFinish(Result<()>),
}

/// What to do after a try.
#[derive(Debug, Clone, Copy)]
pub enum RetryStep {
    /// It succeeded.
    Ready,
    /// Sleep so many nanoseconds, then try again.
    Pause(u128),
    /// Give up.
    Failed(Error),
}

/// A way to wait until a condition holds.
///
/// The condition is `Ok(true)` where it holds, `Ok(false)` where the wait is to
/// go on, and an error where it is to end.
pub trait WaitStrategy {
    /// A wait under way.
    type Op;

    /// A wait that has not taken a step yet.
    spec fn fresh(&self, timeout: Option<u128>) -> Self::Op;

    /// Whether `event` answers the last action of the wait.
    spec fn answers(&self, op: Self::Op, event: WaitEvent) -> bool;

    /// The wait after a step, and the action that follows.
    spec fn stepped(
        &self,
        op: Self::Op,
        event: WaitEvent,
        condition: Result<bool>,
    ) -> (Self::Op, WaitAction);

    /// A wait ends well on the condition it was given, with the condition's error, or because
    /// its time is over, and never on a condition that still has to be waited for
    /// but for the last of these.
    proof fn ends_as_the_condition_says(
        &self,
        op: Self::Op,
        event: WaitEvent,
        condition: Result<bool>,
    )
        requires
            self.answers(op, event),
        ensures
            match self.stepped(op, event, condition).1 {
                WaitAction::Finish(r) | WaitAction::UnparkFinish(r) => match r {
                    Ok(()) => condition == Ok::<bool, Error>(true),
                    Err(e) => condition == Err::<bool, Error>(e) || e == Error::TimedOut,
                },
                _ => true,
            },
    ;

    /// A wait begins with `WaitEvent::Proceed`.
    proof fn begins_with_proceed(&self, timeout: Option<u128>)
        ensures
            self.answers(self.fresh(timeout), WaitEvent::Proceed),
    ;

    /// Begins a wait of `timeout` nanoseconds at most.
    fn begin(&self, timeout: Option<u128>) -> (r: Self::Op)
        ensures
            r == self.fresh(timeout),
    ;

    /// Takes one step.
    fn wait_until(&self, op: Self::Op, event: WaitEvent, condition: Result<bool>) -> (r: (
        Self::Op,
        WaitAction,
    ))
        requires
            self.answers(op, event),
        ensures
            r == self.stepped(op, event, condition),
    ;

    /// Whether a peer whose parked word is `parked` has to be woken. The notification
    /// word was bumped before `parked` was loaded.
    fn wake_if_parked(&self, parked: u32) -> (r: bool)
        ensures
            r == (parked != 0),
    {
        parked != 0
    }

    /// Whether the peer has to be woken when the channel closes: always.
    fn wake_force(&self) -> (r: bool)
        ensures
            r,
    {
        true
    }
}

/// Spins first, then sleeps in the kernel.
#[derive(Debug, Clone, Copy)]
pub struct SpinThenWait {
    pub spin_count: u32,
}

impl Default for SpinThenWait {
    fn default() -> (r: Self)
        ensures
            r.spin_count == 512,
    {
        SpinThenWait { spin_count: 512 }
    }
}

/// Where a spin-then-sleep wait stands.
#[derive(Debug, Clone, Copy)]
pub enum ParkPhase {
    /// Spinning; `left` more looks before sleeping is considered.
    Spin { left: u32 },
    /// The clock is being read to fix the deadline.
    Deadline,
    /// The notification word is being loaded.
    Snapshot,
    /// The clock is being read to see how much time is left.
    Timing { snapshot: u32 },
    /// The parked word is set; one more look before sleeping.
    Parked { snapshot: u32, remaining: Option<u128> },
    /// Asleep.
    Asleep,
    /// The parked word is being cleared after a sleep.
    Waking,
}

/// A spin-then-sleep wait under way.
#[derive(Debug, Clone, Copy)]
pub struct ParkOp {
    pub phase: ParkPhase,
    pub timeout: Option<u128>,
    pub deadline: Option<u128>,
}

impl ParkPhase {
    /// Whether the step from this phase depends on the condition.
    pub open spec fn looks(self) -> bool {
        match self {
            ParkPhase::Spin { left } => left > 0,
            ParkPhase::Snapshot | ParkPhase::Parked { .. } => true,
            _ => false,
        }
    }
}

impl ParkOp {
    /// The same wait in another phase.
    pub open spec fn at(self, phase: ParkPhase) -> ParkOp {
        ParkOp { phase, ..self }
    }

    /// Whether the parked word is set.
    pub open spec fn parked(self) -> bool {
        self.phase is Parked || self.phase is Asleep
    }
}

impl WaitStrategy for SpinThenWait {
    type Op = ParkOp;

    open spec fn fresh(&self, timeout: Option<u128>) -> ParkOp {
        ParkOp { phase: ParkPhase::Spin { left: self.spin_count }, timeout, deadline: None }
    }

    open spec fn answers(&self, op: ParkOp, event: WaitEvent) -> bool {
        match op.phase {
            ParkPhase::Deadline => match (event, op.timeout) {
                (WaitEvent::Clock(now), Some(timeout)) => now + timeout <= u128::MAX,
                _ => false,
            },
            ParkPhase::Timing { snapshot } => event is Clock && op.deadline is Some,
            ParkPhase::Snapshot => event is Notify,
            _ => event is Proceed,
        }
    }

    open spec fn stepped(
        &self,
        op: ParkOp,
        event: WaitEvent,
        condition: Result<bool>,
    ) -> (ParkOp, WaitAction) {
        match (op.phase, event) {
            // Every look costs one unit; with none left the wait turns to sleeping.
            (ParkPhase::Spin { left }, _) => if left == 0 {
                if op.timeout is Some {
                    (op.at(ParkPhase::Deadline), WaitAction::ReadClock)
                } else {
                    (op.at(ParkPhase::Snapshot), WaitAction::LoadNotify)
                }
            } else {
                match condition {
                    Ok(true) => (op, WaitAction::Finish(Ok(()))),
                    Err(e) => (op, WaitAction::Finish(Err(e))),
                    Ok(false) => (
                        op.at(ParkPhase::Spin { left: (left - 1) as u32 }),
                        WaitAction::SpinLoop,
                    ),
                }
            },
            (ParkPhase::Deadline, WaitEvent::Clock(now)) => (
                ParkOp {
                    phase: ParkPhase::Snapshot,
                    timeout: op.timeout,
                    deadline: Some((now + op.timeout->0) as u128),
                },
                WaitAction::LoadNotify,
            ),
            // The word is loaded before the look: what changes after the look changes
            // the word too.
            (ParkPhase::Snapshot, WaitEvent::Notify(snapshot)) => match condition {
                Ok(true) => (op, WaitAction::Finish(Ok(()))),
                Err(e) => (op, WaitAction::Finish(Err(e))),
                Ok(false) => if op.deadline is Some {
                    (op.at(ParkPhase::Timing { snapshot }), WaitAction::ReadClock)
                } else {
                    (op.at(ParkPhase::Parked { snapshot, remaining: None }), WaitAction::Park)
                },
            },
            (ParkPhase::Timing { snapshot }, WaitEvent::Clock(now)) => if now >= op.deadline->0 {
                (op, WaitAction::Finish(Err(Error::TimedOut)))
            } else {
                (
                    op.at(
                        ParkPhase::Parked {
                            snapshot,
                            remaining: Some((op.deadline->0 - now) as u128),
                        },
                    ),
                    WaitAction::Park,
                )
            },
            // The look after the parked word was set catches what the peer published
            // before it could see the word.
            (ParkPhase::Parked { snapshot, remaining }, _) => match condition {
                Ok(true) => (op, WaitAction::UnparkFinish(Ok(()))),
                Err(e) => (op, WaitAction::UnparkFinish(Err(e))),
                Ok(false) => (
                    op.at(ParkPhase::Asleep),
                    WaitAction::Sleep { expected: snapshot, timeout: remaining },
                ),
            },
            (ParkPhase::Asleep, _) => (op.at(ParkPhase::Waking), WaitAction::Unpark),
            (_, _) => (op.at(ParkPhase::Snapshot), WaitAction::LoadNotify),
        }
    }

    proof fn ends_as_the_condition_says(
        &self,
        op: ParkOp,
        event: WaitEvent,
        condition: Result<bool>,
    ) {
    }

    proof fn begins_with_proceed(&self, timeout: Option<u128>) {
    }

    fn begin(&self, timeout: Option<u128>) -> (r: ParkOp) {
        ParkOp { phase: ParkPhase::Spin { left: self.spin_count }, timeout, deadline: None }
    }

    fn wait_until(&self, op: ParkOp, event: WaitEvent, condition: Result<bool>) -> (r: (
        ParkOp,
        WaitAction,
    )) {
        let ParkOp { phase, timeout, deadline } = op;
        match phase {
            ParkPhase::Spin { left } => {
                if left == 0 {
                    if timeout.is_some() {
                        (
                            ParkOp { phase: ParkPhase::Deadline, timeout, deadline },
                            WaitAction::ReadClock,
                        )
                    } else {
                        (
                            ParkOp { phase: ParkPhase::Snapshot, timeout, deadline },
                            WaitAction::LoadNotify,
                        )
                    }
                } else {
                    match condition {
                        Ok(true) => (op, WaitAction::Finish(Ok(()))),
                        Err(e) => (op, WaitAction::Finish(Err(e))),
                        Ok(false) => (
                            ParkOp {
                                phase: ParkPhase::Spin { left: left - 1 },
                                timeout,
                                deadline,
                            },
                            WaitAction::SpinLoop,
                        ),
                    }
                }
            },
            ParkPhase::Deadline => {
                let fixed = match (event, timeout) {
                    (WaitEvent::Clock(now), Some(limit)) => Some(now + limit),
                    _ => deadline,
                };
                (
                    ParkOp { phase: ParkPhase::Snapshot, timeout, deadline: fixed },
                    WaitAction::LoadNotify,
                )
            },
            ParkPhase::Snapshot => {
                let snapshot: u32 = match event {
                    WaitEvent::Notify(word) => word,
                    _ => 0,
                };
                match condition {
                    Ok(true) => (op, WaitAction::Finish(Ok(()))),
                    Err(e) => (op, WaitAction::Finish(Err(e))),
                    Ok(false) => {
                        if deadline.is_some() {
                            (
                                ParkOp { phase: ParkPhase::Timing { snapshot }, timeout, deadline },
                                WaitAction::ReadClock,
                            )
                        } else {
                            (
                                ParkOp {
                                    phase: ParkPhase::Parked { snapshot, remaining: None },
                                    timeout,
                                    deadline,
                                },
                                WaitAction::Park,
                            )
                        }
                    },
                }
            },
            ParkPhase::Timing { snapshot } => {
                match (event, deadline) {
                    (WaitEvent::Clock(now), Some(end)) => {
                        if now >= end {
                            (op, WaitAction::Finish(Err(Error::TimedOut)))
                        } else {
                            (
                                ParkOp {
                                    phase: ParkPhase::Parked {
                                        snapshot,
                                        remaining: Some(end - now),
                                    },
                                    timeout,
                                    deadline,
                                },
                                WaitAction::Park,
                            )
                        }
                    },
                    _ => (op, WaitAction::ReadClock),
                }
            },
            ParkPhase::Parked { snapshot, remaining } => {
                match condition {
                    Ok(true) => (op, WaitAction::UnparkFinish(Ok(()))),
                    Err(e) => (op, WaitAction::UnparkFinish(Err(e))),
                    Ok(false) => (
                        ParkOp { phase: ParkPhase::Asleep, timeout, deadline },
                        WaitAction::Sleep { expected: snapshot, timeout: remaining },
                    ),
                }
            },
            ParkPhase::Asleep => (
                ParkOp { phase: ParkPhase::Waking, timeout, deadline },
                WaitAction::Unpark,
            ),
            ParkPhase::Waking => (
                ParkOp { phase: ParkPhase::Snapshot, timeout, deadline },
                WaitAction::LoadNotify,
            ),
        }
    }
}

/// Spins without ever sleeping.
#[derive(Debug, Clone, Copy)]
pub struct SpinOnly;

/// Where a spinning wait stands.
#[derive(Debug, Clone, Copy)]
pub enum SpinPhase {
    /// Nothing done yet.
    Start,
    /// The clock is being read to fix the deadline.
    Deadline,
    /// The last look found nothing; a spin hint is being given.
    Spun,
    /// The clock is being read to see whether time is over.
    Timing,
}

/// A spinning wait under way.
#[derive(Debug, Clone, Copy)]
pub struct SpinOp {
    pub phase: SpinPhase,
    pub timeout: Option<u128>,
    pub deadline: Option<u128>,
    /// How many looks found nothing, modulo 2^32.
    pub looks: u32,
}

/// The clock is read once in so many looks.
pub const LOOKS_PER_CLOCK: u32 = 1024;

impl SpinOp {
    /// One look at the condition.
    pub open spec fn look(self, condition: Result<bool>) -> (SpinOp, WaitAction) {
        match condition {
            Ok(true) => (self, WaitAction::Finish(Ok(()))),
            Err(e) => (self, WaitAction::Finish(Err(e))),
            Ok(false) => (SpinOp { phase: SpinPhase::Spun, ..self }, WaitAction::SpinLoop),
        }
    }

    fn look_once(self, condition: Result<bool>) -> (r: (SpinOp, WaitAction))
        ensures
            r == self.look(condition),
    {
        let SpinOp { phase, timeout, deadline, looks } = self;
        match condition {
            Ok(true) => (self, WaitAction::Finish(Ok(()))),
            Err(e) => (self, WaitAction::Finish(Err(e))),
            Ok(false) => (
                SpinOp { phase: SpinPhase::Spun, timeout, deadline, looks },
                WaitAction::SpinLoop,
            ),
        }
    }
}

impl WaitStrategy for SpinOnly {
    type Op = SpinOp;

    open spec fn fresh(&self, timeout: Option<u128>) -> SpinOp {
        SpinOp { phase: SpinPhase::Start, timeout, deadline: None, looks: 0 }
    }

    open spec fn answers(&self, op: SpinOp, event: WaitEvent) -> bool {
        match op.phase {
            SpinPhase::Deadline => match (event, op.timeout) {
                (WaitEvent::Clock(now), Some(timeout)) => now + timeout <= u128::MAX,
                _ => false,
            },
            SpinPhase::Timing => event is Clock && op.deadline is Some,
            _ => event is Proceed,
        }
    }

    open spec fn stepped(
        &self,
        op: SpinOp,
        event: WaitEvent,
        condition: Result<bool>,
    ) -> (SpinOp, WaitAction) {
        match (op.phase, event) {
            (SpinPhase::Start, _) => if op.timeout is Some {
                (SpinOp { phase: SpinPhase::Deadline, ..op }, WaitAction::ReadClock)
            } else {
                op.look(condition)
            },
            (SpinPhase::Deadline, WaitEvent::Clock(now)) => (SpinOp {
                deadline: Some((now + op.timeout->0) as u128),
                ..op
            }).look(condition),
            (SpinPhase::Spun, _) => {
                let next = SpinOp { looks: bump(op.looks), ..op };
                if op.deadline is Some && next.looks % LOOKS_PER_CLOCK == 0 {
                    (SpinOp { phase: SpinPhase::Timing, ..next }, WaitAction::ReadClock)
                } else {
                    next.look(condition)
                }
            },
            (SpinPhase::Timing, WaitEvent::Clock(now)) => if now >= op.deadline->0 {
                (op, WaitAction::Finish(Err(Error::TimedOut)))
            } else {
                op.look(condition)
            },
            _ => (op, WaitAction::ReadClock),
        }
    }

    proof fn ends_as_the_condition_says(
        &self,
        op: SpinOp,
        event: WaitEvent,
        condition: Result<bool>,
    ) {
    }

    proof fn begins_with_proceed(&self, timeout: Option<u128>) {
    }

    fn begin(&self, timeout: Option<u128>) -> (r: SpinOp) {
        SpinOp { phase: SpinPhase::Start, timeout, deadline: None, looks: 0 }
    }

    fn wait_until(&self, op: SpinOp, event: WaitEvent, condition: Result<bool>) -> (r: (
        SpinOp,
        WaitAction,
    )) {
        let SpinOp { phase, timeout, deadline, looks } = op;
        match phase {
            SpinPhase::Start => {
                if timeout.is_some() {
                    (
                        SpinOp { phase: SpinPhase::Deadline, timeout, deadline, looks },
                        WaitAction::ReadClock,
                    )
                } else {
                    op.look_once(condition)
                }
            },
            SpinPhase::Deadline => {
                let fixed = match (event, timeout) {
                    (WaitEvent::Clock(now), Some(limit)) => Some(now + limit),
                    _ => deadline,
                };
                let next = SpinOp { phase, timeout, deadline: fixed, looks };
                next.look_once(condition)
            },
            SpinPhase::Spun => {
                let looks: u32 = looks.wrapping_add(1);
                if deadline.is_some() && looks % LOOKS_PER_CLOCK == 0 {
                    (
                        SpinOp { phase: SpinPhase::Timing, timeout, deadline, looks },
                        WaitAction::ReadClock,
                    )
                } else {
                    let next = SpinOp { phase, timeout, deadline, looks };
                    next.look_once(condition)
                }
            },
            SpinPhase::Timing => {
                match (event, deadline) {
                    (WaitEvent::Clock(now), Some(end)) => {
                        if now >= end {
                            (op, WaitAction::Finish(Err(Error::TimedOut)))
                        } else {
                            op.look_once(condition)
                        }
                    },
                    _ => (op, WaitAction::ReadClock),
                }
            },
        }
    }
}

/// The parked word after an action, where it was `before`.
pub open spec fn parked_after(before: bool, action: WaitAction) -> bool {
    match action {
        WaitAction::Park => true,
        WaitAction::Unpark | WaitAction::UnparkFinish(_) => false,
        _ => before,
    }
}

/// The parked word is set exactly while the wait says so, from its first step on, and is
/// clear however the wait ends.
pub proof fn law_parked_word_follows_the_wait(
    wait: SpinThenWait,
    op: ParkOp,
    event: WaitEvent,
    condition: Result<bool>,
    parked: bool,
)
    requires
        wait.answers(op, event),
        parked == op.parked(),
    ensures
        !wait.fresh(op.timeout).parked(),
        ({
            let (next, action) = wait.stepped(op, event, condition);
            match action {
                WaitAction::Finish(_) | WaitAction::UnparkFinish(_) => !parked_after(
                    parked,
                    action,
                ),
                _ => parked_after(parked, action) == next.parked(),
            }
        }),
{
}

/// A wait sleeps only with its parked word set, only after a look that came after the
/// word was set found nothing, and only on the word that it had loaded before.
pub proof fn law_sleep_only_after_a_last_look(
    wait: SpinThenWait,
    op: ParkOp,
    event: WaitEvent,
    condition: Result<bool>,
)
    requires
        wait.answers(op, event),
    ensures
        wait.stepped(op, event, condition).1 matches WaitAction::Sleep { expected, timeout } ==> {
            &&& condition == Ok::<bool, Error>(false)
            &&& op.phase == (ParkPhase::Parked { snapshot: expected, remaining: timeout })
        },
        wait.stepped(op, event, condition).0.phase matches ParkPhase::Parked { snapshot, remaining }
            ==> {
            ||| op.phase == (ParkPhase::Parked { snapshot, remaining })
            ||| wait.stepped(op, event, condition).1 is Park && (event == WaitEvent::Notify(
                snapshot,
            ) && condition == Ok::<bool, Error>(false) || op.phase == (ParkPhase::Timing {
                snapshot,
            }))
        },
        wait.stepped(op, event, condition).0.phase matches ParkPhase::Timing { snapshot } ==> {
            ||| op.phase == (ParkPhase::Timing { snapshot })
            ||| event == WaitEvent::Notify(snapshot) && condition == Ok::<bool, Error>(false)
        },
{
}

/// A step depends on the condition only in a phase that looks.
pub proof fn law_only_looks_depend_on_the_condition(
    wait: SpinThenWait,
    op: ParkOp,
    event: WaitEvent,
    a: Result<bool>,
    b: Result<bool>,
)
    requires
        wait.answers(op, event),
        !op.phase.looks(),
    ensures
        wait.stepped(op, event, a) == wait.stepped(op, event, b),
{
}

/// A publication after the word was loaded keeps the waiter from falling asleep on it:
/// the word differs from the one loaded, unless exactly a multiple of 2^32
/// publications came between.
pub proof fn law_no_sleep_past_a_publication(loaded: u32, publications: nat)
    requires
        0 < publications < 0x1_0000_0000,
    ensures
        bumped_times(loaded, publications) != loaded,
{
    lemma_bumped_times(loaded, publications);
    assert((loaded + publications) % 0x1_0000_0000 != loaded);
}

/// A wait reports that its time is over only if it had a time limit, the clock has
/// reached the deadline, and the look before had found nothing.
pub proof fn law_timed_out_only_after_the_deadline(
    wait: SpinThenWait,
    op: ParkOp,
    event: WaitEvent,
    condition: Result<bool>,
)
    requires
        wait.answers(op, event),
        condition != Err::<bool, Error>(Error::TimedOut),
    ensures
        wait.stepped(op, event, condition).1 == WaitAction::Finish(Err(Error::TimedOut)) ==> {
            &&& op.phase is Timing
            &&& event matches WaitEvent::Clock(now) && op.deadline matches Some(end) && now >= end
        },
        op.phase is Deadline && event is Clock ==> wait.stepped(op, event, condition).0.deadline
            == Some((event->Clock_0 + op.timeout->0) as u128),
        op.timeout is None && op.deadline is None && !(op.phase is Deadline) ==> wait.stepped(
            op,
            event,
            condition,
        ).0.deadline is None,
{
}

/// The same of a wait that only spins.
pub proof fn law_spin_timed_out_only_after_the_deadline(
    wait: SpinOnly,
    op: SpinOp,
    event: WaitEvent,
    condition: Result<bool>,
)
    requires
        wait.answers(op, event),
        condition != Err::<bool, Error>(Error::TimedOut),
    ensures
        wait.stepped(op, event, condition).1 == WaitAction::Finish(Err(Error::TimedOut)) ==> {
            event matches WaitEvent::Clock(now) && op.deadline matches Some(end) && now >= end
        },
{
}

/// A wait ends as soon as a look finds that its condition holds, and with the condition's own
/// error as soon as a look finds one; a look that finds neither does not end it. That holds of
/// every look, whether it is one in a row, one before parking or the last one before sleep, and
/// with or without a time limit. The parked word, which only the last one finds set, is then
/// cleared.
pub proof fn law_look_ends_the_wait(
    wait: SpinThenWait,
    op: ParkOp,
    event: WaitEvent,
    condition: Result<bool>,
    r: (ParkOp, WaitAction),
)
    requires
        wait.answers(op, event),
        call_ensures(SpinThenWait::wait_until, (&wait, op, event, condition), r),
        op.phase matches ParkPhase::Spin { left } ==> left > 0,
        op.phase is Spin || op.phase is Snapshot || op.phase is Parked,
    ensures
        condition matches Ok(true) ==> r.1 == (if op.phase is Parked {
            WaitAction::UnparkFinish(Ok(()))
        } else {
            WaitAction::Finish(Ok(()))
        }),
        condition matches Err(e) ==> r.1 == (if op.phase is Parked {
            WaitAction::UnparkFinish(Err(e))
        } else {
            WaitAction::Finish(Err(e))
        }),
        condition matches Ok(false) ==> r.1 !is Finish && r.1 !is UnparkFinish,
{
}

/// How many steps a wait takes at most before it looks.
pub open spec fn steps_to_a_look(op: ParkOp) -> nat {
    match op.phase {
        ParkPhase::Spin { left } => if left > 0 {
            0
        } else {
            2
        },
        ParkPhase::Snapshot | ParkPhase::Parked { .. } => 0,
        ParkPhase::Deadline | ParkPhase::Timing { .. } | ParkPhase::Waking => 1,
        ParkPhase::Asleep => 2,
    }
}

/// A wait keeps looking: where a step is no look, the next look is nearer than before, unless
/// the time is over. Only in `Timing` can it be, and there it is exactly where the clock has
/// reached the deadline.
pub proof fn law_wait_comes_to_a_look(
    wait: SpinThenWait,
    op: ParkOp,
    event: WaitEvent,
    condition: Result<bool>,
    r: (ParkOp, WaitAction),
)
    requires
        wait.answers(op, event),
        call_ensures(SpinThenWait::wait_until, (&wait, op, event, condition), r),
        op.phase matches ParkPhase::Spin { left } ==> left == 0,
        op.phase !is Snapshot,
        op.phase !is Parked,
    ensures
        r.1 !is UnparkFinish,
        r.1 is Finish ==> op.phase is Timing && r.1 == WaitAction::Finish(Err(Error::TimedOut)),
        op.phase is Timing ==> (r.1 is Finish <==> event->Clock_0 >= op.deadline->0),
        r.1 !is Finish ==> steps_to_a_look(r.0) < steps_to_a_look(op),
{
}

/// A wait is never at a loss: whatever the last action has brought is what the next step takes.
/// (The clock must leave room for the time limit.)
pub proof fn law_wait_takes_what_its_action_brings(
    wait: SpinThenWait,
    op: ParkOp,
    event: WaitEvent,
    condition: Result<bool>,
    r: (ParkOp, WaitAction),
    now: u128,
    word: u32,
)
    requires
        wait.answers(op, event),
        call_ensures(SpinThenWait::wait_until, (&wait, op, event, condition), r),
        op.timeout matches Some(timeout) ==> now + timeout <= u128::MAX,
    ensures
        call_requires(
            SpinThenWait::wait_until,
            (&wait, wait.fresh(op.timeout), WaitEvent::Proceed, condition),
        ),
        r.1 is ReadClock ==> call_requires(
            SpinThenWait::wait_until,
            (&wait, r.0, WaitEvent::Clock(now), condition),
        ),
        r.1 is LoadNotify ==> call_requires(
            SpinThenWait::wait_until,
            (&wait, r.0, WaitEvent::Notify(word), condition),
        ),
        r.1 is SpinLoop || r.1 is Park || r.1 is Sleep || r.1 is Unpark ==> call_requires(
            SpinThenWait::wait_until,
            (&wait, r.0, WaitEvent::Proceed, condition),
        ),
{
}

/// The time limit of a wait is counted from when the clock is first read, and never moves.
pub proof fn law_deadline_is_fixed_once(
    wait: SpinThenWait,
    op: ParkOp,
    event: WaitEvent,
    condition: Result<bool>,
    r: (ParkOp, WaitAction),
)
    requires
        wait.answers(op, event),
        call_ensures(SpinThenWait::wait_until, (&wait, op, event, condition), r),
    ensures
        wait.fresh(op.timeout).timeout == op.timeout,
        wait.fresh(op.timeout).deadline is None,
        r.0.timeout == op.timeout,
        op.phase is Deadline ==> r.0.deadline is Some && r.0.deadline->0 == event->Clock_0
            + op.timeout->0,
        op.phase !is Deadline ==> r.0.deadline == op.deadline,
        r.0.phase is Deadline ==> op.phase is Spin && op.timeout is Some,
        r.0.phase is Spin ==> op.phase is Spin,
{
}

/// A wait sleeps on the very word that it has loaded, and for as long as its time lasts: without
/// a time limit until it is woken, with one until the deadline. Then it clears the parked word,
/// loads the word afresh and looks.
pub proof fn law_sleep_lasts_until_the_deadline(
    wait: SpinThenWait,
    op: ParkOp,
    word: u32,
    now: u128,
    any: Result<bool>,
)
    requires
        op.phase is Snapshot,
        op.deadline matches Some(end) ==> now < end,
    ensures
        ({
            let nothing = Ok::<bool, Error>(false);
            let (loaded, first) = wait.stepped(op, WaitEvent::Notify(word), nothing);
            let (parked, second) = if op.deadline is Some {
                wait.stepped(loaded, WaitEvent::Clock(now), any)
            } else {
                (loaded, first)
            };
            let (asleep, third) = wait.stepped(parked, WaitEvent::Proceed, nothing);
            let (woken, fourth) = wait.stepped(asleep, WaitEvent::Proceed, any);
            let (again, fifth) = wait.stepped(woken, WaitEvent::Proceed, any);
            &&& op.deadline is Some ==> first is ReadClock
            &&& second is Park
            &&& third matches WaitAction::Sleep { expected, timeout }
            &&& expected == word
            &&& op.deadline is None <==> timeout is None
            &&& op.deadline is Some ==> now + timeout->0 == op.deadline->0
            &&& fourth is Unpark
            &&& fifth is LoadNotify
            &&& again == op
        }),
{
}

/// A wait after `looks` looks in a row that found nothing.
pub open spec fn looked_in_vain(wait: SpinThenWait, timeout: Option<u128>, looks: nat) -> ParkOp
    decreases looks,
{
    if looks == 0 {
        wait.fresh(timeout)
    } else {
        wait.stepped(
            looked_in_vain(wait, timeout, (looks - 1) as nat),
            WaitEvent::Proceed,
            Ok(false),
        ).0
    }
}

/// A wait looks exactly `spin_count` times in a row before it turns to sleeping, which begins
/// with the clock where there is a time limit and with the notification word where there is none.
pub proof fn law_spins_as_often_as_told(wait: SpinThenWait, timeout: Option<u128>, looks: nat)
    requires
        looks <= wait.spin_count,
    ensures
        ({
            let (next, action) = wait.stepped(
                looked_in_vain(wait, timeout, looks),
                WaitEvent::Proceed,
                Ok(false),
            );
            if looks < wait.spin_count {
                action is SpinLoop
            } else if timeout is Some {
                action is ReadClock && next.phase is Deadline
            } else {
                action is LoadNotify && next.phase is Snapshot
            }
        }),
        looked_in_vain(wait, timeout, looks).phase is Spin,
        looked_in_vain(wait, timeout, looks).phase->left == wait.spin_count - looks,
        looked_in_vain(wait, timeout, looks).timeout == timeout,
    decreases looks,
{
    if looks > 0 {
        law_spins_as_often_as_told(wait, timeout, (looks - 1) as nat);
    }
}

/// A wait that only spins looks at every step but those that read the clock, and ends as soon
/// as a look finds that its condition holds, or an error. With a time limit it reads the clock
/// first, and again at every 1024th look; it ends where the clock has reached the deadline.
pub proof fn law_spinning_ends_on_a_look(
    op: SpinOp,
    event: WaitEvent,
    condition: Result<bool>,
    r: (SpinOp, WaitAction),
)
    requires
        SpinOnly.answers(op, event),
        call_ensures(SpinOnly::wait_until, (&SpinOnly, op, event, condition), r),
    ensures
        ({
            let due = op.deadline is Some && (op.looks + 1) % 0x1_0000_0000 % 1024 == 0;
            let late = op.phase is Timing && event->Clock_0 >= op.deadline->0;
            let reads = op.phase is Start && op.timeout is Some || op.phase is Spun && due;
            &&& late ==> r.1 == WaitAction::Finish(Err(Error::TimedOut))
            &&& reads ==> r.1 is ReadClock && (r.0.phase is Deadline || r.0.phase is Timing)
            &&& r.0.phase is Deadline && reads <==> op.phase is Start && op.timeout is Some
            &&& !late && !reads ==> match condition {
                Ok(true) => r.1 == WaitAction::Finish(Ok(())),
                Err(e) => r.1 == WaitAction::Finish(Err(e)),
                Ok(false) => r.1 is SpinLoop && r.0.phase is Spun,
            }
        }),
        op.phase is Spun ==> r.0.looks == (op.looks + 1) % 0x1_0000_0000,
        op.phase !is Spun ==> r.0.looks == op.looks,
        r.0.timeout == op.timeout,
        op.phase is Deadline ==> r.0.deadline is Some && r.0.deadline->0 == event->Clock_0
            + op.timeout->0,
        op.phase !is Deadline ==> r.0.deadline == op.deadline,
        SpinOnly.fresh(op.timeout).timeout == op.timeout,
        SpinOnly.fresh(op.timeout).deadline is None,
        SpinOnly.fresh(op.timeout).phase is Start,
        r.1 is SpinLoop ==> call_requires(
            SpinOnly::wait_until,
            (&SpinOnly, r.0, WaitEvent::Proceed, condition),
        ),
{
}

/// A publisher wakes its peer exactly where that is parked, and always when the channel closes,
/// whichever way either of them waits.
pub proof fn law_parked_peer_is_woken(
    wait: SpinThenWait,
    parked: u32,
    woken: (bool, bool),
    forced: (bool, bool),
)
    requires
        call_ensures(SpinThenWait::wake_if_parked, (&wait, parked), woken.0),
        call_ensures(SpinOnly::wake_if_parked, (&SpinOnly, parked), woken.1),
        call_ensures(SpinThenWait::wake_force, (&wait,), forced.0),
        call_ensures(SpinOnly::wake_force, (&SpinOnly,), forced.1),
    ensures
        woken.0 <==> parked != 0,
        woken.1 <==> parked != 0,
        forced.0 && forced.1,
{
}

} // verus!
