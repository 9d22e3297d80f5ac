//! No change is kept from a task.
//!
//! The peer, and the watch over its process, bump the notification word and wake whoever is
//! parked on it; the thread of the bridge sleeps on the word and wakes the tasks; a task waits
//! until the word has changed. They take turns in any order, one access to shared memory at a
//! time, and any of them may stop for good at any point.

use vstd::prelude::*;

use crate::header::{bumped_times, lemma_bumped_times};
use crate::publish::{Announce, PublishStage};
use crate::tokio::bridge::{BridgeAction, BridgePhase, ChangeAction, ChangePhase};
use crate::wakeup::Publisher;

verus! {

/// What the peer or the watch has told by the notification word.
pub struct Teller {
    /// What it does next; between two publications, `Over`.
    pub at: PublishStage,
    /// Whom the publication under way wakes.
    pub announce: Announce,
    /// How many times it has bumped the word.
    pub bumps: nat,
    /// How many times it had bumped the word when the thread took its baseline.
    pub handed: nat,
    /// How many times it had bumped the word when the task last looked.
    pub seen: nat,
}

impl Teller {
    /// Nothing told yet.
    pub open spec fn starts(self) -> bool {
        self.at is Over && self.bumps == 0 && self.handed == 0
    }

    /// It does the next thing; `parked` is the parked word.
    pub open spec fn steps(self, after: Teller, parked: bool) -> bool {
        let word = if parked {
            1u32
        } else {
            0u32
        };
        let next = self.at.after(self.announce, word);
        match self.at {
            PublishStage::Over => after == (Teller {
                at: PublishStage::Store,
                announce: after.announce,
                ..self
            }),
            PublishStage::Bump => after == (Teller { bumps: self.bumps + 1, at: next, ..self }),
            _ => after == (Teller { at: next, ..self }),
        }
    }

    /// With all that it has told up to now handed on.
    pub open spec fn handing(self) -> Teller {
        Teller { handed: self.bumps, ..self }
    }

    /// With all that it has told up to now seen by the task.
    pub open spec fn seeing(self) -> Teller {
        Teller { seen: self.bumps, ..self }
    }
}

/// Where the thread of the bridge stands.
pub enum Thread {
    /// About to load the word and to take a step.
    Load(BridgePhase),
    /// About to perform an action.
    Act(BridgePhase, BridgeAction),
    /// Asleep in the kernel.
    Asleep(BridgePhase),
}

/// Where a task stands that waits for the word to change.
pub enum Task {
    /// Not waiting. A task waits only once the thread has reported that it is ready.
    Away,
    /// About to look at the word.
    Look(ChangePhase),
    /// About to begin to listen.
    Listen(ChangePhase),
    /// Waiting to be woken.
    Awaiting(ChangePhase),
}

/// All of them at one moment.
pub struct HandoffWorld {
    /// The notification word at the beginning.
    pub first: u32,
    pub peer: Teller,
    pub watch: Teller,
    /// Whether the parked word is set.
    pub parked: bool,
    pub thread: Thread,
    /// Whether the thread has reported that it is ready.
    pub ready: bool,
    pub task: Task,
    /// The word that the task waits to see changed.
    pub observed: u32,
    /// Whether the tasks were woken since this one began to listen.
    pub notified: bool,
}

impl HandoffWorld {
    /// The notification word.
    pub open spec fn notify(self) -> u32 {
        bumped_times(self.first, self.peer.bumps + self.watch.bumps)
    }

    /// What the peer or the watch has told.
    pub open spec fn teller(self, by: Publisher) -> Teller {
        match by {
            Publisher::Peer => self.peer,
            Publisher::Watch => self.watch,
        }
    }

    /// The thread is about to begin, and nobody waits.
    pub open spec fn starts(self) -> bool {
        &&& self.peer.starts()
        &&& self.watch.starts()
        &&& !self.parked
        &&& self.thread == Thread::Load(BridgePhase::Start)
        &&& !self.ready
        &&& self.task is Away
    }

    /// Somebody does the next thing to publish.
    pub open spec fn publisher_steps(self, by: Publisher, after: Self) -> bool {
        let base = if self.teller(by).at is Wake {
            self.risen()
        } else {
            self
        };
        &&& self.teller(by).steps(after.teller(by), self.parked)
        &&& after == match by {
            Publisher::Peer => HandoffWorld { peer: after.peer, ..base },
            Publisher::Watch => HandoffWorld { watch: after.watch, ..base },
        }
    }

    /// The thread after its sleep has ended, if it slept: the parked word is cleared.
    pub open spec fn risen(self) -> Self {
        match self.thread {
            Thread::Asleep(phase) => HandoffWorld {
                thread: Thread::Load(phase),
                parked: false,
                ..self
            },
            _ => self,
        }
    }

    /// The thread loads the word and takes a step. It is not told to stop.
    pub open spec fn thread_loads(self, after: Self) -> bool {
        self.thread matches Thread::Load(phase) && {
            let (next, action) = phase.stepped(self.notify(), false);
            let thread = Thread::Act(next, action);
            after == (if phase is Start || BridgePhase::wakes(action) {
                HandoffWorld {
                    thread,
                    peer: self.peer.handing(),
                    watch: self.watch.handing(),
                    ..self
                }
            } else {
                HandoffWorld { thread, ..self }
            })
        }
    }

    /// The thread performs an action.
    pub open spec fn thread_acts(self, after: Self) -> bool {
        self.thread matches Thread::Act(phase, action) && match action {
            BridgeAction::Report => after == (HandoffWorld {
                ready: true,
                thread: Thread::Load(phase),
                ..self
            }),
            BridgeAction::Park => after == (HandoffWorld {
                parked: true,
                thread: Thread::Load(phase),
                ..self
            }),
            BridgeAction::Sleep { expected } => after == (if self.notify() == expected {
                HandoffWorld { thread: Thread::Asleep(phase), ..self }
            } else {
                HandoffWorld { thread: Thread::Load(phase), parked: false, ..self }
            }),
            BridgeAction::UnparkAndWake => after == (HandoffWorld {
                parked: false,
                notified: true,
                thread: Thread::Load(phase),
                ..self
            }),
            BridgeAction::Wake => after == (HandoffWorld {
                notified: true,
                thread: Thread::Load(phase),
                ..self
            }),
            _ => after == (HandoffWorld { thread: Thread::Load(phase), ..self }),
        }
    }

    /// The task does the next thing: it notes the word, then takes the steps of a wait for
    /// it to change. Woken, it looks again.
    pub open spec fn task_steps(self, after: Self) -> bool {
        match self.task {
            Task::Away => self.ready && after == (HandoffWorld {
                observed: self.notify(),
                task: Task::Look(ChangePhase::Look),
                ..self
            }),
            Task::Look(phase) => {
                let (next, action) = phase.stepped(self.observed, self.notify());
                after == (HandoffWorld {
                    task: match action {
                        ChangeAction::Done => Task::Away,
                        ChangeAction::Listen => Task::Listen(next),
                        ChangeAction::Await => Task::Awaiting(next),
                    },
                    peer: self.peer.seeing(),
                    watch: self.watch.seeing(),
                    ..self
                })
            },
            Task::Listen(phase) => after == (HandoffWorld {
                notified: false,
                task: Task::Look(phase),
                ..self
            }),
            Task::Awaiting(phase) => self.notified && after == (HandoffWorld {
                task: Task::Look(phase),
                ..self
            }),
        }
    }

    /// Something happens. The sleep of the thread may also end by itself.
    pub open spec fn steps(self, after: Self) -> bool {
        ||| self.publisher_steps(Publisher::Peer, after)
        ||| self.publisher_steps(Publisher::Watch, after)
        ||| self.thread_loads(after)
        ||| self.thread_acts(after)
        ||| self.task_steps(after)
        ||| after == self.risen()
    }

    /// The word when the thread took its baseline.
    spec fn baseline(self) -> u32 {
        bumped_times(self.first, self.peer.handed + self.watch.handed)
    }

    /// What holds all through.
    spec fn ordered(self) -> bool {
        let waking = self.thread matches Thread::Act(_, action) && BridgePhase::wakes(action);
        &&& self.peer.handed <= self.peer.bumps
        &&& self.watch.handed <= self.watch.bumps
        &&& match self.thread {
            Thread::Load(phase) => {
                &&& phase is Start || phase.baseline() == Some(self.baseline())
                &&& phase is Start ==> !self.ready
                &&& phase is Parked ==> self.parked
            },
            Thread::Act(phase, action) => {
                &&& phase.baseline() == Some(self.baseline())
                &&& action is Sleep ==> self.parked && phase is Woken && action == (
                BridgeAction::Sleep { expected: self.baseline() })
                &&& phase is Parked ==> action is Park
                &&& action is Report ==> phase is Top
                &&& action !is End && action !is UnparkAndEnd
            },
            Thread::Asleep(phase) => {
                &&& phase.baseline() == Some(self.baseline())
                &&& phase is Woken
                &&& self.parked
                &&& self.peer.bumps == self.peer.handed || self.peer.at.owes_a_wake()
                &&& self.watch.bumps == self.watch.handed || self.watch.at.owes_a_wake()
            },
        }
        &&& !(self.task is Away) ==> self.ready
        &&& self.task is Awaiting ==> {
            &&& self.peer.seen <= self.peer.bumps
            &&& self.watch.seen <= self.watch.bumps
            &&& self.observed == bumped_times(self.first, self.peer.seen + self.watch.seen)
            &&& self.notified || waking || self.peer.handed <= self.peer.seen && self.watch.handed
                <= self.watch.seen
        }
    }
}

/// The worlds that they go through.
pub open spec fn handoff_run(worlds: Seq<HandoffWorld>) -> bool {
    &&& worlds.len() > 0
    &&& worlds[0].starts()
    &&& forall|i: int, j: int|
        0 <= i && j == i + 1 && j < worlds.len() ==> (#[trigger] worlds[i]).steps(
            #[trigger] worlds[j],
        )
}

proof fn lemma_step_keeps_order(a: HandoffWorld, b: HandoffWorld)
    requires
        a.ordered(),
        a.steps(b),
        b.peer.bumps + b.watch.bumps < 0x1_0000_0000,
    ensures
        b.ordered(),
{
    lemma_bumped_times(a.first, a.peer.bumps + a.watch.bumps);
    lemma_bumped_times(a.first, a.peer.handed + a.watch.handed);
    if a.publisher_steps(Publisher::Peer, b) {
    } else if a.publisher_steps(Publisher::Watch, b) {
    } else if a.thread_loads(b) {
    } else if a.thread_acts(b) {
        if b.thread is Asleep {
            // The word is the baseline, so nothing was bumped since it was taken.
            assert(a.peer.bumps == a.peer.handed && a.watch.bumps == a.watch.handed);
        }
    } else if a.task_steps(b) {
    } else {
        assert(b == a.risen());
    }
}

proof fn lemma_run_is_ordered(worlds: Seq<HandoffWorld>)
    requires
        handoff_run(worlds),
        worlds.last().peer.bumps + worlds.last().watch.bumps < 0x1_0000_0000,
    ensures
        worlds.last().ordered(),
    decreases worlds.len(),
{
    if worlds.len() > 1 {
        let before = worlds.drop_last();
        let n = worlds.len() - 1;
        assert(worlds[n - 1].steps(worlds[n]));
        assert(before.last() == worlds[n - 1]);
        assert(before.last().peer.bumps <= worlds[n].peer.bumps);
        assert(before.last().watch.bumps <= worlds[n].watch.bumps);
        assert(handoff_run(before)) by {
            assert forall|i: int, j: int|
                0 <= i && j == i + 1 && j < before.len() implies (#[trigger] before[i]).steps(
                #[trigger] before[j],
            ) by {
                assert(worlds[i].steps(worlds[j]));
            }
        }
        lemma_run_is_ordered(before);
        lemma_step_keeps_order(worlds[n - 1], worlds[n]);
    }
}

/// No task waits for a change that has come, in whatever order they move: while the task waits
/// and was not woken and the thread sleeps, whoever does not owe a wake has told nothing since
/// the task last looked. So where neither does, the word is still what the task has observed;
/// and what the watch tells reaches the task also where the peer has stopped half way. (The word
/// counts, and must not come round to the same value: fewer than 2^32 publications.)
pub proof fn law_no_change_is_kept_from_a_task(worlds: Seq<HandoffWorld>, by: Publisher)
    requires
        handoff_run(worlds),
        worlds.last().peer.bumps + worlds.last().watch.bumps < 0x1_0000_0000,
    ensures
        ({
            let world = worlds.last();
            let quiet = world.task is Awaiting && !world.notified && world.thread is Asleep;
            &&& quiet && !world.teller(by).at.owes_a_wake() ==> world.teller(by).bumps
                == world.teller(by).seen
            &&& quiet && !world.peer.at.owes_a_wake() && !world.watch.at.owes_a_wake()
                ==> world.notify() == world.observed
        }),
{
    lemma_run_is_ordered(worlds);
}

} // verus!
