//! No wakeup is lost.
//!
//! One end waits as `SpinThenWait` does. The peer publishes, and so does the watch over the
//! peer's process: each stores what the waiter's condition looks at, bumps the notification
//! word and wakes the waiter, in the order of `PublishStage`. A publication need not end the
//! wait: a message that is taken may leave less room than a sender waits for. The three take
//! turns in any order, one access to shared memory at a time. Any of them may stop for good at
//! any point: a peer that dies is one that takes no more turns.

use vstd::prelude::*;

use crate::error::Error;
use crate::header::{bumped_times, lemma_bumped_times};
use crate::publish::{Announce, PublishStage};
use crate::wait::{ParkOp, ParkPhase, SpinThenWait, WaitAction, WaitEvent, WaitStrategy};

verus! {

/// Who publishes.
#[derive(PartialEq, Eq, Structural)]
pub enum Publisher {
    /// The other end of the channel.
    Peer,
    /// The watch over the other end's process.
    Watch,
}

/// What one of them has published.
pub struct Source {
    /// What it does next; between two publications, `Over`.
    pub at: PublishStage,
    /// Whom the publication under way wakes.
    pub announce: Announce,
    /// How many publications there had been when the waiter last looked; before its first
    /// look, when the wait began.
    pub seen: nat,
    /// How many publications there have been.
    pub published: nat,
    /// How many times it has bumped the notification word.
    pub bumps: nat,
    /// How many times it had bumped the word when the waiter last loaded it.
    pub mark: nat,
}

impl Source {
    /// A wait begins.
    pub open spec fn starts(self) -> bool {
        &&& self.seen == self.published
        &&& self.counted()
    }

    /// Every publication is bumped, but for one that was just stored.
    pub open spec fn counted(self) -> bool {
        self.published == self.bumps + (if self.at is Bump {
            1nat
        } else {
            0nat
        })
    }

    /// Whether it is between two publications.
    pub open spec fn idle(self) -> bool {
        self.at is Over || self.at is Store
    }

    /// The waiter looks: whatever was published by now is seen.
    pub open spec fn looked_at(self) -> Source {
        Source { seen: self.published, ..self }
    }

    /// It does the next thing; `parked` is the parked word.
    pub open spec fn steps(self, after: Source, parked: bool) -> bool {
        let word = if parked {
            1u32
        } else {
            0u32
        };
        let next = self.at.after(self.announce, word);
        match self.at {
            PublishStage::Over => after == (Source {
                at: PublishStage::Store,
                announce: after.announce,
                ..self
            }),
            PublishStage::Store => after == (Source {
                published: self.published + 1,
                at: next,
                ..self
            }),
            PublishStage::Bump => after == (Source { bumps: self.bumps + 1, at: next, ..self }),
            _ => after == (Source { at: next, ..self }),
        }
    }
}

/// Where the waiter stands.
pub enum Waiter {
    /// About to perform an action.
    Perform(ParkOp, WaitAction),
    /// The action is performed; about to look and to take a step.
    Look(ParkOp, WaitEvent),
    /// Asleep in the kernel.
    Asleep(ParkOp),
    /// The wait is over.
    Over,
}

/// A wait and those who publish at one moment.
pub struct WakeWorld {
    pub wait: SpinThenWait,
    /// The notification word at the beginning.
    pub first: u32,
    /// Whether the parked word is set.
    pub parked: bool,
    pub peer: Source,
    pub watch: Source,
    pub waiter: Waiter,
    /// What the waiter's last look has found.
    pub found: std::result::Result<bool, Error>,
}

impl WakeWorld {
    /// The notification word.
    pub open spec fn notify(self) -> u32 {
        bumped_times(self.first, self.peer.bumps + self.watch.bumps)
    }

    /// What one of them has published.
    pub open spec fn source(self, by: Publisher) -> Source {
        match by {
            Publisher::Peer => self.peer,
            Publisher::Watch => self.watch,
        }
    }

    /// A wait is about to begin.
    pub open spec fn starts(self, timeout: Option<u128>) -> bool {
        &&& self.peer.starts()
        &&& self.watch.starts()
        &&& !self.parked
        &&& self.waiter == Waiter::Look(self.wait.fresh(timeout), WaitEvent::Proceed)
    }

    /// Somebody does the next thing to publish.
    pub open spec fn publisher_steps(self, by: Publisher, after: Self) -> bool {
        let waiter = if self.source(by).at is Wake {
            self.woken()
        } else {
            self.waiter
        };
        &&& self.source(by).steps(after.source(by), self.parked)
        &&& after == match by {
            Publisher::Peer => WakeWorld { peer: after.peer, waiter, ..self },
            Publisher::Watch => WakeWorld { watch: after.watch, waiter, ..self },
        }
    }

    /// The waiter after it was woken.
    pub open spec fn woken(self) -> Waiter {
        match self.waiter {
            Waiter::Asleep(op) => Waiter::Look(op, WaitEvent::Proceed),
            other => other,
        }
    }

    /// The waiter performs an action. The kernel puts it to sleep only if the word is
    /// what the waiter expects.
    pub open spec fn waiter_performs(self, after: Self, now: u128) -> bool {
        self.waiter matches Waiter::Perform(op, action) && match action {
            WaitAction::ReadClock => {
                &&& self.wait.answers(op, WaitEvent::Clock(now))
                &&& after == (WakeWorld { waiter: Waiter::Look(op, WaitEvent::Clock(now)), ..self })
            },
            WaitAction::LoadNotify => after == (WakeWorld {
                waiter: Waiter::Look(op, WaitEvent::Notify(self.notify())),
                peer: Source { mark: self.peer.bumps, ..self.peer },
                watch: Source { mark: self.watch.bumps, ..self.watch },
                ..self
            }),
            WaitAction::Park => after == (WakeWorld {
                parked: true,
                waiter: Waiter::Look(op, WaitEvent::Proceed),
                ..self
            }),
            WaitAction::Unpark => after == (WakeWorld {
                parked: false,
                waiter: Waiter::Look(op, WaitEvent::Proceed),
                ..self
            }),
            WaitAction::Sleep { expected, timeout } => after == (WakeWorld {
                waiter: if self.notify() == expected {
                    Waiter::Asleep(op)
                } else {
                    Waiter::Look(op, WaitEvent::Proceed)
                },
                ..self
            }),
            _ => after == (WakeWorld { waiter: Waiter::Look(op, WaitEvent::Proceed), ..self }),
        }
    }

    /// The waiter takes a step. Where the step depends on the condition, that is a look, and
    /// it may find anything.
    pub open spec fn waiter_looks(
        self,
        after: Self,
        condition: std::result::Result<bool, Error>,
    ) -> bool {
        self.waiter matches Waiter::Look(op, event) && {
            let (next, action) = self.wait.stepped(op, event, condition);
            let looked = WakeWorld {
                waiter: match action {
                    WaitAction::Finish(_) | WaitAction::UnparkFinish(_) => Waiter::Over,
                    _ => Waiter::Perform(next, action),
                },
                parked: self.parked && action !is UnparkFinish,
                ..self
            };
            after == if op.phase.looks() {
                WakeWorld {
                    peer: self.peer.looked_at(),
                    watch: self.watch.looked_at(),
                    found: condition,
                    ..looked
                }
            } else {
                looked
            }
        }
    }

    /// The waiter's sleep ends by itself: its time is over, or a signal came.
    pub open spec fn waiter_rises(self, after: Self) -> bool {
        &&& self.waiter is Asleep
        &&& after == (WakeWorld { waiter: self.woken(), ..self })
    }

    /// Something happens.
    pub open spec fn steps(self, after: Self) -> bool {
        ||| self.publisher_steps(Publisher::Peer, after)
        ||| self.publisher_steps(Publisher::Watch, after)
        ||| exists|now: u128| #[trigger] self.waiter_performs(after, now)
        ||| exists|condition: std::result::Result<bool, Error>|
            #[trigger] self.waiter_looks(after, condition)
        ||| self.waiter_rises(after)
    }

    /// The word that the waiter loaded last.
    spec fn loaded(self) -> u32 {
        bumped_times(self.first, self.peer.mark + self.watch.mark)
    }

    /// Whether a word is the one that the waiter loaded, before its last look.
    spec fn marked(self, word: u32) -> bool {
        &&& word == self.loaded()
        &&& self.peer.mark <= self.peer.bumps && self.peer.mark <= self.peer.seen
        &&& self.watch.mark <= self.watch.bumps && self.watch.mark <= self.watch.seen
    }

    /// What holds of the waiter all through a wait.
    spec fn waiter_ordered(self) -> bool {
        match self.waiter {
            Waiter::Look(op, event) => {
                &&& self.wait.answers(op, event)
                &&& op.phase is Snapshot && event is Notify ==> event->Notify_0 == self.loaded()
                    && self.peer.mark <= self.peer.bumps && self.watch.mark <= self.watch.bumps
                &&& op.phase matches ParkPhase::Timing { snapshot } ==> self.marked(snapshot)
                &&& op.phase matches ParkPhase::Parked { snapshot, remaining } ==> self.marked(
                    snapshot,
                ) && self.parked
            },
            Waiter::Perform(op, action) => {
                &&& op.phase is Spin <==> action is SpinLoop
                &&& op.phase is Deadline ==> action is ReadClock && op.timeout is Some
                &&& op.phase is Snapshot <==> action is LoadNotify
                &&& op.phase is Waking <==> action is Unpark
                &&& op.phase matches ParkPhase::Timing { snapshot } ==> action is ReadClock
                    && op.deadline is Some && self.marked(snapshot)
                &&& op.phase matches ParkPhase::Parked { snapshot, remaining } ==> action is Park
                    && self.marked(snapshot)
                &&& op.phase is Asleep <==> action is Sleep
                &&& action matches WaitAction::Sleep { expected, timeout } ==> self.marked(expected)
                    && self.parked && self.found == Ok::<bool, Error>(false)
            },
            Waiter::Asleep(op) => {
                &&& op.phase is Asleep
                &&& self.parked
                &&& self.found == Ok::<bool, Error>(false)
                &&& self.peer.published == self.peer.seen || !self.peer.idle()
                &&& self.watch.published == self.watch.seen || !self.watch.idle()
            },
            Waiter::Over => true,
        }
    }

    /// What holds all through a wait.
    spec fn ordered(self) -> bool {
        &&& self.peer.seen <= self.peer.published
        &&& self.watch.seen <= self.watch.published
        &&& self.peer.counted()
        &&& self.watch.counted()
        &&& self.waiter_ordered()
    }
}

/// The worlds that a wait goes through.
pub open spec fn wake_run(worlds: Seq<WakeWorld>, timeout: Option<u128>) -> bool {
    &&& worlds.len() > 0
    &&& worlds[0].starts(timeout)
    &&& forall|i: int, j: int|
        0 <= i && j == i + 1 && j < worlds.len() ==> (#[trigger] worlds[i]).steps(
            #[trigger] worlds[j],
        )
}

proof fn lemma_step_keeps_order(a: WakeWorld, b: WakeWorld)
    requires
        a.ordered(),
        a.steps(b),
        b.peer.bumps + b.watch.bumps < 0x1_0000_0000,
    ensures
        b.ordered(),
{
    lemma_bumped_times(a.first, a.peer.bumps + a.watch.bumps);
    lemma_bumped_times(a.first, a.peer.mark + a.watch.mark);
    if a.publisher_steps(Publisher::Peer, b) {
    } else if a.publisher_steps(Publisher::Watch, b) {
    } else if exists|now: u128| #[trigger] a.waiter_performs(b, now) {
        let now = choose|now: u128| #[trigger] a.waiter_performs(b, now);
        assert(a.waiter_performs(b, now));
        if let Waiter::Perform(op, action) = a.waiter {
            if let WaitAction::Sleep { expected, timeout } = action {
                if b.waiter is Asleep {
                    // The word is the marked one, so nothing was bumped since it was loaded.
                    assert(a.peer.bumps == a.peer.mark && a.watch.bumps == a.watch.mark);
                }
            }
        }
    } else if exists|condition: std::result::Result<bool, Error>|
        #[trigger] a.waiter_looks(b, condition) {
        let condition = choose|condition: std::result::Result<bool, Error>|
            #[trigger] a.waiter_looks(b, condition);
        assert(a.waiter_looks(b, condition));
    } else {
        assert(a.waiter_rises(b));
    }
}

proof fn lemma_run_is_ordered(worlds: Seq<WakeWorld>, timeout: Option<u128>)
    requires
        wake_run(worlds, timeout),
        worlds.last().peer.bumps + worlds.last().watch.bumps < 0x1_0000_0000,
    ensures
        worlds.last().ordered(),
    decreases worlds.len(),
{
    if worlds.len() > 1 {
        let before = worlds.drop_last();
        let n = worlds.len() - 1;
        assert(worlds[n - 1].steps(worlds[n]));
        assert(before.last() == worlds[n - 1]);
        assert(before.last().peer.bumps <= worlds[n].peer.bumps);
        assert(before.last().watch.bumps <= worlds[n].watch.bumps);
        assert(wake_run(before, timeout)) by {
            assert forall|i: int, j: int|
                0 <= i && j == i + 1 && j < before.len() implies (#[trigger] before[i]).steps(
                #[trigger] before[j],
            ) by {
                assert(worlds[i].steps(worlds[j]));
            }
        }
        lemma_run_is_ordered(before, timeout);
        lemma_step_keeps_order(worlds[n - 1], worlds[n]);
    }
}

/// Nobody sleeps through a publication, be it a message, the room that one leaves, a close or
/// a finding of the watch, and in whatever order they move: while the waiter is asleep, its last
/// look has found nothing to end the wait, and whoever has published anything since that look
/// is not done yet; and a waiter that sleeps is parked, so whoever publishes will wake it before
/// it is. That holds however often a look finds too little, and of the watch also where the peer
/// has stopped half way. (The notification word counts, and must not come round to the same
/// value during one wait: fewer than 2^32 publications.)
pub proof fn law_no_wakeup_is_lost(
    worlds: Seq<WakeWorld>,
    timeout: Option<u128>,
    by: Publisher,
)
    requires
        wake_run(worlds, timeout),
        worlds.last().peer.bumps + worlds.last().watch.bumps < 0x1_0000_0000,
    ensures
        ({
            let world = worlds.last();
            &&& world.waiter is Asleep ==> world.found == Ok::<bool, Error>(false)
            &&& world.waiter is Asleep && world.source(by).idle() ==> world.source(by).published
                == world.source(by).seen
            &&& world.waiter is Asleep ==> world.parked
        }),
{
    lemma_run_is_ordered(worlds, timeout);
}

proof fn lemma_publications_only_grow(worlds: Seq<WakeWorld>, timeout: Option<u128>, by: Publisher)
    requires
        wake_run(worlds, timeout),
    ensures
        worlds[0].source(by).published <= worlds.last().source(by).published,
    decreases worlds.len(),
{
    if worlds.len() > 1 {
        let before = worlds.drop_last();
        let n = worlds.len() - 1;
        assert(worlds[n - 1].steps(worlds[n]));
        assert(wake_run(before, timeout)) by {
            assert forall|i: int, j: int|
                0 <= i && j == i + 1 && j < before.len() implies (#[trigger] before[i]).steps(
                #[trigger] before[j],
            ) by {
                assert(worlds[i].steps(worlds[j]));
            }
        }
        lemma_publications_only_grow(before, timeout, by);
    }
}

/// Where a look always ends the wait once it comes after a publication of one of the two, no
/// waiter is asleep once such a publication is over, however many of the other's came before
/// and left it waiting. A finding of the watch is such a publication for everybody, so that a
/// crash ends a send that waits for room; a message is one for a reader.
pub proof fn law_what_ends_the_wait_is_not_slept_through(
    worlds: Seq<WakeWorld>,
    timeout: Option<u128>,
    by: Publisher,
)
    requires
        wake_run(worlds, timeout),
        worlds.last().peer.bumps + worlds.last().watch.bumps < 0x1_0000_0000,
        forall|i: int|
            0 <= i < worlds.len() && (#[trigger] worlds[i]).source(by).seen > worlds[0].source(
                by,
            ).published ==> worlds[i].found != Ok::<bool, Error>(false),
    ensures
        worlds.last().waiter is Asleep && worlds.last().source(by).idle()
            ==> worlds.last().source(by).published == worlds[0].source(by).published,
{
    law_no_wakeup_is_lost(worlds, timeout, by);
    lemma_publications_only_grow(worlds, timeout, by);
    assert(worlds[worlds.len() - 1] == worlds.last());
}

/// Whoever publishes while the waiter is asleep wakes it: once it has stored what it publishes,
/// its next steps, with the waiter asleep all the while, end with the waiter awake.
pub proof fn law_sleeper_is_woken(
    by: Publisher,
    stored: WakeWorld,
    second: WakeWorld,
    third: WakeWorld,
    fourth: WakeWorld,
)
    requires
        stored.waiter is Asleep,
        stored.parked,
        stored.source(by).at is Bump,
        stored.publisher_steps(by, second),
        second.publisher_steps(by, third),
        third.publisher_steps(by, fourth),
    ensures
        stored.source(by).announce == Announce::Always ==> third.source(by).idle()
            && third.waiter is Look,
        stored.source(by).announce == Announce::IfParked ==> fourth.source(by).idle()
            && fourth.waiter is Look,
{
}

} // verus!
