//! The order in which something is published.
//!
//! What is published is stored first; then the notification word is bumped; only then is the
//! parked word loaded, and whoever is parked is woken. A close and a finding of the watch over
//! the peer wake whoever sleeps without looking at the parked word.

use vstd::prelude::*;

use crate::header::{ReadCursorLine, WriteCursorLine};

verus! {

/// What is to be done next to publish something.
#[derive(Debug, Clone, Copy, PartialEq, Eq, Structural)]
pub enum PublishStage {
    /// Store what is published: a cursor, the state word or a finding.
    Store,
    /// Bump the notification word.
    Bump,
    /// Load the parked word.
    LoadParked,
    /// Wake whoever sleeps on the notification word.
    Wake,
    /// Nothing.
    Over,
}

/// Whom a publication wakes.
#[derive(Debug, Clone, Copy, PartialEq, Eq, Structural)]
pub enum Announce {
    /// A peer whose parked word is set: a message, and the room that one leaves.
    IfParked,
    /// Whoever sleeps: a close, and a finding of the watch.
    Always,
}

impl PublishStage {
    /// The stage after this one; `parked` is the parked word where it was just loaded.
    pub open spec fn after(self, announce: Announce, parked: u32) -> PublishStage {
        match self {
            PublishStage::Store => PublishStage::Bump,
            PublishStage::Bump => match announce {
                Announce::IfParked => PublishStage::LoadParked,
                Announce::Always => PublishStage::Wake,
            },
            PublishStage::LoadParked => if parked != 0 {
                PublishStage::Wake
            } else {
                PublishStage::Over
            },
            PublishStage::Wake => PublishStage::Over,
            PublishStage::Over => PublishStage::Over,
        }
    }

    /// Whether the notification word has been bumped and whoever sleeps on it has not been
    /// seen to.
    pub open spec fn owes_a_wake(self) -> bool {
        self is LoadParked || self is Wake
    }

    /// The stage after this one; `parked` is the parked word where it was just loaded.
    pub fn step(self, announce: Announce, parked: u32) -> (r: PublishStage)
        ensures
            r == self.after(announce, parked),
    {
        match self {
            PublishStage::Store => PublishStage::Bump,
            PublishStage::Bump => match announce {
                Announce::IfParked => PublishStage::LoadParked,
                Announce::Always => PublishStage::Wake,
            },
            PublishStage::LoadParked => if parked != 0 {
                PublishStage::Wake
            } else {
                PublishStage::Over
            },
            PublishStage::Wake => PublishStage::Over,
            PublishStage::Over => PublishStage::Over,
        }
    }
}

impl WriteCursorLine {
    /// What is to be done first once a step of sending has made this line into `after`.
    pub open spec fn announced(self, after: WriteCursorLine) -> PublishStage {
        if after == self {
            PublishStage::Over
        } else {
            PublishStage::Store
        }
    }

    /// What is to be done first once a step of sending has made this line into `after`.
    pub fn publication(&self, after: &WriteCursorLine) -> (r: PublishStage)
        ensures
            r == self.announced(*after),
    {
        if *after == *self {
            PublishStage::Over
        } else {
            PublishStage::Store
        }
    }
}

impl ReadCursorLine {
    /// What is to be done first once a step of receiving has made this line into `after`.
    pub open spec fn announced(self, after: ReadCursorLine) -> PublishStage {
        if after == self {
            PublishStage::Over
        } else {
            PublishStage::Store
        }
    }

    /// What is to be done first once a step of receiving has made this line into `after`.
    pub fn publication(&self, after: &ReadCursorLine) -> (r: PublishStage)
        ensures
            r == self.announced(*after),
    {
        if *after == *self {
            PublishStage::Over
        } else {
            PublishStage::Store
        }
    }
}

/// A publication stores before it bumps, bumps before it loads the parked word, and ends
/// without a wake only where it has found that word clear after the bump.
pub proof fn law_publication_goes_in_order(announce: Announce, parked: u32)
    ensures
        PublishStage::Store.after(announce, parked) is Bump,
        PublishStage::Bump.after(announce, parked).owes_a_wake(),
        announce == Announce::Always ==> PublishStage::Bump.after(announce, parked) is Wake,
        PublishStage::LoadParked.after(announce, parked) is Wake <==> parked != 0,
        PublishStage::LoadParked.after(announce, parked) is Over <==> parked == 0,
        PublishStage::Wake.after(announce, parked) is Over,
{
}

/// A publication is one store, one bump, one look at the parked word where only a parked peer is
/// to be woken, and one wake where somebody is: in that order, nothing twice and nothing after.
pub proof fn law_publication_takes_its_steps_once(
    announce: Announce,
    parked: u32,
    words: (u32, u32, u32, u32),
    second: PublishStage,
    third: PublishStage,
    fourth: PublishStage,
    last: PublishStage,
    over: PublishStage,
)
    requires
        call_ensures(PublishStage::step, (PublishStage::Store, announce, words.0), second),
        call_ensures(PublishStage::step, (second, announce, words.1), third),
        call_ensures(
            PublishStage::step,
            (
                third,
                announce,
                if third is LoadParked {
                    parked
                } else {
                    words.2
                },
            ),
            fourth,
        ),
        call_ensures(PublishStage::step, (fourth, announce, words.3), last),
        call_ensures(PublishStage::step, (PublishStage::Over, announce, parked), over),
    ensures
        second is Bump,
        announce is IfParked ==> third is LoadParked && last is Over,
        announce is IfParked ==> (fourth is Wake <==> parked != 0) && (fourth is Over <==> parked
            == 0),
        announce is Always ==> third is Wake && fourth is Over,
        over is Over,
{
}

/// A line that an operation has changed is published, and one that it has left alone is not.
pub proof fn law_only_changes_are_published(
    writer: (WriteCursorLine, WriteCursorLine),
    reader: (ReadCursorLine, ReadCursorLine),
    a: PublishStage,
    b: PublishStage,
)
    requires
        call_ensures(WriteCursorLine::publication, (&writer.0, &writer.1), a),
        call_ensures(ReadCursorLine::publication, (&reader.0, &reader.1), b),
    ensures
        a is Over || a is Store,
        b is Over || b is Store,
        writer.0.write_cursor != writer.1.write_cursor || writer.0.notify != writer.1.notify ==> a
            is Store,
        reader.0.read_cursor != reader.1.read_cursor || reader.0.notify != reader.1.notify ==> b
            is Store,
        writer.0 == writer.1 ==> a is Over,
        reader.0 == reader.1 ==> b is Over,
{
}

} // verus!
