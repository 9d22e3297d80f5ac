//! The watch that one endpoint keeps over the other's process.

use vstd::prelude::*;

use crate::error::{Error, IoError, IoErrorKind, Result};
use crate::header::RingHeader;

verus! {

/// What the watch has found: nothing yet, that the peer exited, or that the watch
/// itself failed. A failed watch is no evidence of the peer's death.
///
/// It is local to one connection and never stored in the shared header.
#[derive(Debug, Clone, Copy)]
pub struct PeerState {
    pub terminal: Option<std::result::Result<(), IoError>>,
}

impl PeerState {
    /// The error that a finding stands for.
    pub open spec fn terminal_error(self) -> Option<Error> {
        match self.terminal {
            None => None,
            Some(Ok(())) => Some(Error::PeerDisconnected),
            Some(Err(e)) => Some(Error::Io(e)),
        }
    }

    /// Nothing found.
    pub fn new() -> (r: Self)
        ensures
            r.terminal is None,
    {
        PeerState { terminal: None }
    }

    /// The error that the finding stands for, if there is one.
    pub fn error(&self) -> (r: Option<Error>)
        ensures
            r == self.terminal_error(),
    {
        match self.terminal {
            None => None,
            Some(Ok(())) => Some(Error::PeerDisconnected),
            Some(Err(e)) => Some(Error::Io(e)),
        }
    }

    /// Records how the watch ended and bumps every notification word, so that each
    /// sleeper wakes and sees the finding. The first finding stays.
    pub fn finish(
        &mut self,
        result: std::result::Result<(), IoError>,
        ring_a: &mut RingHeader,
        ring_b: &mut RingHeader,
    )
        ensures
            final(self).terminal == (if old(self).terminal is Some {
                old(self).terminal
            } else {
                Some(result)
            }),
            *final(ring_a) == old(ring_a).bumped(),
            *final(ring_b) == old(ring_b).bumped(),
    {
        if self.terminal.is_none() {
            self.terminal = Some(result);
        }
        ring_a.notify_all();
        ring_b.notify_all();
    }
}

/// How a watch over a process ends.
#[derive(Debug, Clone, Copy, PartialEq, Eq, Structural)]
pub enum PeerWait {
    /// The process exited.
    Exited,
    /// The watch was called off.
    Cancelled,
}

/// The watch over the peer's process, on a thread of its own.
pub struct PeerMonitor;

impl PeerMonitor {
    /// Whether the watch stands: what its thread reported before it began to wait, if
    /// it reported at all.
    pub fn start(reported: Option<Result<()>>) -> (r: Result<()>)
        ensures
            r == match reported {
                Some(ready) => ready,
                None => Err::<(), Error>(
                    Error::Io(
                        IoError::Custom {
                            kind: IoErrorKind::Other,
                            message: "receiving on a closed channel",
                        },
                    ),
                ),
            },
    {
        match reported {
            Some(ready) => ready,
            None => Err(
                Error::Io(
                    IoError::Custom {
                        kind: IoErrorKind::Other,
                        message: "receiving on a closed channel",
                    },
                ),
            ),
        }
    }

    /// What the thread has found once its wait is over: what to record with
    /// `PeerState::finish`, or nothing where the watch was called off.
    pub fn finding(waited: std::result::Result<PeerWait, IoError>) -> (r: Option<
        std::result::Result<(), IoError>,
    >)
        ensures
            r == match waited {
                Ok(PeerWait::Exited) => Some(Ok::<(), IoError>(())),
                Ok(PeerWait::Cancelled) => None,
                Err(e) => Some(Err(e)),
            },
    {
        match waited {
            Ok(PeerWait::Exited) => Some(Ok(())),
            Ok(PeerWait::Cancelled) => None,
            Err(e) => Some(Err(e)),
        }
    }
}

/// Once the watch has found something, every sleeper finds its notification word
/// changed, on either ring and at either end.
pub proof fn law_finding_changes_every_word(before: RingHeader)
    ensures
        before.bumped().writer.notify != before.writer.notify,
        before.bumped().reader.notify != before.reader.notify,
{
    crate::header::law_bump_changes(before.writer.notify);
    crate::header::law_bump_changes(before.reader.notify);
}

/// The first finding of the watch stays, whatever comes after it, and every finding tells
/// everybody. A process that exited is reported as disconnected, and a watch that failed by its
/// own error; a watch that was called off has found nothing.
pub proof fn law_first_finding_stays(
    fresh: PeerState,
    result: std::result::Result<(), IoError>,
    state: PeerState,
    error: Option<Error>,
    waited: std::result::Result<PeerWait, IoError>,
    finding: Option<std::result::Result<(), IoError>>,
    reported: Option<Result<()>>,
    started: Result<()>,
)
    requires
        call_ensures(PeerState::new, (), fresh),
        call_ensures(PeerState::error, (&state,), error),
        call_ensures(PeerMonitor::finding, (waited,), finding),
        call_ensures(PeerMonitor::start, (reported,), started),
    ensures
        fresh.terminal is None,
        forall|s: &mut PeerState, a: &mut RingHeader, b: &mut RingHeader| #[trigger]
            call_ensures(PeerState::finish, (s, result, a, b), ()) ==> {
                &&& s.terminal is None ==> final(s).terminal == Some(result)
                &&& s.terminal is Some ==> final(s).terminal == s.terminal
                &&& crate::channel::told(*a, *final(a))
                &&& crate::channel::told(*b, *final(b))
            },
        error is None <==> state.terminal is None,
        error == Some(Error::PeerDisconnected) <==> (state.terminal matches Some(Ok(()))),
        state.terminal matches Some(Err(e)) ==> error == Some(Error::Io(e)),
        waited matches Ok(how) ==> match how {
            PeerWait::Exited => finding matches Some(Ok(())),
            PeerWait::Cancelled => finding is None,
        },
        waited matches Err(e) ==> finding == Some(Err::<(), IoError>(e)),
        reported matches Some(ready) ==> started == ready,
        reported is None ==> {
            &&& started matches Err(Error::Io(IoError::Custom { kind, message }))
            &&& kind is Other
            &&& message@ == "receiving on a closed channel"@
        },
{
}

} // verus!
