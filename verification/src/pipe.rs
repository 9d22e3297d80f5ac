//! The listener's named pipe on Windows.
//!
//! A thread waits for the next client on an instance of the pipe. One such instance is
//! kept ready at all times: a client that comes between two accepts still finds it.

use vstd::prelude::*;

use crate::error::{Error, IoError, IoErrorKind, Result};

verus! {

/// Windows' number for a pipe whose client came before it was waited for.
pub const ERROR_PIPE_CONNECTED: i32 = 535;

/// How long closing a listener waits for its own waiter: fifty milliseconds.
pub const CANCEL_NANOS: u128 = 50_000_000;

/// What waiting for the thread brought.
#[derive(Debug, Clone, Copy)]
pub enum PipeWait {
    /// The thread is done: a client is there, or waiting for one failed.
    Finished(Result<()>),
    /// The time was over first.
    TimedOut,
    /// The thread is gone without a word.
    Disconnected,
}

/// What becomes of the waiting thread.
#[derive(Debug, Clone, Copy, PartialEq, Eq, Structural)]
pub enum PendingAccept {
    /// It goes on: were it given up, a client could connect to its instance and never be
    /// answered.
    Keep,
    /// It is joined, and no other takes its place.
    Join,
    /// It is joined, and another takes its place.
    Renew,
}

/// Whether a client is on the pipe: `connected` says so itself, or fails because the
/// client was there already.
pub fn wait_for_pipe_client(connected: std::result::Result<(), IoError>) -> (r: Result<()>)
    ensures
        r == match connected {
            Ok(()) => Ok::<(), Error>(()),
            Err(e) => if e == IoError::Os(ERROR_PIPE_CONNECTED) {
                Ok(())
            } else {
                Err(Error::Io(e))
            },
        },
{
    match connected {
        Ok(()) => Ok(()),
        Err(IoError::Os(code)) => if code == ERROR_PIPE_CONNECTED {
            Ok(())
        } else {
            Err(Error::Io(IoError::Os(code)))
        },
        Err(e) => Err(Error::Io(e)),
    }
}

/// What accepting comes to, and what becomes of the waiting thread.
pub open spec fn pipe_accepted(waited: PipeWait) -> (Result<()>, PendingAccept) {
    match waited {
        PipeWait::Finished(Ok(())) => (Ok(()), PendingAccept::Renew),
        PipeWait::Finished(Err(e)) => (Err(e), PendingAccept::Join),
        PipeWait::TimedOut => (Err(Error::TimedOut), PendingAccept::Keep),
        PipeWait::Disconnected => (
            Err(
                Error::Io(
                    IoError::Custom {
                        kind: IoErrorKind::BrokenPipe,
                        message: "named pipe accept thread disconnected",
                    },
                ),
            ),
            PendingAccept::Join,
        ),
    }
}

/// What accepting comes to, and what becomes of the waiting thread.
pub fn wait_for_pipe(waited: PipeWait) -> (r: (Result<()>, PendingAccept))
    ensures
        r == pipe_accepted(waited),
{
    match waited {
        PipeWait::Finished(Ok(())) => (Ok(()), PendingAccept::Renew),
        PipeWait::Finished(Err(e)) => (Err(e), PendingAccept::Join),
        PipeWait::TimedOut => (Err(Error::TimedOut), PendingAccept::Keep),
        PipeWait::Disconnected => (
            Err(
                Error::Io(
                    IoError::Custom {
                        kind: IoErrorKind::BrokenPipe,
                        message: "named pipe accept thread disconnected",
                    },
                ),
            ),
            PendingAccept::Join,
        ),
    }
}

/// An accept that succeeds, and one that runs out of time, both leave an instance of the
/// pipe for the next client.
pub proof fn law_pipe_stays_open_to_clients(waited: PipeWait)
    ensures
        pipe_accepted(waited).0 is Ok ==> pipe_accepted(waited).1 == PendingAccept::Renew,
        waited is TimedOut <==> pipe_accepted(waited).1 == PendingAccept::Keep,
{
}

/// What to do next to close a listener whose thread may still wait.
#[derive(Debug, Clone, Copy, PartialEq, Eq, Structural)]
pub enum CancelStep {
    /// There is no thread.
    Nothing,
    /// Connect to the thread's own instance, so many nanoseconds at most, and wait as long
    /// again for the thread to report.
    ConnectAndWait(u128),
    /// Join the thread.
    Join,
    /// Leave the thread alone.
    Leave,
}

/// What to do next to close a listener: a thread that still waits is sent a client once,
/// and is joined only if it has finished.
pub fn cancel_pending_accept(pending: bool, tried: bool, finished: bool) -> (r: CancelStep)
    ensures
        r == if !pending {
            CancelStep::Nothing
        } else if finished {
            CancelStep::Join
        } else if !tried {
            CancelStep::ConnectAndWait(CANCEL_NANOS)
        } else {
            CancelStep::Leave
        },
{
    if !pending {
        CancelStep::Nothing
    } else if finished {
        CancelStep::Join
    } else if !tried {
        CancelStep::ConnectAndWait(CANCEL_NANOS)
    } else {
        CancelStep::Leave
    }
}

/// A client that is on the pipe is accepted, also one that was there before it was waited for. What
/// the waiting thread has found is what accepting comes to; a thread that still waits is kept, and
/// one that is done is joined and, where it has a client, replaced.
pub proof fn law_pipe_accepts_whom_its_thread_has_found(
    connected: std::result::Result<(), IoError>,
    client: Result<()>,
    waited: PipeWait,
    r: (Result<()>, PendingAccept),
)
    requires
        call_ensures(wait_for_pipe_client, (connected,), client),
        call_ensures(wait_for_pipe, (waited,), r),
    ensures
        client is Ok <==> (connected is Ok || (connected matches Err(IoError::Os(code)) && code
            == 535)),
        client matches Err(e) ==> connected matches Err(told) && e == Error::Io(told),
        match waited {
            PipeWait::Finished(Ok(_)) => r.0 is Ok && r.1 is Renew,
            PipeWait::Finished(Err(e)) => r.0 == Err::<(), Error>(e) && r.1 is Join,
            PipeWait::TimedOut => r.0 == Err::<(), Error>(Error::TimedOut) && r.1 is Keep,
            PipeWait::Disconnected => {
                &&& r.1 is Join
                &&& r.0 matches Err(Error::Io(IoError::Custom { kind, message }))
                &&& kind is BrokenPipe
                &&& message@ == "named pipe accept thread disconnected"@
            },
        },
{
}

/// Closing a listener leaves no thread behind that has finished, and joins none that has not: a
/// thread that still waits is sent a client, once.
pub proof fn law_closing_joins_only_what_has_finished(
    pending: bool,
    tried: bool,
    finished: bool,
    r: CancelStep,
)
    requires
        call_ensures(cancel_pending_accept, (pending, tried, finished), r),
    ensures
        r is Nothing <==> !pending,
        r is Join <==> pending && finished,
        r is ConnectAndWait <==> pending && !finished && !tried,
        r is Leave <==> pending && !finished && tried,
        r matches CancelStep::ConnectAndWait(nanos) ==> nanos == 50_000_000,
{
}

} // verus!
