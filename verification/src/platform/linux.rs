//! What Linux answers about a peer's process.
//!
//! The peer is found by the credentials of the socket, held by a pidfd and watched by
//! polling that together with an eventfd that calls the watch off.

use vstd::prelude::*;

use crate::error::{Error, IoError, IoErrorKind, IoFailure, Result};
use crate::platform::peer::PeerWait;

verus! {

/// Linux's number for "no such process".
pub const ESRCH: i32 = 3;

/// Linux's number for an input or output error.
pub const EIO: i32 = 5;

/// Linux's number for a bad file descriptor.
pub const EBADF: i32 = 9;

/// What a poll says of one descriptor.
#[derive(Debug, Clone, Copy, PartialEq, Eq, Structural)]
pub struct PollFlags {
    /// `POLLIN`.
    pub readable: bool,
    /// `POLLHUP`.
    pub hung_up: bool,
    /// `POLLERR`.
    pub error: bool,
    /// `POLLNVAL`.
    pub invalid: bool,
}

/// The credentials of a socket's peer, as the kernel filled them in.
#[derive(Debug, Clone, Copy, PartialEq, Eq, Structural)]
pub struct PeerCredentials {
    /// How many bytes were filled in.
    pub len: usize,
    pub pid: i32,
}

/// What the last action of finding the peer brought.
#[derive(Debug, Clone, Copy)]
pub enum SocketEvent {
    /// The credentials of the socket's peer.
    Credentials(std::result::Result<PeerCredentials, IoError>),
    /// Whether the pidfd could be opened.
    Opened(std::result::Result<(), IoError>),
}

/// What to do next to find the peer.
#[derive(Debug, Clone, Copy)]
pub enum SocketStep {
    /// Open a pidfd for this process.
    Open { pid: i32 },
    /// The peer is held, or cannot be.
    Done(Result<()>),
}

/// A hold on a process that stays valid when its number is used again.
pub struct PeerProcess;

impl PeerProcess {
    /// What finding the peer comes to.
    pub open spec fn found(event: SocketEvent, credentials_len: usize) -> SocketStep {
        match event {
            SocketEvent::Credentials(Err(e)) => SocketStep::Done(Err(Error::Io(e))),
            SocketEvent::Credentials(Ok(credentials)) => if credentials.len != credentials_len {
                SocketStep::Done(
                    Err(
                        Error::Io(
                            IoError::Custom {
                                kind: IoErrorKind::InvalidData,
                                message: "invalid peer credentials",
                            },
                        ),
                    ),
                )
            } else if credentials.pid <= 0 {
                SocketStep::Done(
                    Err(
                        Error::Io(
                            IoError::Custom {
                                kind: IoErrorKind::InvalidData,
                                message: "peer PID unavailable",
                            },
                        ),
                    ),
                )
            } else {
                SocketStep::Open { pid: credentials.pid }
            },
            SocketEvent::Opened(Ok(())) => SocketStep::Done(Ok(())),
            SocketEvent::Opened(Err(e)) => SocketStep::Done(
                Err(
                    if e == IoError::Os(ESRCH) {
                        Error::PeerDisconnected
                    } else {
                        Error::Io(e)
                    },
                ),
            ),
        }
    }

    /// One step of finding the peer of a socket; complete credentials are
    /// `credentials_len` bytes long. Only a process that is not there counts as a peer
    /// that is gone: whatever else fails is a failure to set the connection up.
    pub fn from_socket(event: SocketEvent, credentials_len: usize) -> (r: SocketStep)
        ensures
            r == Self::found(event, credentials_len),
    {
        match event {
            SocketEvent::Credentials(Err(e)) => SocketStep::Done(Err(Error::Io(e))),
            SocketEvent::Credentials(Ok(credentials)) => {
                if credentials.len != credentials_len {
                    SocketStep::Done(
                        Err(
                            Error::Io(
                                IoError::Custom {
                                    kind: IoErrorKind::InvalidData,
                                    message: "invalid peer credentials",
                                },
                            ),
                        ),
                    )
                } else if credentials.pid <= 0 {
                    SocketStep::Done(
                        Err(
                            Error::Io(
                                IoError::Custom {
                                    kind: IoErrorKind::InvalidData,
                                    message: "peer PID unavailable",
                                },
                            ),
                        ),
                    )
                } else {
                    SocketStep::Open { pid: credentials.pid }
                }
            },
            SocketEvent::Opened(Ok(())) => SocketStep::Done(Ok(())),
            SocketEvent::Opened(Err(e)) => {
                let gone = match e {
                    IoError::Os(code) => code == ESRCH,
                    _ => false,
                };
                SocketStep::Done(Err(if gone { Error::PeerDisconnected } else { Error::Io(e) }))
            },
        }
    }

    /// What one poll of the pidfd, without waiting, says of the process. A poll that a
    /// signal interrupted says nothing and is to be made again.
    pub open spec fn readiness(polled: std::result::Result<PollFlags, IoFailure>) -> Option<
        Result<()>,
    > {
        match polled {
            Err(failure) => if failure.kind == IoErrorKind::Interrupted {
                None
            } else {
                Some(Err(Error::Io(failure.error)))
            },
            Ok(flags) => Some(
                if flags.invalid {
                    Err(Error::Io(IoError::Os(EBADF)))
                } else if flags.error {
                    Err(Error::Io(IoError::Os(EIO)))
                } else if flags.readable || flags.hung_up {
                    Err(Error::PeerDisconnected)
                } else {
                    Ok(())
                },
            ),
        }
    }

    /// Whether the process can be watched, by one poll of the pidfd without waiting;
    /// nothing where the poll is to be made again.
    pub fn check_ready(polled: std::result::Result<PollFlags, IoFailure>) -> (r: Option<Result<()>>)
        ensures
            r == Self::readiness(polled),
    {
        match polled {
            Err(failure) => {
                if failure.kind == IoErrorKind::Interrupted {
                    None
                } else {
                    Some(Err(Error::Io(failure.error)))
                }
            },
            Ok(flags) => {
                if flags.invalid {
                    Some(Err(Error::Io(IoError::Os(EBADF))))
                } else if flags.error {
                    Some(Err(Error::Io(IoError::Os(EIO))))
                } else if flags.readable || flags.hung_up {
                    Some(Err(Error::PeerDisconnected))
                } else {
                    Some(Ok(()))
                }
            },
        }
    }

    /// What one poll of the eventfd and the pidfd says of the watch. A fault of either
    /// comes first, then being called off, then the exit; nothing where the poll is to
    /// be made again.
    pub open spec fn watched(
        polled: std::result::Result<(PollFlags, PollFlags), IoFailure>,
    ) -> Option<std::result::Result<PeerWait, IoError>> {
        match polled {
            Err(failure) => if failure.kind == IoErrorKind::Interrupted {
                None
            } else {
                Some(Err(failure.error))
            },
            Ok((cancel, process)) => if cancel.invalid || process.invalid {
                Some(Err(IoError::Os(EBADF)))
            } else if cancel.error || process.error {
                Some(Err(IoError::Os(EIO)))
            } else if cancel.readable {
                Some(Ok(PeerWait::Cancelled))
            } else if process.readable || process.hung_up {
                Some(Ok(PeerWait::Exited))
            } else {
                None
            },
        }
    }

    /// How the watch ends, by one poll of the eventfd and the pidfd; nothing where the
    /// poll is to be made again.
    pub fn wait(polled: std::result::Result<(PollFlags, PollFlags), IoFailure>) -> (r: Option<
        std::result::Result<PeerWait, IoError>,
    >)
        ensures
            r == Self::watched(polled),
    {
        match polled {
            Err(failure) => {
                if failure.kind == IoErrorKind::Interrupted {
                    None
                } else {
                    Some(Err(failure.error))
                }
            },
            Ok((cancel, process)) => {
                if cancel.invalid || process.invalid {
                    Some(Err(IoError::Os(EBADF)))
                } else if cancel.error || process.error {
                    Some(Err(IoError::Os(EIO)))
                } else if cancel.readable {
                    Some(Ok(PeerWait::Cancelled))
                } else if process.readable || process.hung_up {
                    Some(Ok(PeerWait::Exited))
                } else {
                    None
                }
            },
        }
    }
}

/// What calls a watch off.
pub struct PeerCancellation;

impl PeerCancellation {
    /// What a write to the eventfd comes to; nothing where it is to be made again. A
    /// counter that is full has been written before.
    pub fn cancel(written: std::result::Result<(), IoFailure>) -> (r: Option<
        std::result::Result<(), IoError>,
    >)
        ensures
            r == match written {
                Ok(()) => Some(Ok::<(), IoError>(())),
                Err(failure) => if failure.kind == IoErrorKind::Interrupted {
                    None
                } else if failure.kind == IoErrorKind::WouldBlock {
                    Some(Ok(()))
                } else {
                    Some(Err(failure.error))
                },
            },
    {
        match written {
            Ok(()) => Some(Ok(())),
            Err(failure) => {
                if failure.kind == IoErrorKind::Interrupted {
                    None
                } else if failure.kind == IoErrorKind::WouldBlock {
                    Some(Ok(()))
                } else {
                    Some(Err(failure.error))
                }
            },
        }
    }
}

/// A process that has exited is found so however late it is looked at: the probe before
/// the watch reports it, and so does the watch itself, unless it was called off.
pub proof fn law_exit_is_not_missed(cancel: PollFlags, process: PollFlags)
    requires
        process.readable || process.hung_up,
        !process.invalid && !process.error && !cancel.invalid && !cancel.error,
    ensures
        PeerProcess::readiness(Ok(process)) == Some(Err::<(), Error>(Error::PeerDisconnected)),
        PeerProcess::watched(Ok((cancel, process))) == Some(
            Ok::<PeerWait, IoError>(
                if cancel.readable {
                    PeerWait::Cancelled
                } else {
                    PeerWait::Exited
                },
            ),
        ),
{
}

/// Only the kernel's word that the process is gone counts as its death: a failure of any
/// call or descriptor keeps its own error.
pub proof fn law_failure_is_not_death(
    event: SocketEvent,
    credentials_len: usize,
    probed: std::result::Result<PollFlags, IoFailure>,
    polled: std::result::Result<(PollFlags, PollFlags), IoFailure>,
)
    ensures
        PeerProcess::found(event, credentials_len) == SocketStep::Done(Err(Error::PeerDisconnected))
            ==> event == SocketEvent::Opened(Err(IoError::Os(ESRCH))),
        PeerProcess::readiness(probed) == Some(Err::<(), Error>(Error::PeerDisconnected)) ==> {
            &&& probed matches Ok(flags)
            &&& (flags.readable || flags.hung_up)
        },
        PeerProcess::watched(polled) == Some(Ok::<PeerWait, IoError>(PeerWait::Exited)) ==> {
            &&& polled matches Ok(flags)
            &&& (flags.1.readable || flags.1.hung_up)
        },
{
}

/// The peer of a socket is found by complete credentials that name a process, and by no others, and
/// is held by a pidfd. Only that the process is not there says that it is gone.
pub proof fn law_peer_is_found_by_its_credentials(
    credentials: std::result::Result<PeerCredentials, IoError>,
    opened: std::result::Result<(), IoError>,
    whole: usize,
    first: SocketStep,
    second: SocketStep,
)
    requires
        call_ensures(
            PeerProcess::from_socket,
            (SocketEvent::Credentials(credentials), whole),
            first,
        ),
        call_ensures(PeerProcess::from_socket, (SocketEvent::Opened(opened), whole), second),
    ensures
        match credentials {
            Ok(given) => if given.len == whole && given.pid > 0 {
                first == (SocketStep::Open { pid: given.pid })
            } else {
                &&& first matches SocketStep::Done(Err(Error::Io(e)))
                &&& e matches IoError::Custom { kind, message }
                &&& kind is InvalidData
                &&& message@ == (if given.len != whole {
                    "invalid peer credentials"@
                } else {
                    "peer PID unavailable"@
                })
            },
            Err(e) => first == SocketStep::Done(Err(Error::Io(e))),
        },
        match opened {
            Ok(_) => second matches SocketStep::Done(Ok(_)),
            Err(e) => if e matches IoError::Os(code) && code == 3 {
                second == SocketStep::Done(Err(Error::PeerDisconnected))
            } else {
                second == SocketStep::Done(Err(Error::Io(e)))
            },
        },
{
}

/// What polling says: a process of which the kernel reports nothing is alive and watched on; one
/// that is reported has exited, unless the watch was called off. A fault of a descriptor comes
/// first and is an error of its own, and a poll that a signal interrupted is made again.
pub proof fn law_polls_say_who_is_alive(
    probed: std::result::Result<PollFlags, IoFailure>,
    ready: Option<Result<()>>,
    polled: std::result::Result<(PollFlags, PollFlags), IoFailure>,
    waited: Option<std::result::Result<PeerWait, IoError>>,
    written: std::result::Result<(), IoFailure>,
    cancelled: Option<std::result::Result<(), IoError>>,
)
    requires
        call_ensures(PeerProcess::check_ready, (probed,), ready),
        call_ensures(PeerProcess::wait, (polled,), waited),
        call_ensures(PeerCancellation::cancel, (written,), cancelled),
    ensures
        match probed {
            Err(failure) => if failure.kind is Interrupted {
                ready is None
            } else {
                ready == Some(Err::<(), Error>(Error::Io(failure.error)))
            },
            Ok(flags) => {
                let fault = flags.invalid || flags.error;
                let gone = flags.readable || flags.hung_up;
                &&& ready is Some
                &&& ready->0 is Ok <==> !fault && !gone
                &&& !fault && gone ==> ready->0 == Err::<(), Error>(Error::PeerDisconnected)
                &&& fault ==> ready->0 == Err::<(), Error>(
                    Error::Io(
                        IoError::Os(
                            if flags.invalid {
                                9
                            } else {
                                5
                            },
                        ),
                    ),
                )
            },
        },
        match polled {
            Err(failure) => if failure.kind is Interrupted {
                waited is None
            } else {
                waited == Some(Err::<PeerWait, IoError>(failure.error))
            },
            Ok((cancel, process)) => {
                let invalid = cancel.invalid || process.invalid;
                let fault = invalid || cancel.error || process.error;
                let gone = process.readable || process.hung_up;
                &&& fault ==> waited == Some(
                    Err::<PeerWait, IoError>(
                        IoError::Os(
                            if invalid {
                                9
                            } else {
                                5
                            },
                        ),
                    ),
                )
                &&& !fault && cancel.readable ==> waited == Some(
                    Ok::<PeerWait, IoError>(PeerWait::Cancelled),
                )
                &&& !fault && !cancel.readable && gone ==> waited == Some(
                    Ok::<PeerWait, IoError>(PeerWait::Exited),
                )
                &&& !fault && !cancel.readable && !gone ==> waited is None
            },
        },
        match written {
            Ok(_) => cancelled matches Some(Ok(_)),
            Err(failure) => {
                &&& cancelled is None <==> failure.kind is Interrupted
                &&& failure.kind is WouldBlock ==> cancelled is Some && cancelled->0 is Ok
                &&& failure.kind !is Interrupted && failure.kind !is WouldBlock ==> cancelled
                    == Some(Err::<(), IoError>(failure.error))
            },
        },
{
}

} // verus!
