//! A server's listener in tasks.

#[allow(unused_imports)]
use vstd::arithmetic::power2::is_pow2;
use vstd::prelude::*;

use crate::bootstrap::{Exchange, ServerStage, StageOutcome};
use crate::channel::{Channel, ChannelConfig, ChannelFile};
#[allow(unused_imports)]
use crate::channel::created;
use crate::error::{Error, IoError, IoErrorKind, IoFailure, Result};
#[allow(unused_imports)]
use crate::header::file_size;
#[allow(unused_imports)]
use crate::listener::{connection_name_text, name_frame, option_text, ListenerView};
use crate::listener::{Meeting, CONNECT_POLL_NANOS};
use crate::wait::RetryStep;

verus! {

/// Windows' number for a pipe all of whose instances have a client.
pub const ERROR_PIPE_BUSY: i32 = 231;

/// What is known of a listener whose clients are waited for in tasks.
pub struct TaskListenerView {
    pub listener: ListenerView,
    /// The stage of the exchange with a client that was taken and not yet answered.
    pub serving: Option<ServerStage>,
}

/// A listener whose clients are waited for in tasks.
///
/// It keeps a client that was taken until the exchange with it is over. A task that is dropped
/// while it accepts leaves that client to the next one, which goes on with the same stage.
pub struct ShmemListener {
    inner: crate::listener::ShmemListener,
    serving: Option<ServerStage>,
}

impl View for ShmemListener {
    type V = TaskListenerView;

    closed spec fn view(&self) -> TaskListenerView {
        TaskListenerView { listener: self.inner@, serving: self.serving }
    }
}

/// What the last action of accepting brought.
#[derive(Debug, Clone, Copy)]
pub enum AcceptEvent {
    /// A task begins to accept.
    Begin,
    /// What waiting for a client came to; nothing where the time was over first.
    Waited(Option<std::result::Result<(), IoError>>),
    /// What became of the stage.
    Stage(StageOutcome),
}

/// What to do next to accept a client.
#[derive(Debug)]
pub enum AcceptStep {
    /// Wait for a client.
    Wait,
    /// Go on with the client that was taken, at this stage of the exchange.
    Stage(ServerStage),
    /// There is a connection, or there will be none.
    Done(Result<()>),
}

/// Whether `event` answers the last action of accepting. A task may begin at any time: the
/// one before may have been dropped.
pub open spec fn accept_answers(serving: Option<ServerStage>, event: AcceptEvent) -> bool {
    match event {
        AcceptEvent::Begin => true,
        AcceptEvent::Waited(_) => serving is None,
        AcceptEvent::Stage(outcome) => serving matches Some(stage) && outcome.fits(
            stage == ServerStage::ReceiveAck,
        ),
    }
}

/// The client being served after a step of accepting, and what is to be done.
pub open spec fn accept_stepped(serving: Option<ServerStage>, event: AcceptEvent) -> (
    Option<ServerStage>,
    AcceptStep,
) {
    match event {
        AcceptEvent::Begin => (
            serving,
            match serving {
                None => AcceptStep::Wait,
                Some(stage) => AcceptStep::Stage(stage),
            },
        ),
        AcceptEvent::Waited(waited) => match connection_waited(waited) {
            Ok(()) => (Some(ServerStage::Identify), AcceptStep::Stage(ServerStage::Identify)),
            Err(e) => (serving, AcceptStep::Done(Err(e))),
        },
        AcceptEvent::Stage(outcome) => match serving->0.after(outcome) {
            Exchange::Next(next) => (Some(next), AcceptStep::Stage(next)),
            Exchange::Over(result) => (None, AcceptStep::Done(result)),
        },
    }
}

impl ShmemListener {
    /// The listener `name`, once its socket is bound.
    pub fn bind(
        name: &str,
        config: ChannelConfig,
        bound: std::result::Result<(), IoError>,
    ) -> (r: Result<Self>)
        ensures
            match bound {
                Ok(()) => r is Ok && r->Ok_0@ == (TaskListenerView {
                    listener: ListenerView { name: name@, config, counter: 0 },
                    serving: None,
                }),
                Err(e) => r == Err::<Self, Error>(Error::Io(e)),
            },
    {
        match crate::listener::ShmemListener::bind(name, config, bound) {
            Ok(inner) => Ok(ShmemListener { inner, serving: None }),
            Err(e) => Err(e),
        }
    }

    /// One step of accepting a client.
    pub fn accept(&mut self, event: AcceptEvent) -> (r: AcceptStep)
        requires
            accept_answers(old(self)@.serving, event),
        ensures
            final(self)@.listener == old(self)@.listener,
            (final(self)@.serving, r) == accept_stepped(old(self)@.serving, event),
    {
        match event {
            AcceptEvent::Begin => match self.serving {
                None => AcceptStep::Wait,
                Some(stage) => AcceptStep::Stage(stage),
            },
            AcceptEvent::Waited(waited) => match wait_for_connection(waited) {
                Ok(()) => {
                    self.serving = Some(ServerStage::Identify);
                    AcceptStep::Stage(ServerStage::Identify)
                },
                Err(e) => AcceptStep::Done(Err(e)),
            },
            AcceptEvent::Stage(outcome) => {
                let over = match self.serving {
                    None => Exchange::Over(Ok(())),
                    Some(stage) => stage.step(outcome),
                };
                match over {
                    Exchange::Next(next) => {
                        self.serving = Some(next);
                        AcceptStep::Stage(next)
                    },
                    Exchange::Over(result) => {
                        self.serving = None;
                        AcceptStep::Done(result)
                    },
                }
            },
        }
    }

    /// Sets a channel up for the next client.
    pub fn finish_accept(&mut self, pid: u64) -> (r: Result<(Channel, ChannelFile, Vec<u8>)>)
        requires
            old(self)@.listener.counter < u64::MAX,
            is_pow2(old(self)@.listener.config.ring_size as int) ==> file_size(
                old(self)@.listener.config.ring_size as int,
            ) <= usize::MAX,
        ensures
            final(self)@ == (TaskListenerView {
                listener: ListenerView {
                    counter: old(self)@.listener.counter + 1,
                    ..old(self)@.listener
                },
                ..old(self)@
            }),
            !is_pow2(old(self)@.listener.config.ring_size as int) ==> r == Err::<
                (Channel, ChannelFile, Vec<u8>),
                Error,
            >(
                Error::Io(
                    IoError::Custom {
                        kind: IoErrorKind::InvalidInput,
                        message: "ring_size must be a power of two",
                    },
                ),
            ),
            is_pow2(old(self)@.listener.config.ring_size as int) ==> {
                let before = old(self)@.listener;
                let name = connection_name_text(before.name, before.counter);
                &&& r is Ok
                &&& created(name, old(self)@.listener.config, pid, r->Ok_0.0, r->Ok_0.1)
                &&& r->Ok_0.2@ == name_frame(name)
            },
    {
        self.inner.handshake(pid)
    }

    /// The file that is to be removed when the listener is dropped.
    pub fn path(&self, meeting: Meeting) -> (r: Option<String>)
        ensures
            option_text(r) == meeting.leaves_text(self@.listener.name),
    {
        self.inner.path(meeting)
    }

    /// The file that is to be removed to clean up after the listener `name`.
    pub fn cleanup(name: &str, meeting: Meeting) -> (r: Option<String>)
        ensures
            option_text(r) == meeting.leaves_text(name@),
    {
        crate::listener::ShmemListener::cleanup(name, meeting)
    }
}

/// What waiting for a client comes to, with or without a time limit: nothing where the
/// time was over first.
pub open spec fn connection_waited(waited: Option<std::result::Result<(), IoError>>) -> Result<()> {
    match waited {
        None => Err(Error::TimedOut),
        Some(Ok(())) => Ok(()),
        Some(Err(e)) => Err(Error::Io(e)),
    }
}

/// What waiting for a client comes to, with or without a time limit: nothing where the
/// time was over first.
pub fn wait_for_connection(waited: Option<std::result::Result<(), IoError>>) -> (r: Result<()>)
    ensures
        r == connection_waited(waited),
{
    match waited {
        None => Err(Error::TimedOut),
        Some(Ok(())) => Ok(()),
        Some(Err(e)) => Err(Error::Io(e)),
    }
}

/// What has become of the clients of a listener.
pub struct AcceptRun {
    pub serving: Option<ServerStage>,
    /// How many clients were taken.
    pub taken: nat,
    /// With how many the exchange is over.
    pub answered: nat,
}

/// What has become of the clients after these events.
pub open spec fn accept_run(events: Seq<AcceptEvent>) -> AcceptRun
    decreases events.len(),
{
    if events.len() == 0 {
        AcceptRun { serving: None, taken: 0, answered: 0 }
    } else {
        let before = accept_run(events.drop_last());
        let (serving, step) = accept_stepped(before.serving, events.last());
        AcceptRun {
            serving,
            taken: before.taken + match events.last() {
                AcceptEvent::Waited(Some(Ok(_))) => 1nat,
                _ => 0nat,
            },
            answered: before.answered + (if events.last() is Stage && step is Done {
                1nat
            } else {
                0nat
            }),
        }
    }
}

/// Whether each of these events answers the action before it. Tasks may be dropped, and others
/// begin, at any point.
pub open spec fn accept_events(events: Seq<AcceptEvent>) -> bool
    decreases events.len(),
{
    events.len() > 0 ==> accept_events(events.drop_last()) && accept_answers(
        accept_run(events.drop_last()).serving,
        events.last(),
    )
}

/// No client that was taken is lost, wherever tasks that accept are dropped: the exchange with
/// it is over, or the listener still has it.
pub proof fn law_cancelled_accept_loses_no_client(events: Seq<AcceptEvent>)
    requires
        accept_events(events),
    ensures
        accept_run(events).taken == accept_run(events).answered + (if accept_run(
            events,
        ).serving is Some {
            1nat
        } else {
            0nat
        }),
    decreases events.len(),
{
    if events.len() > 0 {
        law_cancelled_accept_loses_no_client(events.drop_last());
    }
}

/// A task that begins to accept takes up a client that another has left, at the stage where
/// that one was dropped, and else waits for a client: the listener stays usable.
pub proof fn law_accept_goes_on_where_it_was_dropped(serving: Option<ServerStage>)
    ensures
        accept_stepped(serving, AcceptEvent::Begin).0 == serving,
        serving matches Some(stage) ==> accept_stepped(serving, AcceptEvent::Begin).1
            == AcceptStep::Stage(stage),
        serving is None ==> accept_stepped(serving, AcceptEvent::Begin).1 is Wait,
{
}

/// What follows a try to connect in a task: only a listener that is not there, or not
/// there yet, is tried again, until the deadline.
pub fn connect_step(
    outcome: std::result::Result<(), IoFailure>,
    now: u128,
    deadline: u128,
) -> (r: RetryStep)
    ensures
        r == match outcome {
            Ok(()) => RetryStep::Ready,
            Err(failure) => if now < deadline && (failure.kind == IoErrorKind::NotFound
                || failure.kind == IoErrorKind::ConnectionRefused) {
                RetryStep::Pause(CONNECT_POLL_NANOS)
            } else {
                RetryStep::Failed(Error::Io(failure.error))
            },
        },
{
    match outcome {
        Ok(()) => RetryStep::Ready,
        Err(failure) => {
            if now < deadline && (failure.kind == IoErrorKind::NotFound || failure.kind
                == IoErrorKind::ConnectionRefused) {
                RetryStep::Pause(CONNECT_POLL_NANOS)
            } else {
                RetryStep::Failed(Error::Io(failure.error))
            }
        },
    }
}

/// What follows a try to open a named pipe in a task: only a pipe that is not there, or
/// whose instances all have a client, is tried again, until the deadline.
pub fn connect_pipe_step(
    outcome: std::result::Result<(), IoFailure>,
    now: u128,
    deadline: u128,
) -> (r: RetryStep)
    ensures
        r == match outcome {
            Ok(()) => RetryStep::Ready,
            Err(failure) => if now < deadline && (failure.kind == IoErrorKind::NotFound
                || failure.error == IoError::Os(ERROR_PIPE_BUSY)) {
                RetryStep::Pause(CONNECT_POLL_NANOS)
            } else {
                RetryStep::Failed(Error::Io(failure.error))
            },
        },
{
    match outcome {
        Ok(()) => RetryStep::Ready,
        Err(failure) => {
            let busy = match failure.error {
                IoError::Os(code) => code == ERROR_PIPE_BUSY,
                _ => false,
            };
            if now < deadline && (failure.kind == IoErrorKind::NotFound || busy) {
                RetryStep::Pause(CONNECT_POLL_NANOS)
            } else {
                RetryStep::Failed(Error::Io(failure.error))
            }
        },
    }
}

/// Accepting in a task: a client that comes is taken and served from the first stage on; no client
/// in time is `TimedOut`, and a failure to wait for one is reported. Each stage that ends well
/// leads to the next, and the last one to a connection; one that fails ends the exchange with its
/// error, and the listener is free for the next client. The listener's name, configuration and
/// numbers are left alone.
pub proof fn law_accept_serves_one_client_after_another(event: AcceptEvent)
    ensures
        forall|s: &mut ShmemListener, r: AcceptStep|
            accept_answers((*s)@.serving, event) && #[trigger] call_ensures(
                ShmemListener::accept,
                (s, event),
                r,
            ) ==> {
                let before = (*s)@;
                let after = (*final(s))@;
                &&& after.listener == before.listener
                &&& event is Begin ==> after.serving == before.serving && match before.serving {
                    None => r is Wait,
                    Some(stage) => r == AcceptStep::Stage(stage),
                }
                &&& event matches AcceptEvent::Waited(waited) ==> match waited {
                    None => r == AcceptStep::Done(Err(Error::TimedOut)) && after.serving is None,
                    Some(Err(e)) => r == AcceptStep::Done(Err(Error::Io(e))) && after.serving
                        is None,
                    Some(Ok(_)) => r == AcceptStep::Stage(ServerStage::Identify) && after.serving
                        == Some(ServerStage::Identify),
                }
                &&& event matches AcceptEvent::Stage(outcome) ==> match before.serving->0.after(
                    outcome,
                ) {
                    Exchange::Next(next) => r == AcceptStep::Stage(next) && after.serving == Some(
                        next,
                    ),
                    Exchange::Over(result) => r == AcceptStep::Done(result) && after.serving
                        is None,
                }
            },
        forall|s: &mut ShmemListener| accept_answers((*s)@.serving, event) ==> #[trigger]
            call_requires(ShmemListener::accept, (s, event)),
        forall|s: &mut ShmemListener| #[trigger]
            call_requires(ShmemListener::accept, (s, AcceptEvent::Begin)),
{
}

/// The channel of a client, and the names, are those of a listener that blocks.
pub proof fn law_task_listener_is_a_listener(
    pid: u64,
    name: &str,
    config: ChannelConfig,
    bound: std::result::Result<(), IoError>,
    made: Result<ShmemListener>,
)
    requires
        call_ensures(ShmemListener::bind, (name, config, bound), made),
    ensures
        made is Ok <==> bound is Ok,
        bound matches Err(e) ==> made matches Err(told) && told == Error::Io(e),
        made matches Ok(listener) ==> {
            &&& listener@.serving is None
            &&& listener@.listener.name == name@
            &&& listener@.listener.config == config
            &&& listener@.listener.counter == 0
        },
        forall|s: &mut ShmemListener, r: Result<(Channel, ChannelFile, Vec<u8>)>|
            (*s)@.listener.counter < u64::MAX && (is_pow2(
                (*s)@.listener.config.ring_size as int,
            ) ==> 512 + 2 * (*s)@.listener.config.ring_size <= usize::MAX)
                && #[trigger] call_ensures(ShmemListener::finish_accept, (s, pid), r) ==> {
                let before = (*s)@.listener;
                let channel_name = before.name + ".conn."@ + crate::text::decimal(before.counter);
                &&& (*final(s))@.listener.counter == before.counter + 1
                &&& (*final(s))@.listener.name == before.name
                &&& (*final(s))@.listener.config == before.config
                &&& (*final(s))@.serving == (*s)@.serving
                &&& r is Ok <==> is_pow2(before.config.ring_size as int)
                &&& r matches Ok((channel, file, frame)) ==> {
                    &&& channel@.role is Server
                    &&& channel@.name == channel_name
                    &&& channel@.wait == before.config.wait_strategy
                    &&& crate::channel::starts_fresh(channel@, before.config.ring_size as int)
                    &&& file.file_name@ == "shmem_ipc_"@ + channel_name
                    &&& file.global.state == 1
                    &&& file.global.server_pid == pid
                    &&& frame@ == name_frame(channel_name)
                }
            },
{
}

/// In a task a client tries again every ten milliseconds, until its time is over, but only where
/// that can help: where the listener is not there yet, or its pipe has no instance free. Any other
/// failure, and the last one, is reported.
pub proof fn law_task_tries_where_it_can_help(
    outcome: std::result::Result<(), IoFailure>,
    now: u128,
    deadline: u128,
    connected: RetryStep,
    piped: RetryStep,
    waited: Option<std::result::Result<(), IoError>>,
    r: Result<()>,
)
    requires
        call_ensures(connect_step, (outcome, now, deadline), connected),
        call_ensures(connect_pipe_step, (outcome, now, deadline), piped),
        call_ensures(wait_for_connection, (waited,), r),
    ensures
        connected is Ready <==> outcome is Ok,
        piped is Ready <==> outcome is Ok,
        outcome matches Err(failure) ==> {
            let busy = failure.error matches IoError::Os(code) && code == 231;
            let later = failure.kind is NotFound || failure.kind is ConnectionRefused;
            &&& connected is Pause <==> now < deadline && later
            &&& connected is Failed ==> connected == RetryStep::Failed(Error::Io(failure.error))
            &&& piped is Pause <==> now < deadline && (failure.kind is NotFound || busy)
            &&& piped is Failed ==> piped == RetryStep::Failed(Error::Io(failure.error))
        },
        connected matches RetryStep::Pause(nanos) ==> nanos == 10_000_000,
        piped matches RetryStep::Pause(nanos) ==> nanos == 10_000_000,
        r is Ok <==> (waited matches Some(Ok(_))),
        waited is None ==> r == Err::<(), Error>(Error::TimedOut),
        waited matches Some(Err(e)) ==> r == Err::<(), Error>(Error::Io(e)),
{
}

} // verus!
