//! The exchange that makes a connection out of a client on a socket.
//!
//! Both ends take hold of the other process and watch it before they tell each other
//! that they are ready: the server names the channel, the client acknowledges that it
//! has attached, and the server acknowledges that. Neither end hands the connection out
//! before its last stage is done.

use vstd::prelude::*;

use crate::error::{Error, IoError, IoErrorKind, IoFailure, Result};

verus! {

/// The byte by which an end says that it is ready.
pub const ACK: u8 = 1;

/// What the server has to do next.
#[derive(Debug, Clone, Copy, PartialEq, Eq, Structural)]
pub enum ServerStage {
    /// Take hold of the client's process, by the socket.
    Identify,
    /// Create the channel.
    Create,
    /// Start watching the process.
    Watch,
    /// Send the frame with the channel's name.
    SendName,
    /// Receive one byte.
    ReceiveAck,
    /// Send the byte `ACK`.
    SendAck,
}

/// What the client has to do next.
#[derive(Debug, Clone, Copy, PartialEq, Eq, Structural)]
pub enum ClientStage {
    /// Take hold of the server's process, by the socket.
    Identify,
    /// Receive the frame with the channel's name.
    ReceiveName,
    /// Open the channel.
    Open,
    /// Start watching the process.
    Watch,
    /// Send the byte `ACK`.
    SendAck,
    /// Receive one byte.
    ReceiveAck,
}

/// What became of a stage.
#[derive(Debug, Clone, Copy)]
pub enum StageOutcome {
    /// It is done; nothing was received.
    Done,
    /// It is done; this byte was received.
    Byte(u8),
    /// The socket failed.
    Broken(IoFailure),
    /// Something else failed.
    Failed(Error),
}

/// What follows a stage.
#[derive(Debug)]
pub enum Exchange<Stage> {
    Next(Stage),
    Over(Result<()>),
}

/// What a failure of the socket means: a peer that hung up is gone.
pub open spec fn socket_error(failure: IoFailure) -> Error {
    match failure.kind {
        IoErrorKind::UnexpectedEof | IoErrorKind::BrokenPipe
        | IoErrorKind::ConnectionReset => Error::PeerDisconnected,
        _ => Error::Io(failure.error),
    }
}

/// The error of an end that was sent anything but `ACK`.
pub open spec fn bad_ack() -> Error {
    Error::Io(
        IoError::Custom {
            kind: IoErrorKind::InvalidData,
            message: "invalid bootstrap acknowledgement",
        },
    )
}

impl StageOutcome {
    /// Whether a stage that receives a byte, or one that does not, can end so.
    pub open spec fn fits(self, receives: bool) -> bool {
        match self {
            StageOutcome::Done => !receives,
            StageOutcome::Byte(_) => receives,
            _ => true,
        }
    }

    /// What the stage comes to.
    pub open spec fn result(self) -> Result<()> {
        match self {
            StageOutcome::Done => Ok(()),
            StageOutcome::Byte(byte) => if byte == ACK {
                Ok(())
            } else {
                Err(bad_ack())
            },
            StageOutcome::Broken(failure) => Err(socket_error(failure)),
            StageOutcome::Failed(e) => Err(e),
        }
    }

    /// What the stage comes to.
    pub fn check(&self) -> (r: Result<()>)
        ensures
            r == self.result(),
    {
        match *self {
            StageOutcome::Done => Ok(()),
            StageOutcome::Byte(byte) => if byte == ACK {
                Ok(())
            } else {
                Err(
                    Error::Io(
                        IoError::Custom {
                            kind: IoErrorKind::InvalidData,
                            message: "invalid bootstrap acknowledgement",
                        },
                    ),
                )
            },
            StageOutcome::Broken(failure) => match failure.kind {
                IoErrorKind::UnexpectedEof | IoErrorKind::BrokenPipe
                | IoErrorKind::ConnectionReset => Err(Error::PeerDisconnected),
                _ => Err(Error::Io(failure.error)),
            },
            StageOutcome::Failed(e) => Err(e),
        }
    }
}

impl ServerStage {
    /// The stage after this one.
    pub open spec fn successor(self) -> Option<ServerStage> {
        match self {
            ServerStage::Identify => Some(ServerStage::Create),
            ServerStage::Create => Some(ServerStage::Watch),
            ServerStage::Watch => Some(ServerStage::SendName),
            ServerStage::SendName => Some(ServerStage::ReceiveAck),
            ServerStage::ReceiveAck => Some(ServerStage::SendAck),
            ServerStage::SendAck => None,
        }
    }

    /// What follows this stage.
    pub open spec fn after(self, outcome: StageOutcome) -> Exchange<ServerStage> {
        match (outcome.result(), self.successor()) {
            (Err(e), _) => Exchange::Over(Err(e)),
            (Ok(()), Some(next)) => Exchange::Next(next),
            (Ok(()), None) => Exchange::Over(Ok(())),
        }
    }

    /// What follows this stage.
    pub fn step(self, outcome: StageOutcome) -> (r: Exchange<ServerStage>)
        requires
            outcome.fits(self == ServerStage::ReceiveAck),
        ensures
            r == self.after(outcome),
    {
        match outcome.check() {
            Err(e) => Exchange::Over(Err(e)),
            Ok(()) => match self {
                ServerStage::Identify => Exchange::Next(ServerStage::Create),
                ServerStage::Create => Exchange::Next(ServerStage::Watch),
                ServerStage::Watch => Exchange::Next(ServerStage::SendName),
                ServerStage::SendName => Exchange::Next(ServerStage::ReceiveAck),
                ServerStage::ReceiveAck => Exchange::Next(ServerStage::SendAck),
                ServerStage::SendAck => Exchange::Over(Ok(())),
            },
        }
    }
}

impl ClientStage {
    /// The stage after this one.
    pub open spec fn successor(self) -> Option<ClientStage> {
        match self {
            ClientStage::Identify => Some(ClientStage::ReceiveName),
            ClientStage::ReceiveName => Some(ClientStage::Open),
            ClientStage::Open => Some(ClientStage::Watch),
            ClientStage::Watch => Some(ClientStage::SendAck),
            ClientStage::SendAck => Some(ClientStage::ReceiveAck),
            ClientStage::ReceiveAck => None,
        }
    }

    /// What follows this stage.
    pub open spec fn after(self, outcome: StageOutcome) -> Exchange<ClientStage> {
        match (outcome.result(), self.successor()) {
            (Err(e), _) => Exchange::Over(Err(e)),
            (Ok(()), Some(next)) => Exchange::Next(next),
            (Ok(()), None) => Exchange::Over(Ok(())),
        }
    }

    /// What follows this stage.
    pub fn step(self, outcome: StageOutcome) -> (r: Exchange<ClientStage>)
        requires
            outcome.fits(self == ClientStage::ReceiveAck),
        ensures
            r == self.after(outcome),
    {
        match outcome.check() {
            Err(e) => Exchange::Over(Err(e)),
            Ok(()) => match self {
                ClientStage::Identify => Exchange::Next(ClientStage::ReceiveName),
                ClientStage::ReceiveName => Exchange::Next(ClientStage::Open),
                ClientStage::Open => Exchange::Next(ClientStage::Watch),
                ClientStage::Watch => Exchange::Next(ClientStage::SendAck),
                ClientStage::SendAck => Exchange::Next(ClientStage::ReceiveAck),
                ClientStage::ReceiveAck => Exchange::Over(Ok(())),
            },
        }
    }
}

/// The two ends of an exchange under way, and what has happened between them.
pub struct ExchangeWorld {
    pub server: Exchange<ServerStage>,
    pub client: Exchange<ClientStage>,
    /// The server watches the client.
    pub server_watches: bool,
    /// The client watches the server.
    pub client_watches: bool,
    /// The channel's name was sent.
    pub named: bool,
    /// The client's acknowledgement was sent.
    pub client_acked: bool,
    /// The server's acknowledgement was sent.
    pub server_acked: bool,
}

impl ExchangeWorld {
    /// Both ends are about to begin.
    pub open spec fn start() -> Self {
        ExchangeWorld {
            server: Exchange::Next(ServerStage::Identify),
            client: Exchange::Next(ClientStage::Identify),
            server_watches: false,
            client_watches: false,
            named: false,
            client_acked: false,
            server_acked: false,
        }
    }

    /// The server sends: its bytes are on their way before it knows what became of
    /// sending them.
    pub open spec fn server_sends(self, after: Self) -> bool {
        ||| self.server == Exchange::Next(ServerStage::SendName) && after == (ExchangeWorld {
            named: true,
            ..self
        })
        ||| self.server == Exchange::Next(ServerStage::SendAck) && after == (ExchangeWorld {
            server_acked: true,
            ..self
        })
    }

    /// The client sends.
    pub open spec fn client_sends(self, after: Self) -> bool {
        self.client == Exchange::Next(ClientStage::SendAck) && after == (ExchangeWorld {
            client_acked: true,
            ..self
        })
    }

    /// A stage of the server ends. It receives only what was sent, and knows that
    /// sending is done only once it is.
    pub open spec fn server_moves(self, outcome: StageOutcome, after: Self) -> bool {
        self.server matches Exchange::Next(stage) && {
            &&& outcome.fits(stage == ServerStage::ReceiveAck)
            &&& outcome is Byte ==> self.client_acked
            &&& outcome is Done && stage == ServerStage::SendName ==> self.named
            &&& outcome is Done && stage == ServerStage::SendAck ==> self.server_acked
            &&& after == (ExchangeWorld {
                server: stage.after(outcome),
                server_watches: self.server_watches || outcome is Done && stage
                    == ServerStage::Watch,
                ..self
            })
        }
    }

    /// A stage of the client ends.
    pub open spec fn client_moves(self, outcome: StageOutcome, after: Self) -> bool {
        self.client matches Exchange::Next(stage) && {
            &&& outcome.fits(stage == ClientStage::ReceiveAck)
            &&& outcome is Byte ==> self.server_acked
            &&& outcome is Done && stage == ClientStage::ReceiveName ==> self.named
            &&& outcome is Done && stage == ClientStage::SendAck ==> self.client_acked
            &&& after == (ExchangeWorld {
                client: stage.after(outcome),
                client_watches: self.client_watches || outcome is Done && stage
                    == ClientStage::Watch,
                ..self
            })
        }
    }

    /// Something happens.
    pub open spec fn steps(self, after: Self) -> bool {
        ||| self.server_sends(after)
        ||| self.client_sends(after)
        ||| exists|outcome: StageOutcome| #[trigger] self.server_moves(outcome, after)
        ||| exists|outcome: StageOutcome| #[trigger] self.client_moves(outcome, after)
    }

    /// What holds all through an exchange.
    spec fn ordered(self) -> bool {
        let server = self.server;
        let client = self.client;
        &&& server == Exchange::Next(ServerStage::SendName) || server == Exchange::Next(
            ServerStage::ReceiveAck,
        ) || server == Exchange::Next(ServerStage::SendAck) || server == Exchange::<
            ServerStage,
        >::Over(Ok(())) || self.named ==> self.server_watches
        &&& client == Exchange::Next(ClientStage::SendAck) || client == Exchange::Next(
            ClientStage::ReceiveAck,
        ) || client == Exchange::<ClientStage>::Over(Ok(())) || self.client_acked ==> self.named
            && self.client_watches
        &&& client == Exchange::Next(ClientStage::Open) || client == Exchange::Next(
            ClientStage::Watch,
        ) ==> self.named
        &&& server == Exchange::Next(ServerStage::SendAck) || server == Exchange::<
            ServerStage,
        >::Over(Ok(())) || self.server_acked ==> self.client_acked
        &&& client == Exchange::<ClientStage>::Over(Ok(())) ==> self.server_acked
    }
}

/// The worlds that an exchange goes through.
pub open spec fn exchange_run(worlds: Seq<ExchangeWorld>) -> bool {
    &&& worlds.len() > 0
    &&& worlds[0] == ExchangeWorld::start()
    &&& forall|i: int, j: int|
        0 <= i && j == i + 1 && j < worlds.len() ==> (#[trigger] worlds[i]).steps(
            #[trigger] worlds[j],
        )
}

/// In every exchange, whatever fails and in whatever order the ends move: whoever has a
/// connection, both ends watch each other, the channel was named and the client has
/// acknowledged; and a client has a connection only once the server has acknowledged
/// that.
pub proof fn law_connections_come_in_order(worlds: Seq<ExchangeWorld>)
    requires
        exchange_run(worlds),
    ensures
        ({
            let world = worlds.last();
            let client_connected = world.client == Exchange::<ClientStage>::Over(Ok(()));
            let server_connected = world.server == Exchange::<ServerStage>::Over(Ok(()));
            &&& client_connected || server_connected ==> world.server_watches
                && world.client_watches && world.named && world.client_acked
            &&& client_connected ==> world.server_acked
        }),
{
    lemma_exchange_is_ordered(worlds);
}

proof fn lemma_exchange_is_ordered(worlds: Seq<ExchangeWorld>)
    requires
        exchange_run(worlds),
    ensures
        worlds.last().ordered(),
    decreases worlds.len(),
{
    if worlds.len() > 1 {
        let before = worlds.drop_last();
        assert(exchange_run(before)) by {
            assert forall|i: int, j: int|
                0 <= i && j == i + 1 && j < before.len() implies (#[trigger] before[i]).steps(
                #[trigger] before[j],
            ) by {
                assert(worlds[i].steps(worlds[j]));
            }
        }
        lemma_exchange_is_ordered(before);
        let n = worlds.len() - 1;
        assert(worlds[n - 1].steps(worlds[n]));
    }
}

/// Where a server stands after the outcomes of its stages.
pub open spec fn server_run(stage: ServerStage, outcomes: Seq<StageOutcome>) -> Exchange<
    ServerStage,
>
    decreases outcomes.len(),
{
    if outcomes.len() == 0 {
        Exchange::Next(stage)
    } else {
        match stage.after(outcomes[0]) {
            Exchange::Next(next) => server_run(next, outcomes.skip(1)),
            over => over,
        }
    }
}

/// Where a client stands after the outcomes of its stages.
pub open spec fn client_run(stage: ClientStage, outcomes: Seq<StageOutcome>) -> Exchange<
    ClientStage,
>
    decreases outcomes.len(),
{
    if outcomes.len() == 0 {
        Exchange::Next(stage)
    } else {
        match stage.after(outcomes[0]) {
            Exchange::Next(next) => client_run(next, outcomes.skip(1)),
            over => over,
        }
    }
}

/// An end has its connection after six stages that all went well, and not before.
pub proof fn law_connection_takes_the_whole_exchange(outcomes: Seq<StageOutcome>)
    requires
        outcomes.len() <= 6,
    ensures
        server_run(ServerStage::Identify, outcomes) == Exchange::<ServerStage>::Over(Ok(()))
            <==> outcomes.len() == 6 && forall|i: int|
            0 <= i < 6 ==> (#[trigger] outcomes[i]).result() is Ok,
        client_run(ClientStage::Identify, outcomes) == Exchange::<ClientStage>::Over(Ok(()))
            <==> outcomes.len() == 6 && forall|i: int|
            0 <= i < 6 ==> (#[trigger] outcomes[i]).result() is Ok,
{
    reveal_with_fuel(server_run, 7);
    reveal_with_fuel(client_run, 7);
    let all = outcomes.len() == 6 && forall|i: int|
        0 <= i < 6 ==> (#[trigger] outcomes[i]).result() is Ok;
    if outcomes.len() == 6 && outcomes[0].result() is Ok && outcomes[1].result() is Ok
        && outcomes[2].result() is Ok && outcomes[3].result() is Ok && outcomes[4].result() is Ok
        && outcomes[5].result() is Ok {
        assert(all) by {
            assert forall|i: int| 0 <= i < 6 implies (#[trigger] outcomes[i]).result() is Ok by {
                assert(i == 0 || i == 1 || i == 2 || i == 3 || i == 4 || i == 5);
            }
        }
    }
}

/// Whatever stage fails, its error is what the end reports: a peer that hung up is
/// reported as gone.
pub proof fn law_failed_stage_ends_the_exchange(
    server: ServerStage,
    client: ClientStage,
    outcome: StageOutcome,
)
    requires
        outcome.result() is Err,
    ensures
        server.after(outcome) == Exchange::<ServerStage>::Over(outcome.result()),
        client.after(outcome) == Exchange::<ClientStage>::Over(outcome.result()),
        outcome matches StageOutcome::Broken(failure) && (failure.kind
            == IoErrorKind::UnexpectedEof || failure.kind == IoErrorKind::BrokenPipe
            || failure.kind == IoErrorKind::ConnectionReset) ==> outcome.result() == Err::<
            (),
            Error,
        >(Error::PeerDisconnected),
{
}

/// A stage ends well where it is done, and where the byte that it received is 1. Any other byte is
/// invalid data. A socket that was hung up says that the peer is gone, however it says it; any
/// other failure keeps its own error.
pub proof fn law_what_a_stage_comes_to(outcome: StageOutcome, r: Result<()>)
    requires
        call_ensures(StageOutcome::check, (&outcome,), r),
    ensures
        r is Ok <==> (outcome is Done || outcome == StageOutcome::Byte(1)),
        outcome matches StageOutcome::Byte(byte) && byte != 1 ==> {
            &&& r matches Err(Error::Io(IoError::Custom { kind, message }))
            &&& kind is InvalidData
            &&& message@ == "invalid bootstrap acknowledgement"@
        },
        outcome matches StageOutcome::Broken(failure) ==> if failure.kind is UnexpectedEof
            || failure.kind is BrokenPipe || failure.kind is ConnectionReset {
            r == Err::<(), Error>(Error::PeerDisconnected)
        } else {
            r == Err::<(), Error>(Error::Io(failure.error))
        },
        outcome matches StageOutcome::Failed(e) ==> r == Err::<(), Error>(e),
        r == outcome.result(),
{
}

/// The server takes hold of the client, creates the channel, watches the client, names the channel,
/// hears the client's acknowledgement and gives its own; the client takes hold of the server, hears
/// the name, opens the channel, watches the server, acknowledges and hears the server's
/// acknowledgement. Each goes from stage to stage in that order and has its connection after the
/// last; a stage that fails ends it at once with its error.
pub proof fn law_stages_go_in_order(
    server: ServerStage,
    client: ClientStage,
    outcome: StageOutcome,
    r: Exchange<ServerStage>,
    s: Exchange<ClientStage>,
)
    requires
        call_ensures(ServerStage::step, (server, outcome), r),
        call_ensures(ClientStage::step, (client, outcome), s),
        outcome.fits(server == ServerStage::ReceiveAck),
        outcome.fits(client == ClientStage::ReceiveAck),
    ensures
        ({
            let good = outcome is Done || outcome == StageOutcome::Byte(1);
            &&& !good ==> r is Over && r->Over_0 is Err && s is Over && s->Over_0 is Err
            &&& outcome matches StageOutcome::Failed(e) ==> r->Over_0 == Err::<(), Error>(e)
                && s->Over_0 == Err::<(), Error>(e)
            &&& good ==> match server {
                ServerStage::Identify => r == Exchange::Next(ServerStage::Create),
                ServerStage::Create => r == Exchange::Next(ServerStage::Watch),
                ServerStage::Watch => r == Exchange::Next(ServerStage::SendName),
                ServerStage::SendName => r == Exchange::Next(ServerStage::ReceiveAck),
                ServerStage::ReceiveAck => r == Exchange::Next(ServerStage::SendAck),
                ServerStage::SendAck => r matches Exchange::Over(Ok(_)),
            }
            &&& good ==> match client {
                ClientStage::Identify => s == Exchange::Next(ClientStage::ReceiveName),
                ClientStage::ReceiveName => s == Exchange::Next(ClientStage::Open),
                ClientStage::Open => s == Exchange::Next(ClientStage::Watch),
                ClientStage::Watch => s == Exchange::Next(ClientStage::SendAck),
                ClientStage::SendAck => s == Exchange::Next(ClientStage::ReceiveAck),
                ClientStage::ReceiveAck => s matches Exchange::Over(Ok(_)),
            }
        }),
{
}

} // verus!
