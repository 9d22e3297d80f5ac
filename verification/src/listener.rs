//! Many clients for one server.
//!
//! A client meets the server on a socket, is told the name of a channel made for it
//! alone, and goes on over that channel.

#[allow(unused_imports)]
use vstd::arithmetic::power2::is_pow2;
use vstd::prelude::*;
use vstd::string::StringExecFns;
#[allow(unused_imports)]
use vstd::utf8::{
    decode_utf8, decode_utf8_encode_utf8, encode_utf8, encode_utf8_decode_utf8,
    encode_utf8_valid_utf8, valid_utf8,
};

use crate::channel::{Channel, ChannelConfig, ChannelFile};
#[allow(unused_imports)]
use crate::channel::{created, starts_fresh};
use crate::error::{Error, IoError, IoErrorKind, IoFailure, Result};
#[allow(unused_imports)]
use crate::header::file_size;
use crate::text::append_decimal;
#[allow(unused_imports)]
use crate::text::{decimal, lemma_decimal_injective};
use crate::wait::RetryStep;

verus! {

/// The socket on which the listener `name` meets its clients.
pub open spec fn handshake_path_text(name: Seq<char>) -> Seq<char> {
    "/tmp/shmem_ipc_"@ + name + ".sock"@
}

/// The socket on which the listener `name` meets its clients.
pub fn handshake_path(name: &str) -> (r: String)
    ensures
        r@ == handshake_path_text(name@),
{
    let mut path = String::from_str("/tmp/shmem_ipc_");
    path.append(name);
    path.append(".sock");
    path
}

/// The named pipe that stands for that socket on Windows.
pub fn pipe_name(name: &str) -> (r: String)
    ensures
        r@ == "\\\\.\\pipe\\shmem_ipc_"@ + name@,
{
    let mut path = String::from_str("\\\\.\\pipe\\shmem_ipc_");
    path.append(name);
    path
}

/// What a listener and its clients meet on.
#[derive(Debug, Clone, Copy, PartialEq, Eq, Structural)]
pub enum Meeting {
    /// A socket, which is a file: it stays behind unless it is removed.
    Socket,
    /// A named pipe, which is gone with its last handle.
    Pipe,
}

impl Meeting {
    /// The file that stays behind of the listener `name`.
    pub open spec fn leaves_text(self, name: Seq<char>) -> Option<Seq<char>> {
        match self {
            Meeting::Socket => Some(handshake_path_text(name)),
            Meeting::Pipe => None,
        }
    }

    /// The file that stays behind of the listener `name`.
    pub fn leaves(self, name: &str) -> (r: Option<String>)
        ensures
            option_text(r) == self.leaves_text(name@),
    {
        match self {
            Meeting::Socket => Some(handshake_path(name)),
            Meeting::Pipe => None,
        }
    }
}

/// The text of a string, if there is one.
pub open spec fn option_text(s: Option<String>) -> Option<Seq<char>> {
    match s {
        Some(s) => Some(s@),
        None => None,
    }
}

/// The name of the channel for the client with the number `counter`.
pub open spec fn connection_name_text(name: Seq<char>, counter: nat) -> Seq<char> {
    name + ".conn."@ + decimal(counter)
}

/// The name of the channel for the client with the number `counter`.
pub fn connection_name(name: &str, counter: u64) -> (r: String)
    ensures
        r@ == connection_name_text(name@, counter as nat),
{
    let mut out = String::from_str(name);
    out.append(".conn.");
    append_decimal(&mut out, counter);
    out
}

/// Two clients of one listener never get the same channel.
pub proof fn law_clients_get_channels_of_their_own(name: Seq<char>, a: nat, b: nat)
    requires
        connection_name_text(name, a) == connection_name_text(name, b),
    ensures
        a == b,
{
    let front = name + ".conn."@;
    assert(decimal(a) =~= connection_name_text(name, a).skip(front.len() as int));
    assert(decimal(b) =~= connection_name_text(name, b).skip(front.len() as int));
    lemma_decimal_injective(a, b);
}

/// What the server tells a client: two bytes of length, least significant first, then
/// the name in UTF-8. Only the lowest 16 bits of the length are told.
pub open spec fn name_frame(name: Seq<char>) -> Seq<u8> {
    let len = encode_utf8(name).len();
    seq![(len % 256) as u8, (len / 256 % 256) as u8] + encode_utf8(name)
}

/// The length that the first two bytes of a frame name.
pub open spec fn frame_length(low: u8, high: u8) -> nat {
    (low + 256 * high) as nat
}

/// Whether the bytes are UTF-8 up to `n`, and up to no index behind it.
pub open spec fn utf8_up_to(bytes: Seq<u8>, n: int) -> bool {
    &&& 0 <= n <= bytes.len()
    &&& valid_utf8(bytes.take(n))
    &&& forall|m: int| n < m <= bytes.len() ==> !valid_utf8(#[trigger] bytes.take(m))
}

/// What the bytes of a name stand for: a text, or an error that says where they are wrong.
pub open spec fn name_heard(
    bytes: Seq<u8>,
    heard: std::result::Result<Seq<char>, Error>,
) -> bool {
    if valid_utf8(bytes) {
        heard == Ok::<Seq<char>, Error>(decode_utf8(bytes))
    } else {
        &&& heard matches Err(Error::Io(IoError::NotUtf8 { valid_up_to, error_len }))
        &&& utf8_up_to(bytes, valid_up_to as int)
        &&& error_len == utf8_error_len(bytes)
    }
}

/// A client hears the name that the server told it. A name of 65536 bytes or more does
/// not fit the frame.
pub proof fn law_name_is_heard_as_told(name: Seq<char>)
    requires
        encode_utf8(name).len() < 65536,
    ensures
        name_frame(name).len() == 2 + frame_length(name_frame(name)[0], name_frame(name)[1]),
        forall|heard: std::result::Result<Seq<char>, Error>|
            name_heard(name_frame(name).skip(2), heard) ==> heard == Ok::<Seq<char>, Error>(name),
{
    assert(name_frame(name).skip(2) =~= encode_utf8(name));
    encode_utf8_valid_utf8(name);
    encode_utf8_decode_utf8(name);
}

/// The frame for a name.
pub fn encode_name(name: &str) -> (r: Vec<u8>)
    ensures
        r@ == name_frame(name@),
{
    let bytes = name.as_bytes();
    let len: usize = bytes.len();
    let mut out: Vec<u8> = Vec::new();
    out.push((len % 256) as u8);
    out.push((len / 256 % 256) as u8);
    let mut i: usize = 0;
    while i < len
        invariant
            i <= len,
            len == bytes@.len(),
            out@ =~= seq![(len % 256) as u8, (len / 256 % 256) as u8] + bytes@.take(i as int),
        decreases len - i,
    {
        out.push(bytes[i]);
        i += 1;
    }
    proof {
        assert(bytes@.take(len as int) =~= bytes@);
    }
    out
}

/// How many bytes of name follow the first two bytes of a frame.
pub fn name_length(header: [u8; 2]) -> (r: usize)
    ensures
        r == frame_length(header@[0], header@[1]),
{
    header[0] as usize + 256 * (header[1] as usize)
}

/// How many bytes are wrong where `bytes` stop being UTF-8, as `Utf8Error::error_len` counts
/// them; nothing where they only end too early.
pub uninterp spec fn utf8_error_len(bytes: Seq<u8>) -> Option<usize>;

/// `String::from_utf8`: the text whose UTF-8 encoding `bytes` is. Where there is none, the two
/// numbers that its error holds: `valid_up_to`, the greatest index up to which the bytes are
/// UTF-8, and `error_len`, a function of the bytes that is only named here.
#[verifier::external_body]
fn string_from_utf8(bytes: Vec<u8>) -> (r: std::result::Result<String, (usize, Option<usize>)>)
    ensures
        valid_utf8(bytes@) ==> r is Ok && r->Ok_0@ == decode_utf8(bytes@),
        !valid_utf8(bytes@) ==> r is Err && utf8_up_to(bytes@, r->Err_0.0 as int) && r->Err_0.1
            == utf8_error_len(bytes@),
{
    match String::from_utf8(bytes) {
        Ok(text) => Ok(text),
        Err(e) => Err((e.utf8_error().valid_up_to(), e.utf8_error().error_len())),
    }
}

/// The text of a name, or why there is none.
pub open spec fn name_text(r: Result<String>) -> std::result::Result<Seq<char>, Error> {
    match r {
        Ok(name) => Ok(name@),
        Err(e) => Err(e),
    }
}

/// The error for bytes that are not UTF-8, from the two numbers that tell where.
pub fn bad_name(valid_up_to: usize, error_len: Option<usize>) -> (r: Error)
    ensures
        r == Error::Io(IoError::NotUtf8 { valid_up_to, error_len }),
{
    Error::Io(IoError::NotUtf8 { valid_up_to, error_len })
}

/// The name that follows the first two bytes of a frame.
pub fn decode_name(bytes: Vec<u8>) -> (r: Result<String>)
    ensures
        name_heard(bytes@, name_text(r)),
{
    match string_from_utf8(bytes) {
        Ok(name) => Ok(name),
        Err((valid_up_to, error_len)) => Err(bad_name(valid_up_to, error_len)),
    }
}

/// What is known of a listener.
pub struct ListenerView {
    pub name: Seq<char>,
    pub config: ChannelConfig,
    pub counter: nat,
}

/// A server's listener.
pub struct ShmemListener {
    name: String,
    config: ChannelConfig,
    counter: u64,
}

impl View for ShmemListener {
    type V = ListenerView;

    closed spec fn view(&self) -> ListenerView {
        ListenerView { name: self.name@, config: self.config, counter: self.counter as nat }
    }
}

impl ShmemListener {
    /// The listener `name`, once its socket is bound. A socket that an earlier listener
    /// of that name left behind was removed before.
    pub fn bind(
        name: &str,
        config: ChannelConfig,
        bound: std::result::Result<(), IoError>,
    ) -> (r: Result<Self>)
        ensures
            match bound {
                Ok(()) => r is Ok && r->Ok_0@ == (ListenerView { name: name@, config, counter: 0 }),
                Err(e) => r == Err::<Self, Error>(Error::Io(e)),
            },
    {
        match bound {
            Ok(()) => Ok(ShmemListener { name: String::from_str(name), config, counter: 0 }),
            Err(e) => Err(Error::Io(e)),
        }
    }

    /// Sets a channel up for the next client: the server's end, the file, and the frame
    /// that tells the client its name. The number is used up whatever comes of it.
    pub fn handshake(&mut self, pid: u64) -> (r: Result<(Channel, ChannelFile, Vec<u8>)>)
        requires
            old(self)@.counter < u64::MAX,
            is_pow2(old(self)@.config.ring_size as int) ==> file_size(
                old(self)@.config.ring_size as int,
            ) <= usize::MAX,
        ensures
            final(self)@ == (ListenerView { counter: old(self)@.counter + 1, ..old(self)@ }),
            !is_pow2(old(self)@.config.ring_size as int) ==> r == Err::<
                (Channel, ChannelFile, Vec<u8>),
                Error,
            >(
                Error::Io(
                    IoError::Custom {
                        kind: IoErrorKind::InvalidInput,
                        message: "ring_size must be a power of two",
                    },
                ),
            ),
            is_pow2(old(self)@.config.ring_size as int) ==> {
                let name = connection_name_text(old(self)@.name, old(self)@.counter);
                &&& r is Ok
                &&& created(name, old(self)@.config, pid, r->Ok_0.0, r->Ok_0.1)
                &&& r->Ok_0.2@ == name_frame(name)
            },
    {
        let name = connection_name(self.name.as_str(), self.counter);
        self.counter = self.counter + 1;
        match Channel::create_with_config(name.as_str(), self.config, pid) {
            Ok((channel, file)) => {
                let frame = encode_name(name.as_str());
                Ok((channel, file, frame))
            },
            Err(e) => Err(e),
        }
    }

    /// The file that is to be removed when the listener is dropped.
    pub fn path(&self, meeting: Meeting) -> (r: Option<String>)
        ensures
            option_text(r) == meeting.leaves_text(self@.name),
    {
        meeting.leaves(self.name.as_str())
    }

    /// The file that is to be removed to clean up after the listener `name`.
    pub fn cleanup(name: &str, meeting: Meeting) -> (r: Option<String>)
        ensures
            option_text(r) == meeting.leaves_text(name@),
    {
        meeting.leaves(name)
    }
}

/// How long a listener sleeps between two looks for a client: one millisecond.
pub const ACCEPT_POLL_NANOS: u128 = 1_000_000;

/// How long a client sleeps between two tries to connect: ten milliseconds.
pub const CONNECT_POLL_NANOS: u128 = 10_000_000;

/// What follows a look for a client that must not block. Only "not yet" is looked at
/// again, until the deadline.
pub fn accept_step(
    outcome: std::result::Result<(), IoFailure>,
    now: u128,
    deadline: u128,
) -> (r: RetryStep)
    ensures
        r == match outcome {
            Ok(()) => RetryStep::Ready,
            Err(failure) => if failure.kind != IoErrorKind::WouldBlock {
                RetryStep::Failed(Error::Io(failure.error))
            } else if now >= deadline {
                RetryStep::Failed(Error::TimedOut)
            } else {
                RetryStep::Pause(ACCEPT_POLL_NANOS)
            },
        },
{
    match outcome {
        Ok(()) => RetryStep::Ready,
        Err(failure) => {
            if failure.kind != IoErrorKind::WouldBlock {
                RetryStep::Failed(Error::Io(failure.error))
            } else if now >= deadline {
                RetryStep::Failed(Error::TimedOut)
            } else {
                RetryStep::Pause(ACCEPT_POLL_NANOS)
            }
        },
    }
}

/// What follows a try to connect: any failure is tried again until the deadline.
pub fn connect_step(
    outcome: std::result::Result<(), IoFailure>,
    now: u128,
    deadline: u128,
) -> (r: RetryStep)
    ensures
        r == match outcome {
            Ok(()) => RetryStep::Ready,
            Err(failure) => if now < deadline {
                RetryStep::Pause(CONNECT_POLL_NANOS)
            } else {
                RetryStep::Failed(Error::Io(failure.error))
            },
        },
{
    match outcome {
        Ok(()) => RetryStep::Ready,
        Err(failure) => {
            if now < deadline {
                RetryStep::Pause(CONNECT_POLL_NANOS)
            } else {
                RetryStep::Failed(Error::Io(failure.error))
            }
        },
    }
}

/// What follows a try to open a named pipe: a pipe that cannot be opened is tried again
/// until the deadline, whatever the reason.
pub fn connect_pipe_step(opened: bool, now: u128, deadline: u128) -> (r: RetryStep)
    ensures
        r == if opened {
            RetryStep::Ready
        } else if now >= deadline {
            RetryStep::Failed(Error::TimedOut)
        } else {
            RetryStep::Pause(CONNECT_POLL_NANOS)
        },
{
    if opened {
        RetryStep::Ready
    } else if now >= deadline {
        RetryStep::Failed(Error::TimedOut)
    } else {
        RetryStep::Pause(CONNECT_POLL_NANOS)
    }
}

/// What a client hears is what the server told it: from the first two bytes of the frame it learns
/// how many bytes of name follow, and from those the name. The low byte of the length comes first.
pub proof fn law_client_hears_what_the_server_tells(
    name: &str,
    frame: Vec<u8>,
    header: [u8; 2],
    len: usize,
    rest: Vec<u8>,
    heard: Result<String>,
)
    requires
        encode_utf8(name@).len() < 65536,
        call_ensures(encode_name, (name,), frame),
        header@ == frame@.take(2),
        call_ensures(name_length, (header,), len),
        rest@ == frame@.skip(2),
        call_ensures(decode_name, (rest,), heard),
    ensures
        frame@.len() == 2 + len,
        len == frame@[0] + 256 * frame@[1],
        rest@ == encode_utf8(name@),
        heard is Ok,
        heard->Ok_0@ == name@,
{
    assert(header@[0] == frame@[0] && header@[1] == frame@[1]);
    assert(frame@.skip(2) =~= encode_utf8(name@));
    encode_utf8_valid_utf8(name@);
    encode_utf8_decode_utf8(name@);
}

/// Bytes that are no text are refused as invalid data, with where they go wrong; bytes that are
/// one are that text.
pub proof fn law_only_text_is_a_name(bytes: Vec<u8>, heard: Result<String>)
    requires
        call_ensures(decode_name, (bytes,), heard),
    ensures
        heard is Ok <==> valid_utf8(bytes@),
        heard matches Ok(name) ==> encode_utf8(name@) == bytes@,
        heard matches Err(e) ==> {
            &&& e matches Error::Io(io)
            &&& io matches IoError::NotUtf8 { valid_up_to, error_len }
            &&& valid_up_to < bytes@.len()
            &&& valid_utf8(bytes@.take(valid_up_to as int))
            &&& !valid_utf8(bytes@.take(valid_up_to + 1))
            &&& io.own_kind() == Some(IoErrorKind::InvalidData)
        },
{
    if valid_utf8(bytes@) {
        decode_utf8_encode_utf8(bytes@);
    } else {
        assert(bytes@.take(bytes@.len() as int) =~= bytes@);
    }
}

/// The names by which server and client find each other: the socket and the pipe go by the
/// listener's name, and the channel of a client by that and the client's number.
pub proof fn law_names_to_meet_by(
    name: &str,
    counter: u64,
    socket: String,
    pipe: String,
    channel: String,
    left: (Option<String>, Option<String>),
)
    requires
        call_ensures(handshake_path, (name,), socket),
        call_ensures(pipe_name, (name,), pipe),
        call_ensures(connection_name, (name, counter), channel),
        call_ensures(ShmemListener::cleanup, (name, Meeting::Socket), left.0),
        call_ensures(ShmemListener::cleanup, (name, Meeting::Pipe), left.1),
    ensures
        socket@ == "/tmp/shmem_ipc_"@ + name@ + ".sock"@,
        pipe@ == "\\\\.\\pipe\\shmem_ipc_"@ + name@,
        channel@ == name@ + ".conn."@ + decimal(counter as nat),
        left.0 is Some && left.0->0@ == socket@,
        left.1 is None,
{
}

/// Every client gets the next number, and with it a channel of its own, set up with the listener's
/// configuration and told to the client by its name. The number is used up even where no channel
/// can be set up.
pub proof fn law_every_client_gets_the_next_number(pid: u64)
    ensures
        forall|s: &mut ShmemListener, r: Result<(Channel, ChannelFile, Vec<u8>)>|
            (*s)@.counter < u64::MAX && (is_pow2((*s)@.config.ring_size as int) ==> 512 + 2
                * (*s)@.config.ring_size <= usize::MAX) && #[trigger] call_ensures(
                ShmemListener::handshake,
                (s, pid),
                r,
            ) ==> {
                let name = (*s)@.name + ".conn."@ + decimal((*s)@.counter);
                &&& (*final(s))@.counter == (*s)@.counter + 1
                &&& (*final(s))@.name == (*s)@.name
                &&& (*final(s))@.config == (*s)@.config
                &&& r is Ok <==> is_pow2((*s)@.config.ring_size as int)
                &&& r matches Ok((channel, file, frame)) ==> {
                    &&& channel@.role is Server
                    &&& channel@.name == name
                    &&& channel@.wait == (*s)@.config.wait_strategy
                    &&& starts_fresh(channel@, (*s)@.config.ring_size as int)
                    &&& file.file_name@ == "shmem_ipc_"@ + name
                    &&& file.global.state == 1
                    &&& file.global.server_pid == pid
                    &&& frame@.skip(2) == encode_utf8(name)
                    &&& encode_utf8(name).len() < 65536 ==> frame@[0] + 256 * frame@[1]
                        == encode_utf8(name).len()
                }
            },
        forall|
            name: &str,
            config: ChannelConfig,
            bound: std::result::Result<(), IoError>,
            r: Result<ShmemListener>,
        | #[trigger]
            call_ensures(ShmemListener::bind, (name, config, bound), r) ==> {
                &&& r is Ok <==> bound is Ok
                &&& r matches Ok(listener) ==> listener@.name == name@ && listener@.config == config
                    && listener@.counter == 0
                &&& bound matches Err(e) ==> r matches Err(told) && told == Error::Io(e)
            },
{
    assert forall|s: &mut ShmemListener, r: Result<(Channel, ChannelFile, Vec<u8>)>|
        (*s)@.counter < u64::MAX && #[trigger] call_ensures(ShmemListener::handshake, (s, pid), r)
            && r is Ok && (is_pow2((*s)@.config.ring_size as int) ==> 512 + 2
            * (*s)@.config.ring_size <= usize::MAX) implies r->Ok_0.2@.skip(2) == encode_utf8(
        (*s)@.name + ".conn."@ + decimal((*s)@.counter),
    ) by {
        let name = (*s)@.name + ".conn."@ + decimal((*s)@.counter);
        assert(name_frame(name).skip(2) =~= encode_utf8(name));
    }
}

/// A listener that must not block looks again every millisecond as long as there is no client,
/// until its time is over; any failure ends it. A client tries again every ten milliseconds, until
/// its own time is over, and then reports why: on a socket the last failure, on a pipe that it has
/// timed out. Success ends either at once.
pub proof fn law_tries_end_in_time(
    outcome: std::result::Result<(), IoFailure>,
    opened: bool,
    now: u128,
    deadline: u128,
    accepted: RetryStep,
    connected: RetryStep,
    piped: RetryStep,
)
    requires
        call_ensures(accept_step, (outcome, now, deadline), accepted),
        call_ensures(connect_step, (outcome, now, deadline), connected),
        call_ensures(connect_pipe_step, (opened, now, deadline), piped),
    ensures
        accepted is Ready <==> outcome is Ok,
        connected is Ready <==> outcome is Ok,
        piped is Ready <==> opened,
        outcome matches Err(failure) ==> {
            &&& accepted is Pause <==> failure.kind is WouldBlock && now < deadline
            &&& failure.kind is WouldBlock && now >= deadline ==> accepted == RetryStep::Failed(
                Error::TimedOut,
            )
            &&& failure.kind !is WouldBlock ==> accepted == RetryStep::Failed(
                Error::Io(failure.error),
            )
            &&& connected is Pause <==> now < deadline
            &&& now >= deadline ==> connected == RetryStep::Failed(Error::Io(failure.error))
        },
        !opened ==> (piped is Pause <==> now < deadline),
        !opened && now >= deadline ==> piped == RetryStep::Failed(Error::TimedOut),
        accepted matches RetryStep::Pause(nanos) ==> nanos == 1_000_000,
        connected matches RetryStep::Pause(nanos) ==> nanos == 10_000_000,
        piped matches RetryStep::Pause(nanos) ==> nanos == 10_000_000,
{
}

/// What stays behind of a listener is its socket, by the name that clients look for; a pipe leaves
/// nothing.
pub proof fn law_listener_leaves_its_socket(
    listener: &ShmemListener,
    name: &str,
    meeting: Meeting,
    socket: String,
    own: Option<String>,
    named: Option<String>,
)
    requires
        name@ == listener@.name,
        call_ensures(handshake_path, (name,), socket),
        call_ensures(ShmemListener::path, (listener, meeting), own),
        call_ensures(Meeting::leaves, (meeting, name), named),
    ensures
        meeting is Pipe ==> own is None && named is None,
        meeting is Socket ==> own is Some && named is Some && own->0@ == socket@ && named->0@
            == socket@,
{
}

/// Bytes that are not text are reported by the two numbers that tell where.
pub proof fn law_bad_names_are_told(valid_up_to: usize, error_len: Option<usize>, r: Error)
    requires
        call_ensures(bad_name, (valid_up_to, error_len), r),
    ensures
        r matches Error::Io(IoError::NotUtf8 { valid_up_to: at, error_len: len }) && at
            == valid_up_to && len == error_len,
{
}

} // verus!
