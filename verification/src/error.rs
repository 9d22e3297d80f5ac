//! What can go wrong.

use vstd::prelude::*;
use vstd::string::StringExecFns;

use crate::text::append_decimal;
#[allow(unused_imports)]
use crate::text::decimal;

verus! {

/// The kinds of operating-system error that the library tells apart.
#[derive(Debug, Clone, Copy, PartialEq, Eq, Structural)]
pub enum IoErrorKind {
    NotFound,
    ConnectionRefused,
    ConnectionReset,
    BrokenPipe,
    WouldBlock,
    Interrupted,
    InvalidInput,
    InvalidData,
    UnexpectedEof,
    Other,
}

/// An error at the operating-system boundary.
#[derive(Debug, Clone, Copy)]
pub enum IoError {
    /// An error number of the operating system.
    Os(i32),
    /// An error found by the library, or by the code that did the I/O for it.
    Custom { kind: IoErrorKind, message: &'static str },
    /// An error number of the operating system, and what was being done.
    Context { message: &'static str, code: i32 },
    /// Bytes that should be text and are not UTF-8: up to where they are, and how many bytes
    /// there are wrong, unless they only end too early.
    NotUtf8 { valid_up_to: usize, error_len: Option<usize> },
}

/// A failed call of the operating system: the error, and the kind it is of.
#[derive(Debug, Clone, Copy)]
pub struct IoFailure {
    pub kind: IoErrorKind,
    pub error: IoError,
}

/// The errors of the library.
#[derive(Debug, Clone, Copy)]
pub enum Error {
    /// The operation timed out.
    TimedOut,
    /// The peer process is gone.
    PeerDisconnected,
    /// The message does not fit in the ring, or in the buffer it was to be copied to.
    MessageTooLarge { size: usize, max: usize },
    /// The channel was closed.
    ChannelClosed,
    /// The shared-memory header is not one of this protocol version.
    InvalidHeader,
    /// A message carries another sequence number than the next one.
    SequenceMismatch { expected: u32, got: u32 },
    /// An error at the operating-system boundary.
    Io(IoError),
}

pub type Result<T> = std::result::Result<T, Error>;

impl IoError {
    /// The text of the error; `detail` is the operating system's own text for its code.
    pub open spec fn text(self, detail: Seq<char>) -> Seq<char> {
        match self {
            IoError::Os(code) => os_text(detail, code as int),
            IoError::Custom { kind, message } => message@,
            IoError::Context { message, code } => message@ + ": "@ + os_text(detail, code as int),
            IoError::NotUtf8 { valid_up_to, error_len } => match error_len {
                Some(len) => "invalid utf-8 sequence of "@ + decimal(len as nat)
                    + " bytes from index "@ + decimal(valid_up_to as nat),
                None => "incomplete utf-8 byte sequence from index "@ + decimal(
                    valid_up_to as nat,
                ),
            },
        }
    }

    /// The kind of the error, unless the operating system's number tells it.
    pub open spec fn own_kind(self) -> Option<IoErrorKind> {
        match self {
            IoError::Os(code) => None,
            IoError::Custom { kind, message } => Some(kind),
            IoError::Context { message, code } => Some(IoErrorKind::Other),
            IoError::NotUtf8 { valid_up_to, error_len } => Some(IoErrorKind::InvalidData),
        }
    }

    /// The kind of the error, unless the operating system's number tells it.
    pub fn kind(&self) -> (r: Option<IoErrorKind>)
        ensures
            r == self.own_kind(),
    {
        match *self {
            IoError::Os(_) => None,
            IoError::Custom { kind, message } => Some(kind),
            IoError::Context { message, code } => Some(IoErrorKind::Other),
            IoError::NotUtf8 { valid_up_to, error_len } => Some(IoErrorKind::InvalidData),
        }
    }

    /// The text of the error; `detail` is the operating system's own text for its code.
    pub fn display(&self, detail: &str) -> (r: String)
        ensures
            r@ == self.text(detail@),
    {
        match *self {
            IoError::Os(code) => {
                let mut out = String::new();
                append_os_text(&mut out, detail, code);
                assert(out@ =~= self.text(detail@));
                out
            },
            IoError::Custom { kind, message } => String::from_str(message),
            IoError::Context { message, code } => {
                let mut out = String::from_str(message);
                out.append(": ");
                append_os_text(&mut out, detail, code);
                out
            },
            IoError::NotUtf8 { valid_up_to, error_len } => match error_len {
                Some(len) => {
                    let mut out = String::from_str("invalid utf-8 sequence of ");
                    append_decimal(&mut out, len as u64);
                    out.append(" bytes from index ");
                    append_decimal(&mut out, valid_up_to as u64);
                    out
                },
                None => {
                    let mut out = String::from_str("incomplete utf-8 byte sequence from index ");
                    append_decimal(&mut out, valid_up_to as u64);
                    out
                },
            },
        }
    }
}

/// The operating system's text for an error number, and the number.
pub open spec fn os_text(detail: Seq<char>, code: int) -> Seq<char> {
    detail + " (os error "@ + signed_decimal(code) + ")"@
}

/// Appends the operating system's text for an error number, and the number.
fn append_os_text(out: &mut String, detail: &str, code: i32)
    ensures
        final(out)@ == old(out)@ + os_text(detail@, code as int),
{
    let ghost before = out@;
    out.append(detail);
    out.append(" (os error ");
    if code < 0 {
        out.append("-");
        append_decimal(out, (-(code as i64)) as u64);
    } else {
        append_decimal(out, code as u64);
    }
    out.append(")");
    assert(out@ =~= before + os_text(detail@, code as int));
}

/// `n` in decimal, with a sign where it is negative.
pub open spec fn signed_decimal(n: int) -> Seq<char> {
    if n < 0 {
        "-"@ + decimal((-n) as nat)
    } else {
        decimal(n as nat)
    }
}

impl Error {
    /// The text of the error; `detail` is the operating system's own text where the
    /// error carries a code.
    pub open spec fn text(self, detail: Seq<char>) -> Seq<char> {
        match self {
            Error::TimedOut => "operation timed out"@,
            Error::PeerDisconnected => "peer process disconnected"@,
            Error::MessageTooLarge { size, max } => "message too large: "@ + decimal(size as nat)
                + " bytes (max "@ + decimal(max as nat) + ")"@,
            Error::ChannelClosed => "channel closed"@,
            Error::InvalidHeader => "invalid shared memory header"@,
            Error::SequenceMismatch { expected, got } => "sequence mismatch: expected "@ + decimal(
                expected as nat,
            ) + ", got "@ + decimal(got as nat),
            Error::Io(e) => "I/O error: "@ + e.text(detail),
        }
    }

    /// The text of the error; `detail` is the operating system's own text where the
    /// error carries a code.
    pub fn display(&self, detail: &str) -> (r: String)
        ensures
            r@ == self.text(detail@),
    {
        match *self {
            Error::TimedOut => String::from_str("operation timed out"),
            Error::PeerDisconnected => String::from_str("peer process disconnected"),
            Error::MessageTooLarge { size, max } => {
                let mut out = String::from_str("message too large: ");
                append_decimal(&mut out, size as u64);
                out.append(" bytes (max ");
                append_decimal(&mut out, max as u64);
                out.append(")");
                out
            },
            Error::ChannelClosed => String::from_str("channel closed"),
            Error::InvalidHeader => String::from_str("invalid shared memory header"),
            Error::SequenceMismatch { expected, got } => {
                let mut out = String::from_str("sequence mismatch: expected ");
                append_decimal(&mut out, expected as u64);
                out.append(", got ");
                append_decimal(&mut out, got as u64);
                out
            },
            Error::Io(e) => {
                let mut out = String::from_str("I/O error: ");
                let text = e.display(detail);
                out.append(text.as_str());
                out
            },
        }
    }

    /// The underlying operating-system error, if that is what this is.
    pub fn source(&self) -> (r: Option<&IoError>)
        ensures
            match *self {
                Error::Io(e) => r == Some(&e),
                _ => r is None,
            },
    {
        match self {
            Error::Io(e) => Some(e),
            _ => None,
        }
    }
}

impl From<IoError> for Error {
    fn from(e: IoError) -> (r: Self) {
        Error::Io(e)
    }
}

impl vstd::std_specs::convert::FromSpecImpl<IoError> for Error {
    open spec fn obeys_from_spec() -> bool {
        true
    }

    open spec fn from_spec(e: IoError) -> Self {
        Error::Io(e)
    }
}

/// What the texts of the errors say: which error it is, and the numbers that it carries, in
/// decimal. An error of the operating system stands behind its prefix, and keeps its own text.
pub proof fn law_errors_tell_what_happened(
    error: Error,
    detail: &str,
    r: String,
    io: IoError,
    own: String,
)
    requires
        call_ensures(Error::display, (&error, detail), r),
        call_ensures(IoError::display, (&io, detail), own),
    ensures
        error is TimedOut ==> r@ == "operation timed out"@,
        error is PeerDisconnected ==> r@ == "peer process disconnected"@,
        error is ChannelClosed ==> r@ == "channel closed"@,
        error is InvalidHeader ==> r@ == "invalid shared memory header"@,
        error matches Error::MessageTooLarge { size, max } ==> r@ == "message too large: "@
            + decimal(size as nat) + " bytes (max "@ + decimal(max as nat) + ")"@,
        error matches Error::SequenceMismatch { expected, got } ==> r@
            == "sequence mismatch: expected "@ + decimal(expected as nat) + ", got "@ + decimal(
            got as nat,
        ),
        error == Error::Io(io) ==> r@ == "I/O error: "@ + own@,
        io matches IoError::Custom { kind, message } ==> own@ == message@,
        io matches IoError::Os(code) ==> own@ == detail@ + " (os error "@ + (if code < 0 {
            "-"@ + decimal(-code as nat)
        } else {
            decimal(code as nat)
        }) + ")"@,
        io matches IoError::Context { message, code } ==> own@ == message@ + ": "@ + (detail@
            + " (os error "@ + (if code < 0 {
            "-"@ + decimal(-code as nat)
        } else {
            decimal(code as nat)
        }) + ")"@),
{
}

/// Only an error of the operating system has one behind it, and its kind is its own, unless the
/// operating system's number tells it.
pub proof fn law_errors_keep_their_source(
    error: Error,
    behind: Option<&IoError>,
    io: IoError,
    kind: Option<IoErrorKind>,
    whole: Error,
)
    requires
        call_ensures(Error::source, (&error,), behind),
        call_ensures(IoError::kind, (&io,), kind),
        call_ensures(<Error as From<IoError>>::from, (io,), whole),
    ensures
        behind is Some <==> error is Io,
        behind matches Some(e) ==> error == Error::Io(*e),
        kind is None <==> io is Os,
        io matches IoError::Custom { kind: own, message } ==> kind == Some(own),
        io is Context ==> kind == Some(IoErrorKind::Other),
        io is NotUtf8 ==> kind == Some(IoErrorKind::InvalidData),
        whole == Error::Io(io),
{
}

} // verus!
