//! The errors of chat operations.
use vstd::prelude::*;

use crate::text;

verus! {

/// What sort of an I/O error it was.
#[derive(Debug, Clone, Copy, PartialEq, Eq, Structural)]
pub enum IoErrorKind {
    NotFound,
    PermissionDenied,
    ConnectionRefused,
    ConnectionReset,
    ConnectionAborted,
    NotConnected,
    AddrInUse,
    AddrNotAvailable,
    BrokenPipe,
    AlreadyExists,
    WouldBlock,
    InvalidInput,
    InvalidData,
    TimedOut,
    WriteZero,
    Interrupted,
    Unsupported,
    UnexpectedEof,
    OutOfMemory,
    Other,
}

/// An I/O error: its sort, and what it says.
#[derive(Debug)]
pub struct IoError {
    pub kind: IoErrorKind,
    pub message: String,
}

/// An [`IoError`] with its text as characters.
#[verifier::ext_equal]
pub struct IoErrorView {
    pub kind: IoErrorKind,
    pub message: Seq<char>,
}

impl View for IoError {
    type V = IoErrorView;

    open spec fn view(&self) -> IoErrorView {
        IoErrorView { kind: self.kind, message: self.message@ }
    }
}

impl Clone for IoError {
    fn clone(&self) -> (r: Self)
        ensures
            r@ == self@,
    {
        IoError { kind: self.kind, message: self.message.clone() }
    }
}

/// Errors that can occur during chat operations.
///
/// Covers invite validation, connection failures, wire protocol errors,
/// and lifecycle events like shutdown.
#[derive(Debug)]
pub enum ChatError {
    InvalidInvite(String),
    InviteExpired { timestamp: u64 },
    NonceReused,
    OnionService(String),
    Connection(String),
    ChannelClosed,
    Wire(String),
    OversizedMessage { size: usize, limit: usize },
    Io(IoError),
    PeerNotFound(String),
    ShuttingDown,
}

/// What a [`ChatError`] says, with its texts as characters.
#[verifier::ext_equal]
pub enum ErrorView {
    InvalidInvite(Seq<char>),
    InviteExpired { timestamp: u64 },
    NonceReused,
    OnionService(Seq<char>),
    Connection(Seq<char>),
    ChannelClosed,
    Wire(Seq<char>),
    OversizedMessage { size: usize, limit: usize },
    Io(IoErrorView),
    PeerNotFound(Seq<char>),
    ShuttingDown,
}

impl View for ChatError {
    type V = ErrorView;

    open spec fn view(&self) -> ErrorView {
        match self {
            ChatError::InvalidInvite(s) => ErrorView::InvalidInvite(s@),
            ChatError::InviteExpired { timestamp } => ErrorView::InviteExpired {
                timestamp: *timestamp,
            },
            ChatError::NonceReused => ErrorView::NonceReused,
            ChatError::OnionService(s) => ErrorView::OnionService(s@),
            ChatError::Connection(s) => ErrorView::Connection(s@),
            ChatError::ChannelClosed => ErrorView::ChannelClosed,
            ChatError::Wire(s) => ErrorView::Wire(s@),
            ChatError::OversizedMessage { size, limit } => ErrorView::OversizedMessage {
                size: *size,
                limit: *limit,
            },
            ChatError::Io(e) => ErrorView::Io(e@),
            ChatError::PeerNotFound(s) => ErrorView::PeerNotFound(s@),
            ChatError::ShuttingDown => ErrorView::ShuttingDown,
        }
    }
}

/// What users read of an error.
pub open spec fn error_text(e: ErrorView) -> Seq<char> {
    match e {
        ErrorView::InvalidInvite(s) => "invite code invalid: "@ + s,
        ErrorView::InviteExpired { timestamp } => "invite expired (issued at "@ + text::decimal(
            timestamp as nat,
        ) + ")"@,
        ErrorView::NonceReused => "nonce already used"@,
        ErrorView::OnionService(s) => "onion service error: "@ + s,
        ErrorView::Connection(s) => "connection failed: "@ + s,
        ErrorView::ChannelClosed => "broadcast channel closed"@,
        ErrorView::Wire(s) => "wire protocol error: "@ + s,
        ErrorView::OversizedMessage { size, limit } => "message too large: "@ + text::decimal(
            size as nat,
        ) + " bytes (limit "@ + text::decimal(limit as nat) + ")"@,
        ErrorView::Io(e) => "I/O error: "@ + e.message,
        ErrorView::PeerNotFound(s) => "peer not found: "@ + s,
        ErrorView::ShuttingDown => "shutdown in progress"@,
    }
}

impl ChatError {
    /// The text that users read.
    pub fn message(&self) -> (r: String)
        ensures
            r@ == error_text(self@),
    {
        match self {
            ChatError::InvalidInvite(s) => text::concat2("invite code invalid: ", s.as_str()),
            ChatError::InviteExpired { timestamp } => {
                let number = text::decimal_string(*timestamp);
                text::concat3("invite expired (issued at ", number.as_str(), ")")
            },
            ChatError::NonceReused => "nonce already used".to_owned(),
            ChatError::OnionService(s) => text::concat2("onion service error: ", s.as_str()),
            ChatError::Connection(s) => text::concat2("connection failed: ", s.as_str()),
            ChatError::ChannelClosed => "broadcast channel closed".to_owned(),
            ChatError::Wire(s) => text::concat2("wire protocol error: ", s.as_str()),
            ChatError::OversizedMessage { size, limit } => {
                let n = text::decimal_string(*size as u64);
                let m = text::decimal_string(*limit as u64);
                let mut r = text::concat3("message too large: ", n.as_str(), " bytes (limit ");
                r.append(m.as_str());
                r.append(")");
                r
            },
            ChatError::Io(e) => text::concat2("I/O error: ", e.message.as_str()),
            ChatError::PeerNotFound(s) => text::concat2("peer not found: ", s.as_str()),
            ChatError::ShuttingDown => "shutdown in progress".to_owned(),
        }
    }
}

impl Clone for ChatError {
    fn clone(&self) -> (r: Self)
        ensures
            r@ == self@,
    {
        match self {
            ChatError::InvalidInvite(s) => ChatError::InvalidInvite(s.clone()),
            ChatError::InviteExpired { timestamp } => ChatError::InviteExpired {
                timestamp: *timestamp,
            },
            ChatError::NonceReused => ChatError::NonceReused,
            ChatError::OnionService(s) => ChatError::OnionService(s.clone()),
            ChatError::Connection(s) => ChatError::Connection(s.clone()),
            ChatError::ChannelClosed => ChatError::ChannelClosed,
            ChatError::Wire(s) => ChatError::Wire(s.clone()),
            ChatError::OversizedMessage { size, limit } => ChatError::OversizedMessage {
                size: *size,
                limit: *limit,
            },
            ChatError::Io(e) => ChatError::Io(e.clone()),
            ChatError::PeerNotFound(s) => ChatError::PeerNotFound(s.clone()),
            ChatError::ShuttingDown => ChatError::ShuttingDown,
        }
    }
}

/// A [`ChatError::InvalidInvite`] with a fixed text.
pub(crate) fn invalid_invite(message: &str) -> (e: ChatError)
    ensures
        e@ == ErrorView::InvalidInvite(message@),
{
    ChatError::InvalidInvite(message.to_owned())
}

/// A [`ChatError::Connection`] with a fixed text.
pub(crate) fn connection_error(message: &str) -> (e: ChatError)
    ensures
        e@ == ErrorView::Connection(message@),
{
    ChatError::Connection(message.to_owned())
}

/// A [`ChatError::Wire`] with a fixed text.
pub(crate) fn wire_error(message: &str) -> (e: ChatError)
    ensures
        e@ == ErrorView::Wire(message@),
{
    ChatError::Wire(message.to_owned())
}

/// Every error says what happened, and holds what is known about it word for word.
pub proof fn error_says_what_happened(
    s: Seq<char>,
    timestamp: u64,
    size: usize,
    limit: usize,
    kind: IoErrorKind,
)
    ensures
        error_text(ErrorView::InvalidInvite(s)) == "invite code invalid: "@ + s,
        error_text(ErrorView::InviteExpired { timestamp }) == "invite expired (issued at "@
            + text::decimal(timestamp as nat) + ")"@,
        error_text(ErrorView::NonceReused) == "nonce already used"@,
        error_text(ErrorView::OnionService(s)) == "onion service error: "@ + s,
        error_text(ErrorView::Connection(s)) == "connection failed: "@ + s,
        error_text(ErrorView::ChannelClosed) == "broadcast channel closed"@,
        error_text(ErrorView::Wire(s)) == "wire protocol error: "@ + s,
        error_text(ErrorView::OversizedMessage { size, limit }) == "message too large: "@
            + text::decimal(size as nat) + " bytes (limit "@ + text::decimal(limit as nat) + ")"@,
        error_text(ErrorView::Io(IoErrorView { kind, message: s })) == "I/O error: "@ + s,
        error_text(ErrorView::PeerNotFound(s)) == "peer not found: "@ + s,
        error_text(ErrorView::ShuttingDown) == "shutdown in progress"@,
{
}

/// What is seen of an error is everything that it holds.
pub proof fn errors_are_seen_whole(
    s: String,
    timestamp: u64,
    size: usize,
    limit: usize,
    io: IoError,
)
    ensures
        ChatError::InvalidInvite(s)@ == ErrorView::InvalidInvite(s@),
        (ChatError::InviteExpired { timestamp })@ == (ErrorView::InviteExpired { timestamp }),
        ChatError::NonceReused@ == ErrorView::NonceReused,
        ChatError::OnionService(s)@ == ErrorView::OnionService(s@),
        ChatError::Connection(s)@ == ErrorView::Connection(s@),
        ChatError::ChannelClosed@ == ErrorView::ChannelClosed,
        ChatError::Wire(s)@ == ErrorView::Wire(s@),
        (ChatError::OversizedMessage { size, limit })@ == (ErrorView::OversizedMessage {
            size,
            limit,
        }),
        ChatError::Io(io)@ == ErrorView::Io(IoErrorView { kind: io.kind, message: io.message@ }),
        ChatError::PeerNotFound(s)@ == ErrorView::PeerNotFound(s@),
        ChatError::ShuttingDown@ == ErrorView::ShuttingDown,
{
}

} // verus!
