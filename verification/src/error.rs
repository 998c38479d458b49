//! The ways in which the transport refuses.
use vstd::prelude::*;

verus! {

/// The class of an error, as input and output code knows it.
#[derive(Clone, Copy, Debug, PartialEq, Eq, Structural)]
pub enum ErrorKind {
    InvalidInput,
    InvalidData,
    UnexpectedEof,
    PermissionDenied,
    BrokenPipe,
    TimedOut,
    Other,
}

/// What went wrong.
#[derive(Debug, PartialEq, Eq)]
pub enum Error {
    /// More bytes were reported than the frame decoder's buffer holds.
    BeyondBuffer,
    /// A frame header announces more than the transport carries.
    FrameTooLarge,
    /// The connection ended between the first and the last byte of a frame.
    EndedWithinFrame,
    /// An earlier packet was refused, so none is accepted any more.
    ReceiverFailed,
    /// The direction has used its last counter.
    CounterExhausted,
    /// A secure frame is too short to hold a kind and a tag.
    InvalidFrame,
    /// The length in a secure frame is not the frame's own.
    InvalidFrameLength,
    /// The kind of a packet is not one of the transport's.
    UnknownPacketKind,
    /// The tag of a packet does not authenticate it.
    TagMismatch,
    /// A payload is larger than the transport carries.
    PayloadTooLarge,
    /// The handshake record is not the one that is due.
    UnexpectedHandshake,
    /// The handshake is addressed to another identity.
    WrongRecipient,
    /// A handshake record has the wrong version, type or length.
    InvalidHandshake,
    /// A verified route waits to be committed.
    RouteNotCommitted,
    /// An attachment came while a challenge is being answered.
    ChallengeActive,
    /// Bytes follow the peer bundle of an attachment.
    InvalidAttachment,
    /// A record came before any attachment.
    NotAttached,
    /// A challenge is answered that was not made.
    NoChallenge,
    /// The packet is of a kind that is not due.
    UnexpectedPacket,
    /// A challenge is begun while another attachment is in progress.
    TransitionActive,
    /// The connection owns as many routes as it may.
    RouteLimit,
    /// The connection has used its last handshake identifier.
    HandshakeIdExhausted,
    /// A route is committed that was not verified.
    NoVerifiedRoute,
    /// The router sent something other than a record.
    UnexpectedRouterPacket,
    /// An earlier write did not finish, so none may follow.
    WriterBroken,
    /// A frame was not complete in time.
    AssemblyTimedOut,
    /// The router could not be reached in time.
    ConnectTimedOut,
    /// The router closed the connection during the handshake.
    RouterDisconnected,
    /// A codec or a cryptographic check refused what it was given; the text is its own.
    Rejected(String),
}

impl Error {
    /// The class that each error belongs to.
    pub open spec fn spec_kind(self) -> ErrorKind {
        match self {
            Error::BeyondBuffer => ErrorKind::InvalidInput,
            Error::PayloadTooLarge => ErrorKind::InvalidInput,
            Error::EndedWithinFrame => ErrorKind::UnexpectedEof,
            Error::RouterDisconnected => ErrorKind::UnexpectedEof,
            Error::CounterExhausted => ErrorKind::Other,
            Error::HandshakeIdExhausted => ErrorKind::Other,
            Error::TagMismatch => ErrorKind::PermissionDenied,
            Error::WriterBroken => ErrorKind::BrokenPipe,
            Error::AssemblyTimedOut => ErrorKind::TimedOut,
            Error::ConnectTimedOut => ErrorKind::TimedOut,
            _ => ErrorKind::InvalidData,
        }
    }

    /// The words that each error is reported with.
    pub open spec fn spec_message(self) -> Seq<char> {
        match self {
            Error::BeyondBuffer => "frame decoder advanced beyond its buffer"@,
            Error::FrameTooLarge => "frame exceeds the transport limit"@,
            Error::EndedWithinFrame => "connection ended within a frame"@,
            Error::ReceiverFailed => "secure receiver has failed"@,
            Error::CounterExhausted => "nonce counter exhausted"@,
            Error::InvalidFrame => "invalid authenticated frame"@,
            Error::InvalidFrameLength => "invalid authenticated frame length"@,
            Error::UnknownPacketKind => "unknown packet kind"@,
            Error::TagMismatch => "authenticated packet tag mismatch"@,
            Error::PayloadTooLarge => "frame exceeds the transport limit"@,
            Error::UnexpectedHandshake => "unexpected transport handshake record"@,
            Error::WrongRecipient => "transport handshake has the wrong recipient"@,
            Error::InvalidHandshake => "invalid data"@,
            Error::RouteNotCommitted => "verified route has not been committed"@,
            Error::ChallengeActive => "route challenge already active"@,
            Error::InvalidAttachment => "invalid route attachment"@,
            Error::NotAttached => "peer must attach before routing records"@,
            Error::NoChallenge => "no active route challenge"@,
            Error::UnexpectedPacket => "unexpected transport packet"@,
            Error::TransitionActive => "route transition already active"@,
            Error::RouteLimit => "connection route limit reached"@,
            Error::HandshakeIdExhausted => "route handshake ID exhausted"@,
            Error::NoVerifiedRoute => "no verified route to commit"@,
            Error::UnexpectedRouterPacket => "unexpected router packet"@,
            Error::WriterBroken => "sender write was cancelled or failed"@,
            Error::AssemblyTimedOut => "frame assembly timed out"@,
            Error::ConnectTimedOut => "router connection timed out"@,
            Error::RouterDisconnected => "router disconnected"@,
            Error::Rejected(text) => text@,
        }
    }

    /// The class of the error.
    pub fn kind(&self) -> (kind: ErrorKind)
        ensures
            kind == self.spec_kind(),
    {
        match self {
            Error::BeyondBuffer => ErrorKind::InvalidInput,
            Error::PayloadTooLarge => ErrorKind::InvalidInput,
            Error::EndedWithinFrame => ErrorKind::UnexpectedEof,
            Error::RouterDisconnected => ErrorKind::UnexpectedEof,
            Error::CounterExhausted => ErrorKind::Other,
            Error::HandshakeIdExhausted => ErrorKind::Other,
            Error::TagMismatch => ErrorKind::PermissionDenied,
            Error::WriterBroken => ErrorKind::BrokenPipe,
            Error::AssemblyTimedOut => ErrorKind::TimedOut,
            Error::ConnectTimedOut => ErrorKind::TimedOut,
            _ => ErrorKind::InvalidData,
        }
    }

    /// The words that the error is reported with.
    pub fn message(&self) -> (message: String)
        ensures
            message@ == self.spec_message(),
    {
        match self {
            Error::BeyondBuffer => "frame decoder advanced beyond its buffer".to_owned(),
            Error::FrameTooLarge => "frame exceeds the transport limit".to_owned(),
            Error::EndedWithinFrame => "connection ended within a frame".to_owned(),
            Error::ReceiverFailed => "secure receiver has failed".to_owned(),
            Error::CounterExhausted => "nonce counter exhausted".to_owned(),
            Error::InvalidFrame => "invalid authenticated frame".to_owned(),
            Error::InvalidFrameLength => "invalid authenticated frame length".to_owned(),
            Error::UnknownPacketKind => "unknown packet kind".to_owned(),
            Error::TagMismatch => "authenticated packet tag mismatch".to_owned(),
            Error::PayloadTooLarge => "frame exceeds the transport limit".to_owned(),
            Error::UnexpectedHandshake => "unexpected transport handshake record".to_owned(),
            Error::WrongRecipient => "transport handshake has the wrong recipient".to_owned(),
            Error::InvalidHandshake => "invalid data".to_owned(),
            Error::RouteNotCommitted => "verified route has not been committed".to_owned(),
            Error::ChallengeActive => "route challenge already active".to_owned(),
            Error::InvalidAttachment => "invalid route attachment".to_owned(),
            Error::NotAttached => "peer must attach before routing records".to_owned(),
            Error::NoChallenge => "no active route challenge".to_owned(),
            Error::UnexpectedPacket => "unexpected transport packet".to_owned(),
            Error::TransitionActive => "route transition already active".to_owned(),
            Error::RouteLimit => "connection route limit reached".to_owned(),
            Error::HandshakeIdExhausted => "route handshake ID exhausted".to_owned(),
            Error::NoVerifiedRoute => "no verified route to commit".to_owned(),
            Error::UnexpectedRouterPacket => "unexpected router packet".to_owned(),
            Error::WriterBroken => "sender write was cancelled or failed".to_owned(),
            Error::AssemblyTimedOut => "frame assembly timed out".to_owned(),
            Error::ConnectTimedOut => "router connection timed out".to_owned(),
            Error::RouterDisconnected => "router disconnected".to_owned(),
            Error::Rejected(text) => text.clone(),
        }
    }
}

/// The error for data that a codec or a check refused.
pub fn invalid_data(error: String) -> (wrapped: Error)
    ensures
        wrapped == Error::Rejected(error),
        wrapped.spec_kind() == ErrorKind::InvalidData,
{
    Error::Rejected(error)
}

} // verus!
