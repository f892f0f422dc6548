//! What can go wrong with a connection or with its handshake.

use vstd::prelude::*;

use crate::frame::Data;

verus! {

/// How the server's choice of a subprotocol can be wrong.
#[derive(Debug, Clone, Copy, PartialEq, Eq)]
pub enum SubProtocolError {
    /// The server chose one although none was offered.
    ServerSentSubProtocolNoneRequested,
    /// The server chose one that was not offered.
    InvalidSubProtocol,
    /// The server chose none although some were offered.
    NoSubProtocol,
}

/// How the peer can break the WebSocket protocol.
#[derive(Debug, Clone, Copy, PartialEq, Eq)]
pub enum ProtocolError {
    /// The answer has no `Connection: Upgrade` field.
    MissingConnectionUpgradeHeader,
    /// The answer has no `Upgrade: websocket` field.
    MissingUpgradeWebSocketHeader,
    /// The answer does not prove that the server read the request's key.
    SecWebSocketAcceptKeyMismatch,
    /// The server's choice of a subprotocol is wrong.
    SecWebSocketSubProtocolError(SubProtocolError),
    /// A frame has a reserved bit set.
    NonZeroReservedBits,
    /// A frame from the server is masked.
    MaskedFrameFromServer,
    /// A control frame is not final.
    FragmentedControlFrame,
    /// The payload of a control frame is too long.
    ControlFrameTooBig,
    /// A control frame has an operation code without a meaning.
    UnknownControlFrameType(u8),
    /// A data frame has an operation code without a meaning.
    UnknownDataFrameType(u8),
    /// A continuation came while no message was open.
    UnexpectedContinueFrame,
    /// A new message began while another was still open.
    ExpectedFragment(Data),
}

/// Why an operation on a connection failed.  `E` is the socket's own error.
#[derive(Debug, PartialEq, Eq)]
pub enum ConnError<E> {
    /// The peer broke the protocol.
    Protocol(ProtocolError),
    /// The peer sent a text message.
    InvalidMessageType,
    /// The writing side has been closed.
    Closed,
    /// The socket failed.
    Socket(E),
}

impl<E> ConnError<E> {
    /// The wording of the errors that are neither the protocol's nor the
    /// socket's.
    pub open spec fn wording(self) -> Option<Seq<char>> {
        match self {
            ConnError::InvalidMessageType => Some("ws invalid message type"@),
            ConnError::Closed => Some("ws closed"@),
            ConnError::Protocol(_) | ConnError::Socket(_) => None,
        }
    }

    /// What the error says, unless the protocol error or the socket error in it
    /// speaks for itself.
    pub fn message(&self) -> (text: Option<&'static str>)
        ensures
            text is Some <==> self.wording() is Some,
            text matches Some(t) ==> Some(t@) == self.wording(),
    {
        match self {
            ConnError::InvalidMessageType => Some("ws invalid message type"),
            ConnError::Closed => Some("ws closed"),
            ConnError::Protocol(_) => None,
            ConnError::Socket(_) => None,
        }
    }
}

/// Each error that the connection words itself has its own words; the others
/// speak for themselves.
pub proof fn law_errors_have_their_words<E>(error: ConnError<E>, text: Option<&'static str>)
    requires
        call_ensures(ConnError::<E>::message, (&error,), text),
    ensures
        error is InvalidMessageType ==> text is Some && text->Some_0@
            == "ws invalid message type"@,
        error is Closed ==> text is Some && text->Some_0@ == "ws closed"@,
        error is Protocol || error is Socket ==> text is None,
{
}

} // verus!
