//! What can go wrong in the peer network.

use vstd::prelude::*;

verus! {

/// Why a payload was refused before anything was sent.
#[derive(Debug, Clone, Copy, PartialEq, Eq)]
pub enum PayloadFault {
    /// The payload holds no bytes.
    Empty,
    /// The payload is longer than the largest that a message may carry.
    TooLarge,
}

/// How a peer, or a message of the library's own, broke the protocol.
#[derive(Debug, Clone, Copy, PartialEq, Eq)]
pub enum ProtocolFault {
    /// A handshake line held no peer id.
    EmptyPeerId,
    /// The peer that answered a handshake is not the peer that was called.
    UnexpectedPeerId,
    /// A frame announces or would need a payload beyond what a frame may hold.
    OversizedFrame,
    /// The payload of a frame is no message.
    Undecodable,
}

/// The errors of the library.
#[derive(Debug, Clone, PartialEq, Eq)]
pub enum NetworkError {
    /// The payload was empty or too large.
    InvalidInput(PayloadFault),
    /// No connection to the peer with this id.
    NotConnected(String),
    /// The transport failed; the text is its report.
    Transport(String),
    /// The protocol was broken.
    Protocol(ProtocolFault),
}

/// The mathematical value of a [`NetworkError`].
pub enum NetworkErrorView {
    InvalidInput(PayloadFault),
    NotConnected(Seq<char>),
    Transport(Seq<char>),
    Protocol(ProtocolFault),
}

impl View for NetworkError {
    type V = NetworkErrorView;

    open spec fn view(&self) -> NetworkErrorView {
        match self {
            NetworkError::InvalidInput(fault) => NetworkErrorView::InvalidInput(*fault),
            NetworkError::NotConnected(id) => NetworkErrorView::NotConnected(id@),
            NetworkError::Transport(report) => NetworkErrorView::Transport(report@),
            NetworkError::Protocol(fault) => NetworkErrorView::Protocol(*fault),
        }
    }
}

} // verus!
