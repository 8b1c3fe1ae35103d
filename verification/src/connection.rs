//! One established connection as the protocol sees it: the peer is reachable and
//! was last heard from at a known time. The socket itself belongs to the
//! program.

use crate::codec::{
    encode_peer_message, frame, frame_bytes, lemma_peer_message_len, peer_message_bytes,
};
use crate::error::{NetworkError, NetworkErrorView, ProtocolFault};
use crate::types::{PeerMessage, PeerMessageView};
use vstd::prelude::*;

verus! {

/// Time between two heartbeat passes, in milliseconds.
pub const HEARTBEAT_INTERVAL_MS: u64 = 30_000;

/// A connection that has been silent for longer than this is stale: twice the
/// heartbeat interval, in milliseconds.
pub const STALE_AFTER_MS: u64 = 60_000;

/// Whether a connection last active at `last_activity` is stale at `now`, both
/// in milliseconds on one monotonic clock. A clock reading that lies before the
/// last activity counts as no time passed.
pub open spec fn stale_at(last_activity: u64, now: u64) -> bool {
    now - last_activity > STALE_AFTER_MS
}

/// The frame that carries a message, where one can: the encoded message must fit
/// the length prefix.
pub open spec fn message_frame(message: PeerMessageView) -> Option<Seq<u8>> {
    if peer_message_bytes(message).len() <= u32::MAX {
        Some(frame_bytes(peer_message_bytes(message)))
    } else {
        None
    }
}

/// An established connection to one peer.
#[derive(Debug, Clone, Copy, PartialEq, Eq)]
pub struct Connection {
    /// When the peer was last heard from: the time at which the connection was
    /// established or, if later, at which its last heartbeat arrived, in
    /// milliseconds on the caller's monotonic clock.
    pub last_activity: u64,
}

impl Connection {
    /// A connection established at `now`.
    pub fn new(now: u64) -> (out: Connection)
        ensures
            out.last_activity == now,
    {
        Connection { last_activity: now }
    }

    /// The bytes to put on the wire for a message: its frame.
    /// Fails with `Protocol(OversizedFrame)` where the encoded message does not
    /// fit a frame.
    pub fn frame_message(message: &PeerMessage) -> (out: Result<Vec<u8>, NetworkError>)
        ensures
            match message_frame(message@) {
                Some(bytes) => out is Ok && out.unwrap()@ == bytes,
                None => out is Err && out.unwrap_err()@ == NetworkErrorView::Protocol(
                    ProtocolFault::OversizedFrame,
                ),
            },
    {
        let payload = encode_peer_message(message);
        match frame(payload.as_slice()) {
            Some(bytes) => Ok(bytes),
            None => Err(NetworkError::Protocol(ProtocolFault::OversizedFrame)),
        }
    }

    /// Books the outcome of writing a message's frame to the peer. `written` is
    /// what the transport reported. A message that has no frame fails with
    /// `Protocol(OversizedFrame)`; a failed write fails with `Transport` and the
    /// transport's report. Writing to a peer is no sign of life from it: the
    /// time of the connection's last activity stays what it was.
    pub fn send_message(&self, message: &PeerMessage, written: Result<(), String>) -> (out: Result<
        (),
        NetworkError,
    >)
        ensures
            message_frame(message@) is None ==> out is Err && out.unwrap_err()@
                == NetworkErrorView::Protocol(ProtocolFault::OversizedFrame),
            message_frame(message@) is Some && written is Err ==> out is Err
                && out.unwrap_err()@ == NetworkErrorView::Transport(written.unwrap_err()@),
            message_frame(message@) is Some && written is Ok ==> out is Ok,
    {
        match Connection::frame_message(message) {
            Err(e) => Err(e),
            Ok(_) => match written {
                Err(report) => Err(NetworkError::Transport(report)),
                Ok(()) => Ok(()),
            },
        }
    }

    /// Whether the connection has been silent for longer than twice the
    /// heartbeat interval at `now`.
    pub fn is_stale(&self, now: u64) -> (out: bool)
        ensures
            out == stale_at(self.last_activity, now),
    {
        now > self.last_activity && now - self.last_activity > STALE_AFTER_MS
    }
}

/// A message whose payload is at most `u32::MAX - 6` bytes long has a frame.
pub proof fn lemma_message_has_frame(message: PeerMessageView)
    requires
        message matches PeerMessageView::Data(bytes) ==> bytes.len() <= u32::MAX - 6,
    ensures
        message_frame(message) is Some,
{
    lemma_peer_message_len(message);
}

} // verus!
