//! The reader of one connection: what to do with each thing that comes off the
//! socket, from the length prefix of a frame to the end of the connection.

use crate::codec::{
    be32_value, decode_peer_message, frame_length, peer_message_parse, MAX_PAYLOAD_LEN,
};
use crate::connection::Connection;
use crate::error::{NetworkError, NetworkErrorView, ProtocolFault};
use crate::network::PeerNetwork;
use crate::table::{has_key, lemma_without_key, with_entry, without_key};
use crate::types::{PeerMessage, PeerMessageView};
use vstd::prelude::*;

verus! {

/// How long a loop sleeps when its socket has nothing for it, in milliseconds.
pub const POLL_INTERVAL_MS: u64 = 100;

/// What came off a connection's socket.
#[derive(Debug)]
pub enum ReadEvent {
    /// The four bytes of a frame's length prefix.
    Header([u8; 4]),
    /// The payload of a frame, as long as its prefix announced.
    Payload(Vec<u8>),
    /// Nothing yet: the read would have blocked.
    WouldBlock,
    /// The read failed in another way, or the peer closed the connection.
    Failed,
}

/// What a connection's reader does next.
#[derive(Debug, PartialEq, Eq)]
pub enum ReaderAction {
    /// Read the length prefix of the next frame.
    ReadHeader,
    /// Read a payload of this many bytes.
    ReadPayload(usize),
    /// Hand these bytes to the application, then read the next length prefix.
    Deliver(Vec<u8>),
    /// Sleep for the poll interval, then repeat the read that would have blocked.
    Wait,
    /// End the reader. The connection is no longer in the table.
    Stop,
}

/// The mathematical value of a [`ReaderAction`].
pub enum ReaderActionView {
    ReadHeader,
    ReadPayload(usize),
    Deliver(Seq<u8>),
    Wait,
    Stop,
}

impl View for ReaderAction {
    type V = ReaderActionView;

    open spec fn view(&self) -> ReaderActionView {
        match self {
            ReaderAction::ReadHeader => ReaderActionView::ReadHeader,
            ReaderAction::ReadPayload(len) => ReaderActionView::ReadPayload(*len),
            ReaderAction::Deliver(bytes) => ReaderActionView::Deliver(bytes@),
            ReaderAction::Wait => ReaderActionView::Wait,
            ReaderAction::Stop => ReaderActionView::Stop,
        }
    }
}

/// What the reader of a connection that is in the table does on an event.
pub open spec fn reader_action(event: ReadEvent) -> ReaderActionView {
    match event {
        ReadEvent::Header(header) => if be32_value(header@) > MAX_PAYLOAD_LEN {
            ReaderActionView::Stop
        } else {
            ReaderActionView::ReadPayload(be32_value(header@) as usize)
        },
        ReadEvent::Payload(bytes) => match peer_message_parse(bytes@) {
            Some(PeerMessageView::Data(data)) => ReaderActionView::Deliver(data),
            Some(PeerMessageView::Heartbeat) => ReaderActionView::ReadHeader,
            Some(PeerMessageView::Disconnect) => ReaderActionView::Stop,
            None => ReaderActionView::Stop,
        },
        ReadEvent::WouldBlock => ReaderActionView::Wait,
        ReadEvent::Failed => ReaderActionView::Stop,
    }
}

/// Whether an event is a heartbeat of the peer.
pub open spec fn is_heartbeat(event: ReadEvent) -> bool {
    event matches ReadEvent::Payload(bytes) && peer_message_parse(bytes@) == Some(
        PeerMessageView::Heartbeat,
    )
}

impl PeerNetwork {
    /// The number of payload bytes that a frame's length prefix asks the reader
    /// for. Fails with `Protocol(OversizedFrame)` where the prefix announces
    /// more than 1 MiB.
    pub fn payload_length(header: &[u8; 4]) -> (out: Result<usize, NetworkError>)
        ensures
            be32_value(header@) <= MAX_PAYLOAD_LEN ==> out == Ok::<usize, NetworkError>(
                be32_value(header@) as usize,
            ),
            be32_value(header@) > MAX_PAYLOAD_LEN ==> out is Err && out.unwrap_err()@
                == NetworkErrorView::Protocol(ProtocolFault::OversizedFrame),
    {
        let len = frame_length(header);
        if len as usize > MAX_PAYLOAD_LEN {
            Err(NetworkError::Protocol(ProtocolFault::OversizedFrame))
        } else {
            Ok(len as usize)
        }
    }

    /// The message that the payload of a frame holds. Fails with
    /// `Protocol(Undecodable)` where the payload is no message.
    pub fn message_of(payload: &[u8]) -> (out: Result<PeerMessage, NetworkError>)
        ensures
            match peer_message_parse(payload@) {
                Some(message) => out is Ok && out.unwrap()@ == message,
                None => out is Err && out.unwrap_err()@ == NetworkErrorView::Protocol(
                    ProtocolFault::Undecodable,
                ),
            },
    {
        match decode_peer_message(payload) {
            Some(message) => Ok(message),
            None => Err(NetworkError::Protocol(ProtocolFault::Undecodable)),
        }
    }

    /// One step of the reader of the connection to `peer_id`: what to do on an
    /// event that came off the socket at `now`.
    ///
    /// A reader whose connection is no longer in the table stops. Else: a
    /// length prefix beyond 1 MiB stops the reader, any other asks for that many
    /// bytes of payload; a payload that is a `Data` message is delivered, a
    /// heartbeat counts as activity, a `Disconnect` stops the reader, and so do
    /// bytes that are no message; a read that would have blocked is waited for;
    /// any other failure stops the reader. A reader that stops takes its
    /// connection out of the table in the same step.
    pub fn reader_step(&mut self, peer_id: &str, event: ReadEvent, now: u64) -> (out: ReaderAction)
        requires
            old(self).wf(),
        ensures
            final(self).wf(),
            final(self).peer_id == old(self).peer_id,
            final(self).peers == old(self).peers,
            final(self).shutdown == old(self).shutdown,
            !has_key(old(self).connections@, peer_id@) ==> out@ == ReaderActionView::Stop
                && final(self).connections == old(self).connections,
            has_key(old(self).connections@, peer_id@) ==> out@ == reader_action(event),
            has_key(old(self).connections@, peer_id@) ==> final(self).connections@ == if out@
                is Stop {
                without_key(old(self).connections@, peer_id@)
            } else if is_heartbeat(event) {
                with_entry(old(self).connections@, peer_id@, Connection { last_activity: now })
            } else {
                old(self).connections@
            },
            out@ is Stop ==> !has_key(final(self).connections@, peer_id@),
    {
        proof {
            lemma_without_key(self.connections@, peer_id@);
        }
        if !self.connections.contains_key(peer_id) {
            return ReaderAction::Stop;
        }
        match event {
            ReadEvent::Header(header) => match PeerNetwork::payload_length(&header) {
                Ok(len) => ReaderAction::ReadPayload(len),
                Err(_) => {
                    self.connections.remove(peer_id);
                    ReaderAction::Stop
                },
            },
            ReadEvent::Payload(bytes) => match PeerNetwork::message_of(bytes.as_slice()) {
                Ok(PeerMessage::Data(data)) => ReaderAction::Deliver(data),
                Ok(PeerMessage::Heartbeat) => {
                    self.connections.insert(peer_id.to_owned(), Connection::new(now));
                    ReaderAction::ReadHeader
                },
                Ok(PeerMessage::Disconnect) => {
                    self.connections.remove(peer_id);
                    ReaderAction::Stop
                },
                Err(_) => {
                    self.connections.remove(peer_id);
                    ReaderAction::Stop
                },
            },
            ReadEvent::WouldBlock => ReaderAction::Wait,
            ReadEvent::Failed => {
                self.connections.remove(peer_id);
                ReaderAction::Stop
            },
        }
    }
}

} // verus!
