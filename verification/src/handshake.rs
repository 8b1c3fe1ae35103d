//! The handshake of the data channel: each side names itself on one line, and a
//! connection exists once both lines are through.

use crate::connection::Connection;
use crate::error::{NetworkError, NetworkErrorView, ProtocolFault};
use crate::network::PeerNetwork;
use crate::table::with_entry;
use crate::text::{same_text, trim_line, trimmed};
use vstd::prelude::*;
use vstd::string::StringExecFns;

verus! {

/// How long an outbound connection attempt may take, in milliseconds.
pub const CONNECTION_TIMEOUT_MS: u64 = 10_000;

impl PeerNetwork {
    /// The line that this node sends in a handshake: its id and a line feed.
    pub fn handshake_line(&self) -> (out: String)
        ensures
            out@ == self.peer_id@.push('\n'),
    {
        let mut out = self.peer_id.clone();
        out.append("\n");
        proof {
            reveal_strlit("\n");
            assert(out@ =~= self.peer_id@.push('\n'));
        }
        out
    }

    /// The verdict on a peer id that was read in a handshake: an id that holds
    /// no character fails with `Protocol(EmptyPeerId)`; any other id is handed
    /// back.
    pub fn checked_peer_id(remote_id: String) -> (out: Result<String, NetworkError>)
        ensures
            remote_id@.len() == 0 ==> out is Err && out.unwrap_err()@
                == NetworkErrorView::Protocol(ProtocolFault::EmptyPeerId),
            remote_id@.len() > 0 ==> out is Ok && out.unwrap() == remote_id,
    {
        if remote_id.as_str().is_empty() {
            Err(NetworkError::Protocol(ProtocolFault::EmptyPeerId))
        } else {
            Ok(remote_id)
        }
    }

    /// The peer id on the line that opens an inbound handshake: the line without
    /// the white space around it. Fails with `Protocol(EmptyPeerId)` where
    /// nothing is left.
    pub fn peer_id_of(line: &str) -> (out: Result<String, NetworkError>)
        ensures
            trimmed(line@).len() == 0 ==> out is Err && out.unwrap_err()@
                == NetworkErrorView::Protocol(ProtocolFault::EmptyPeerId),
            trimmed(line@).len() > 0 ==> out is Ok && out.unwrap()@ == trimmed(line@),
    {
        PeerNetwork::checked_peer_id(trim_line(line))
    }

    /// Completes an inbound handshake at `now` with the peer that named itself
    /// `remote_id`. `reply_written` is what the transport reported for the write
    /// of [`PeerNetwork::handshake_line`] in answer.
    ///
    /// An empty id fails with `Protocol(EmptyPeerId)`; else a failed write fails
    /// with `Transport` and the transport's report; in both the node is
    /// unchanged. Else the connection is stored under the peer's id, in the
    /// place of any that the table had for it, and the id is handed back.
    pub fn accept_peer(
        &mut self,
        remote_id: String,
        reply_written: Result<(), String>,
        now: u64,
    ) -> (out: Result<String, NetworkError>)
        requires
            old(self).wf(),
        ensures
            final(self).wf(),
            final(self).peer_id == old(self).peer_id,
            final(self).peers == old(self).peers,
            final(self).shutdown == old(self).shutdown,
            if remote_id@.len() == 0 {
                out is Err && out.unwrap_err()@ == NetworkErrorView::Protocol(
                    ProtocolFault::EmptyPeerId,
                ) && final(self).connections == old(self).connections
            } else {
                match reply_written {
                    Err(report) => out is Err && out.unwrap_err()@ == NetworkErrorView::Transport(
                        report@,
                    ) && final(self).connections == old(self).connections,
                    Ok(_) => out is Ok && out.unwrap()@ == remote_id@ && final(self).connections@
                        == with_entry(
                        old(self).connections@,
                        remote_id@,
                        Connection { last_activity: now },
                    ),
                }
            },
    {
        match PeerNetwork::checked_peer_id(remote_id) {
            Err(e) => Err(e),
            Ok(id) => match reply_written {
                Err(report) => Err(NetworkError::Transport(report)),
                Ok(()) => {
                    self.connections.insert(id.clone(), Connection::new(now));
                    Ok(id)
                },
            },
        }
    }

    /// Completes an inbound handshake at `now` from the line that the peer
    /// sent: [`PeerNetwork::accept_peer`] for the id on that line.
    pub fn handle_incoming_connection(
        &mut self,
        line: &str,
        reply_written: Result<(), String>,
        now: u64,
    ) -> (out: Result<String, NetworkError>)
        requires
            old(self).wf(),
        ensures
            final(self).wf(),
            final(self).peer_id == old(self).peer_id,
            final(self).peers == old(self).peers,
            final(self).shutdown == old(self).shutdown,
            if trimmed(line@).len() == 0 {
                out is Err && out.unwrap_err()@ == NetworkErrorView::Protocol(
                    ProtocolFault::EmptyPeerId,
                ) && final(self).connections == old(self).connections
            } else {
                match reply_written {
                    Err(report) => out is Err && out.unwrap_err()@ == NetworkErrorView::Transport(
                        report@,
                    ) && final(self).connections == old(self).connections,
                    Ok(_) => out is Ok && out.unwrap()@ == trimmed(line@)
                        && final(self).connections@ == with_entry(
                        old(self).connections@,
                        trimmed(line@),
                        Connection { last_activity: now },
                    ),
                }
            },
    {
        self.accept_peer(trim_line(line), reply_written, now)
    }

    /// Completes an outbound handshake at `now` with the peer that was called
    /// as `peer_id` and named itself `answered_id`. Where the two differ the
    /// handshake fails with `Protocol(UnexpectedPeerId)` and the node is
    /// unchanged. Else the connection is stored under the peer's id, in the
    /// place of any that the table had for it.
    pub fn confirm_peer(&mut self, peer_id: &str, answered_id: &str, now: u64) -> (out: Result<
        (),
        NetworkError,
    >)
        requires
            old(self).wf(),
        ensures
            final(self).wf(),
            final(self).peer_id == old(self).peer_id,
            final(self).peers == old(self).peers,
            final(self).shutdown == old(self).shutdown,
            if answered_id@ == peer_id@ {
                out is Ok && final(self).connections@ == with_entry(
                    old(self).connections@,
                    peer_id@,
                    Connection { last_activity: now },
                )
            } else {
                out is Err && out.unwrap_err()@ == NetworkErrorView::Protocol(
                    ProtocolFault::UnexpectedPeerId,
                ) && final(self).connections == old(self).connections
            },
    {
        if same_text(answered_id, peer_id) {
            self.connections.insert(peer_id.to_owned(), Connection::new(now));
            Ok(())
        } else {
            Err(NetworkError::Protocol(ProtocolFault::UnexpectedPeerId))
        }
    }

    /// Completes an outbound connection attempt to `peer_id` at `now`. `dialed`
    /// is what came of connecting, writing [`PeerNetwork::handshake_line`] and
    /// reading a line back: that line, or the transport's report of what
    /// failed.
    ///
    /// A failed attempt fails with `Transport` and the report, and the node is
    /// unchanged; a line is judged as [`PeerNetwork::confirm_peer`] judges the
    /// id on it. Whether to attempt at all is
    /// [`PeerNetwork::should_connect`]'s to say.
    pub fn connect_to_peer(
        &mut self,
        peer_id: &str,
        dialed: Result<String, String>,
        now: u64,
    ) -> (out: Result<(), NetworkError>)
        requires
            old(self).wf(),
        ensures
            final(self).wf(),
            final(self).peer_id == old(self).peer_id,
            final(self).peers == old(self).peers,
            final(self).shutdown == old(self).shutdown,
            match dialed {
                Err(report) => out is Err && out.unwrap_err()@ == NetworkErrorView::Transport(
                    report@,
                ) && final(self).connections == old(self).connections,
                Ok(line) => if trimmed(line@) == peer_id@ {
                    out is Ok && final(self).connections@ == with_entry(
                        old(self).connections@,
                        peer_id@,
                        Connection { last_activity: now },
                    )
                } else {
                    out is Err && out.unwrap_err()@ == NetworkErrorView::Protocol(
                        ProtocolFault::UnexpectedPeerId,
                    ) && final(self).connections == old(self).connections
                },
            },
    {
        match dialed {
            Err(report) => Err(NetworkError::Transport(report)),
            Ok(line) => {
                let answered = trim_line(line.as_str());
                self.confirm_peer(peer_id, answered.as_str(), now)
            },
        }
    }
}

} // verus!
