//! The state of one node of the peer network: its id, the peers it knows, the
//! connections it has, and the rule that says which of two nodes connects to the
//! other.

use crate::connection::Connection;
use crate::table::{has_key, keys_of, texts, Table};
use crate::text::{id_precedes, precedes};
use crate::types::PeerInfo;
use vstd::prelude::*;

verus! {

/// The length of a freshly generated peer id: a UUID in its hyphenated form.
pub const GENERATED_ID_LEN: usize = 36;

/// `uuid::Uuid::new_v4` followed by the UUID's `to_string`: a random version-4
/// UUID in the lower-case hyphenated form, which is 36 characters long. Which
/// UUID comes out is up to the operating system's random source; where that
/// source gives no bytes at all, the call panics.
#[verifier::external_body]
pub(crate) fn random_peer_id() -> (out: String)
    ensures
        out@.len() == GENERATED_ID_LEN,
{
    uuid::Uuid::new_v4().to_string()
}

/// Whether the node with id `me` is the one of the pair that opens the
/// connection to `other`: the one whose id is the greater.
pub open spec fn initiates(me: Seq<char>, other: Seq<char>) -> bool {
    id_precedes(other, me)
}

/// One node of the peer network.
pub struct PeerNetwork {
    /// This node's id, fixed for the life of the node.
    pub peer_id: String,
    /// Every peer that was discovered, by id. A peer can be known without being
    /// connected.
    pub peers: Table<PeerInfo>,
    /// The established connections, by the remote peer's id.
    pub connections: Table<Connection>,
    /// Set once the node is shutting down; every background loop stops on it.
    pub shutdown: bool,
}

impl PeerNetwork {
    /// The node is well formed: no peer is known twice, and no peer has two
    /// connections.
    pub open spec fn wf(&self) -> bool {
        &&& self.peers.wf()
        &&& self.connections.wf()
    }

    /// A node with a fresh random id, no known peers and no connections.
    pub fn new() -> (out: PeerNetwork)
        ensures
            out.wf(),
            out.peer_id@.len() == GENERATED_ID_LEN,
            out.peers@.len() == 0,
            out.connections@.len() == 0,
            !out.shutdown,
    {
        PeerNetwork::with_id(random_peer_id())
    }

    /// A node with the given id, no known peers and no connections.
    pub fn with_id(peer_id: String) -> (out: PeerNetwork)
        ensures
            out.wf(),
            out.peer_id == peer_id,
            out.peers@.len() == 0,
            out.connections@.len() == 0,
            !out.shutdown,
    {
        PeerNetwork { peer_id, peers: Table::new(), connections: Table::new(), shutdown: false }
    }

    /// The table of established connections.
    pub fn get_connections(&self) -> (out: &Table<Connection>)
        ensures
            *out == self.connections,
    {
        &self.connections
    }

    /// The table of discovered peers.
    pub fn get_peers(&self) -> (out: &Table<PeerInfo>)
        ensures
            *out == self.peers,
    {
        &self.peers
    }

    /// Whether this node is the one that opens the connection to the peer: it is
    /// where its own id is the greater of the two. Of two nodes with different
    /// ids exactly one is.
    pub fn initiates_connection(&self, peer_id: &str) -> (out: bool)
        ensures
            out == initiates(self.peer_id@, peer_id@),
    {
        precedes(peer_id, self.peer_id.as_str())
    }

    /// Whether to open a connection to a peer that was just heard of: only where
    /// this node is the initiator of the pair and has no connection to the peer
    /// yet.
    pub fn should_connect(&self, peer_id: &str) -> (out: bool)
        requires
            self.wf(),
        ensures
            out == (initiates(self.peer_id@, peer_id@) && !has_key(self.connections@, peer_id@)),
    {
        self.initiates_connection(peer_id) && !self.connections.contains_key(peer_id)
    }

    /// Begins the shutdown: raises the flag that stops every background loop,
    /// and names the peers that are owed a `Disconnect` message, which is every
    /// connected peer. The connections themselves stay in the table.
    pub fn shutdown(&mut self) -> (out: Vec<String>)
        ensures
            final(self).shutdown,
            final(self).peer_id == old(self).peer_id,
            final(self).peers == old(self).peers,
            final(self).connections == old(self).connections,
            texts(out@) == keys_of(old(self).connections@),
    {
        self.shutdown = true;
        self.connections.keys()
    }

    /// Whether the shutdown has begun: what every background loop asks before
    /// each round.
    pub fn is_shutting_down(&self) -> (out: bool)
        ensures
            out == self.shutdown,
    {
        self.shutdown
    }
}

} // verus!
