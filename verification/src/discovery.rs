//! The discovery service: what a node does with the datagrams of the multicast
//! channel, and when it announces itself.

use crate::connection::Connection;
use crate::datagram::{decode_discovery_message, discovery_message_parse};
use crate::network::{initiates, PeerNetwork};
use crate::table::{distinct_keys, has_key, index_of_key, lemma_index_of_key, with_entry};
use crate::text::same_text;
use crate::types::{
    DiscoveryMessage, DiscoveryMessageView, PeerAddress, PeerInfo, PeerInfoView,
};
use vstd::prelude::*;

verus! {

/// Time between two announcements on the discovery channel, in milliseconds.
pub const DISCOVERY_INTERVAL_MS: u64 = 5_000;

/// The multicast group of the discovery channel.
pub const MULTICAST_GROUP: [u8; 4] = [239, 255, 42, 1];

/// The UDP port of the discovery channel.
pub const MULTICAST_PORT: u16 = 8888;

/// The peer table with each record as its mathematical value.
pub open spec fn peer_records(peers: Seq<(Seq<char>, PeerInfo)>) -> Seq<(Seq<char>, PeerInfoView)> {
    Seq::new(peers.len(), |i: int| (peers[i].0, peers[i].1@))
}

/// The peer table of the node with id `me` once it has heard of the node that
/// `info` describes: the record is stored under the node's id, unless the node
/// is `me` itself.
pub open spec fn peers_with(
    me: Seq<char>,
    known: Seq<(Seq<char>, PeerInfoView)>,
    info: PeerInfoView,
) -> Seq<(Seq<char>, PeerInfoView)> {
    if info.id != me {
        with_entry(known, info.id, info)
    } else {
        known
    }
}

/// The peer that the node with id `me` opens a connection to once it has heard
/// of the node that `info` describes: that node, where it is another node, `me`
/// is the initiator of the pair, and no connection to it exists yet.
pub open spec fn peer_to_connect(
    me: Seq<char>,
    connections: Seq<(Seq<char>, Connection)>,
    info: PeerInfoView,
) -> Option<PeerInfoView> {
    if info.id != me && initiates(me, info.id) && !has_key(connections, info.id) {
        Some(info)
    } else {
        None
    }
}

/// The peer table after a discovery message that arrived at `now` (Unix
/// seconds) at the node with id `me`: an announcement or a response of another
/// node stores that node's record under its id; a heartbeat of another node that
/// is known sets the time at which it was last seen; anything else changes
/// nothing.
pub open spec fn discovery_peers(
    me: Seq<char>,
    known: Seq<(Seq<char>, PeerInfoView)>,
    message: DiscoveryMessageView,
    now: u64,
) -> Seq<(Seq<char>, PeerInfoView)> {
    match message {
        DiscoveryMessageView::Announce(info) => peers_with(me, known, info),
        DiscoveryMessageView::Response(info) => peers_with(me, known, info),
        DiscoveryMessageView::Heartbeat(id) => if id != me && has_key(known, id) {
            let i = index_of_key(known, id);
            let seen = PeerInfoView {
                id: known[i].1.id,
                tcp_addr: known[i].1.tcp_addr,
                last_seen: now,
            };
            known.update(i, (id, seen))
        } else {
            known
        },
    }
}

/// The answer that a discovery message is owed: the announcement of another node
/// is answered with this node's own record; nothing else is answered.
pub open spec fn discovery_reply(
    me: Seq<char>,
    message: DiscoveryMessageView,
    my_info: PeerInfoView,
) -> Option<DiscoveryMessageView> {
    match message {
        DiscoveryMessageView::Announce(info) => if info.id != me {
            Some(DiscoveryMessageView::Response(my_info))
        } else {
            None
        },
        _ => None,
    }
}

/// The peer that a discovery message makes this node open a connection to: the
/// other node that announced itself or responded, where this node is the
/// initiator of the pair and has no connection to it yet.
pub open spec fn discovery_connect(
    me: Seq<char>,
    connections: Seq<(Seq<char>, Connection)>,
    message: DiscoveryMessageView,
) -> Option<PeerInfoView> {
    match message {
        DiscoveryMessageView::Announce(info) => peer_to_connect(me, connections, info),
        DiscoveryMessageView::Response(info) => peer_to_connect(me, connections, info),
        DiscoveryMessageView::Heartbeat(_) => None,
    }
}

/// The mapping of the peer table to mathematical records keeps every question
/// about keys, and commutes with storing a record.
pub proof fn lemma_peer_records(peers: Seq<(Seq<char>, PeerInfo)>)
    requires
        distinct_keys(peers),
    ensures
        distinct_keys(peer_records(peers)),
        peer_records(peers).len() == peers.len(),
        forall|id: Seq<char>| has_key(peer_records(peers), id) == has_key(peers, id),
        forall|id: Seq<char>| #[trigger]
            has_key(peers, id) ==> index_of_key(peer_records(peers), id) == index_of_key(peers, id),
{
    let r = peer_records(peers);
    assert forall|a: int, b: int| 0 <= a < r.len() && 0 <= b < r.len() && a != b implies (
    #[trigger] r[a]).0 != (#[trigger] r[b]).0 by {
        assert(peers[a].0 != peers[b].0);
    }
    assert forall|id: Seq<char>| has_key(r, id) == has_key(peers, id) by {
        if has_key(r, id) {
            let i = index_of_key(r, id);
            assert(peers[i].0 == id);
        }
        if has_key(peers, id) {
            let i = index_of_key(peers, id);
            assert(r[i].0 == id);
        }
    }
    assert forall|id: Seq<char>| #[trigger] has_key(peers, id) implies index_of_key(r, id)
        == index_of_key(peers, id) by {
        let i = index_of_key(peers, id);
        assert(r[i].0 == id);
        lemma_index_of_key(r, id, i);
    }
}

/// Storing a record and then taking the mathematical records is storing the
/// mathematical record.
pub proof fn lemma_peer_records_with_entry(
    peers: Seq<(Seq<char>, PeerInfo)>,
    id: Seq<char>,
    info: PeerInfo,
)
    requires
        distinct_keys(peers),
    ensures
        peer_records(with_entry(peers, id, info)) == with_entry(peer_records(peers), id, info@),
{
    lemma_peer_records(peers);
    if has_key(peers, id) {
        assert(has_key(peer_records(peers), id));
    }
    assert(peer_records(with_entry(peers, id, info)) =~= with_entry(
        peer_records(peers),
        id,
        info@,
    ));
}

/// What a discovery message asks the discovery loop to do.
#[derive(Debug)]
pub struct DiscoveryReaction {
    /// A message to send to the multicast group in answer.
    pub reply: Option<DiscoveryMessage>,
    /// A peer to open a connection to.
    pub connect_to: Option<PeerInfo>,
}

impl PeerNetwork {
    /// This node's own record as it announces it: its id, the address that it
    /// listens on, and `now` in Unix seconds.
    pub fn local_info(&self, tcp_addr: PeerAddress, now: u64) -> (out: PeerInfo)
        ensures
            out@ == (PeerInfoView { id: self.peer_id@, tcp_addr: tcp_addr@, last_seen: now }),
    {
        PeerInfo { id: self.peer_id.clone(), tcp_addr, last_seen: now }
    }

    /// Whether the discovery loop is to announce again: once the discovery
    /// interval has passed since the last announcement. Both times are in
    /// milliseconds on one monotonic clock.
    pub fn announce_due(last_announce: u64, now: u64) -> (out: bool)
        ensures
            out == (now - last_announce >= DISCOVERY_INTERVAL_MS),
    {
        now >= last_announce && now - last_announce >= DISCOVERY_INTERVAL_MS
    }

    /// Stores the record of another node that was heard of, and says whether
    /// to open a connection to it.
    fn note_peer(&mut self, info: PeerInfo) -> (out: Option<PeerInfo>)
        requires
            old(self).wf(),
            info.id@ != old(self).peer_id@,
        ensures
            final(self).wf(),
            final(self).peer_id == old(self).peer_id,
            final(self).connections == old(self).connections,
            final(self).shutdown == old(self).shutdown,
            peer_records(final(self).peers@) == peers_with(
                old(self).peer_id@,
                peer_records(old(self).peers@),
                info@,
            ),
            match peer_to_connect(old(self).peer_id@, old(self).connections@, info@) {
                Some(peer) => out is Some && out.unwrap()@ == peer,
                None => out is None,
            },
    {
        let connect_to = if self.should_connect(info.id.as_str()) {
            Some(info.clone())
        } else {
            None
        };
        let key = info.id.clone();
        proof {
            lemma_peer_records_with_entry(self.peers@, key@, info);
        }
        self.peers.insert(key, info);
        connect_to
    }

    /// Takes in one discovery message that arrived at `now` (Unix seconds).
    /// `my_info` is the record that this node announces.
    ///
    /// A message that carries this node's own id is ignored. The announcement
    /// or response of another node stores its record; an announcement is
    /// answered with this node's record; and the node is connected to where this
    /// node is the initiator of the pair and not connected yet. A heartbeat
    /// refreshes the time at which a known peer was last seen.
    pub fn handle_discovery_message(
        &mut self,
        message: DiscoveryMessage,
        my_info: &PeerInfo,
        now: u64,
    ) -> (out: DiscoveryReaction)
        requires
            old(self).wf(),
        ensures
            final(self).wf(),
            final(self).peer_id == old(self).peer_id,
            final(self).connections == old(self).connections,
            final(self).shutdown == old(self).shutdown,
            peer_records(final(self).peers@) == discovery_peers(
                old(self).peer_id@,
                peer_records(old(self).peers@),
                message@,
                now,
            ),
            match discovery_reply(old(self).peer_id@, message@, my_info@) {
                Some(reply) => out.reply is Some && out.reply.unwrap()@ == reply,
                None => out.reply is None,
            },
            match discovery_connect(old(self).peer_id@, old(self).connections@, message@) {
                Some(peer) => out.connect_to is Some && out.connect_to.unwrap()@ == peer,
                None => out.connect_to is None,
            },
    {
        proof {
            lemma_peer_records(self.peers@);
        }
        match message {
            DiscoveryMessage::Announce(info) => {
                if same_text(info.id.as_str(), self.peer_id.as_str()) {
                    return DiscoveryReaction { reply: None, connect_to: None };
                }
                let connect_to = self.note_peer(info);
                DiscoveryReaction {
                    reply: Some(DiscoveryMessage::Response(my_info.clone())),
                    connect_to,
                }
            },
            DiscoveryMessage::Response(info) => {
                if same_text(info.id.as_str(), self.peer_id.as_str()) {
                    return DiscoveryReaction { reply: None, connect_to: None };
                }
                let connect_to = self.note_peer(info);
                DiscoveryReaction { reply: None, connect_to }
            },
            DiscoveryMessage::Heartbeat(id) => {
                if !same_text(id.as_str(), self.peer_id.as_str()) {
                    match self.peers.position(id.as_str()) {
                        Some(i) => {
                            let known = self.peers.value_at(i);
                            let seen = PeerInfo {
                                id: known.id.clone(),
                                tcp_addr: known.tcp_addr,
                                last_seen: now,
                            };
                            self.peers.set_value_at(i, seen);
                            proof {
                                assert(peer_records(self.peers@) =~= discovery_peers(
                                    old(self).peer_id@,
                                    peer_records(old(self).peers@),
                                    message@,
                                    now,
                                ));
                            }
                        },
                        None => {},
                    }
                }
                DiscoveryReaction { reply: None, connect_to: None }
            },
        }
    }

    /// Takes in one datagram of the discovery channel that arrived at `now`
    /// (Unix seconds): decodes it and handles the message as
    /// [`PeerNetwork::handle_discovery_message`] does. A malformed datagram is
    /// dropped: it changes nothing and asks for nothing.
    pub fn handle_datagram(&mut self, datagram: &[u8], my_info: &PeerInfo, now: u64) -> (out:
        DiscoveryReaction)
        requires
            old(self).wf(),
        ensures
            final(self).wf(),
            final(self).peer_id == old(self).peer_id,
            final(self).connections == old(self).connections,
            final(self).shutdown == old(self).shutdown,
            match discovery_message_parse(datagram@) {
                Some(message) => {
                    &&& peer_records(final(self).peers@) == discovery_peers(
                        old(self).peer_id@,
                        peer_records(old(self).peers@),
                        message,
                        now,
                    )
                    &&& match discovery_reply(old(self).peer_id@, message, my_info@) {
                        Some(reply) => out.reply is Some && out.reply.unwrap()@ == reply,
                        None => out.reply is None,
                    }
                    &&& match discovery_connect(
                        old(self).peer_id@,
                        old(self).connections@,
                        message,
                    ) {
                        Some(peer) => out.connect_to is Some && out.connect_to.unwrap()@ == peer,
                        None => out.connect_to is None,
                    }
                },
                None => final(self).peers == old(self).peers && out.reply is None
                    && out.connect_to is None,
            },
    {
        match decode_discovery_message(datagram) {
            Some(message) => self.handle_discovery_message(message, my_info, now),
            None => DiscoveryReaction { reply: None, connect_to: None },
        }
    }
}

} // verus!
