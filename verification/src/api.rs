//! The messaging API of a node: unicast and broadcast with per-recipient
//! accounting, introspection of the two tables, and disconnecting.
//!
//! The node writes to no socket. A sending operation is told what the transport
//! reported for the frames it had to write, and books that. Writing to a peer
//! is no sign of life from it, so no send touches the time of a connection's
//! last activity.

use crate::codec::{frame_bytes, peer_message_bytes, MAX_PAYLOAD_LEN};
use crate::connection::{lemma_message_has_frame, Connection};
use crate::error::{NetworkError, NetworkErrorView, PayloadFault};
use crate::network::PeerNetwork;
use crate::table::{
    has_key, index_of_key, keys_of, lemma_keys_of, lemma_without_key, lemma_without_keys, texts,
    value_of, without_key, without_keys, Table,
};
use crate::types::{PeerInfo, PeerMessage, PeerMessageView};
use vstd::prelude::*;
use vstd::utf8::encode_utf8;

verus! {

/// How many entries of `s` are a success (`ok` is true) or a failure (`ok` is
/// false).
pub open spec fn count_outcomes(s: Seq<(Seq<char>, Result<(), String>)>, ok: bool) -> nat
    decreases s.len(),
{
    if s.len() == 0 {
        0
    } else {
        count_outcomes(s.drop_last(), ok) + if s.last().1 is Ok == ok {
            1nat
        } else {
            0nat
        }
    }
}

/// How many entries of `s` are a success.
pub open spec fn count_ok(s: Seq<(Seq<char>, Result<(), String>)>) -> nat {
    count_outcomes(s, true)
}

/// How many entries of `s` are a failure.
pub open spec fn count_err(s: Seq<(Seq<char>, Result<(), String>)>) -> nat {
    count_outcomes(s, false)
}

/// The ids of the entries of `s` that are a success, in order.
pub open spec fn ok_ids(s: Seq<(Seq<char>, Result<(), String>)>) -> Seq<Seq<char>>
    decreases s.len(),
{
    if s.len() == 0 {
        Seq::empty()
    } else if s.last().1 is Ok {
        ok_ids(s.drop_last()).push(s.last().0)
    } else {
        ok_ids(s.drop_last())
    }
}

/// The entries of `s` that are a failure, each as id and error text, in order.
pub open spec fn err_reports(s: Seq<(Seq<char>, Result<(), String>)>) -> Seq<
    (Seq<char>, Seq<char>),
>
    decreases s.len(),
{
    if s.len() == 0 {
        Seq::empty()
    } else if s.last().1 is Err {
        err_reports(s.drop_last()).push((s.last().0, s.last().1->Err_0@))
    } else {
        err_reports(s.drop_last())
    }
}

/// No entry of `s` has an outcome exactly where every entry has the other.
pub proof fn lemma_no_outcome(s: Seq<(Seq<char>, Result<(), String>)>, ok: bool)
    ensures
        count_outcomes(s, ok) == 0 <==> (forall|i: int|
            0 <= i < s.len() ==> (#[trigger] s[i]).1 is Ok != ok),
    decreases s.len(),
{
    if s.len() > 0 {
        let front = s.drop_last();
        lemma_no_outcome(front, ok);
        assert forall|i: int| 0 <= i < front.len() implies (#[trigger] front[i]) == s[i] by {}
        if count_outcomes(s, ok) == 0 {
            assert forall|i: int| 0 <= i < s.len() implies (#[trigger] s[i]).1 is Ok != ok by {
                if i < front.len() {
                    assert(front[i] == s[i]);
                }
            }
        }
        if forall|i: int| 0 <= i < s.len() ==> (#[trigger] s[i]).1 is Ok != ok {
            assert(s[s.len() - 1].1 is Ok != ok);
            assert forall|i: int| 0 <= i < front.len() implies (#[trigger] front[i]).1 is Ok
                != ok by {
                assert(s[i].1 is Ok != ok);
            }
        }
    }
}

/// Every entry is a success or a failure, so the two counts add up; and a count
/// is zero exactly where every entry is of the other kind.
pub proof fn lemma_counts_add_up(s: Seq<(Seq<char>, Result<(), String>)>)
    ensures
        count_ok(s) + count_err(s) == s.len(),
        ok_ids(s).len() == count_ok(s),
        err_reports(s).len() == count_err(s),
        count_err(s) == 0 <==> (forall|i: int| 0 <= i < s.len() ==> (#[trigger] s[i]).1 is Ok),
        count_ok(s) == 0 <==> (forall|i: int| 0 <= i < s.len() ==> (#[trigger] s[i]).1 is Err),
    decreases s.len(),
{
    lemma_no_outcome(s, true);
    lemma_no_outcome(s, false);
    if s.len() > 0 {
        lemma_counts_add_up(s.drop_last());
    }
}

/// What a broadcast did, peer by peer.
#[derive(Debug)]
pub struct BroadcastResult {
    /// For each peer that the broadcast went to: `Ok`, or the transport's report
    /// of why the send failed.
    pub results: Table<Result<(), String>>,
}

impl BroadcastResult {
    /// The number of entries that are a success, or of those that are a
    /// failure.
    fn count(&self, ok: bool) -> (out: usize)
        ensures
            out == count_outcomes(self.results@, ok),
    {
        let mut count: usize = 0;
        let mut i: usize = 0;
        let n = self.results.len();
        proof {
            assert(self.results@.take(0) =~= Seq::empty());
        }
        while i < n
            invariant
                0 <= i <= n,
                n == self.results@.len(),
                count == count_outcomes(self.results@.take(i as int), ok),
                count <= i,
            decreases n - i,
        {
            proof {
                assert(self.results@.take(i + 1).drop_last() =~= self.results@.take(i as int));
            }
            if self.results.value_at(i).is_ok() == ok {
                count += 1;
            }
            i += 1;
        }
        proof {
            assert(self.results@.take(n as int) =~= self.results@);
        }
        count
    }

    /// The number of peers that the message was sent to.
    pub fn successful_count(&self) -> (out: usize)
        ensures
            out == count_ok(self.results@),
    {
        self.count(true)
    }

    /// The number of peers that the message could not be sent to.
    pub fn failed_count(&self) -> (out: usize)
        ensures
            out == count_err(self.results@),
    {
        self.count(false)
    }

    /// The ids of the peers that the message was sent to, in the order of
    /// `results`.
    pub fn successful_peers(&self) -> (out: Vec<&String>)
        ensures
            Seq::new(out@.len(), |i: int| out@[i]@) == ok_ids(self.results@),
    {
        let mut out: Vec<&String> = Vec::new();
        let mut i: usize = 0;
        let n = self.results.len();
        proof {
            assert(self.results@.take(0) =~= Seq::empty());
            assert(Seq::new(out@.len(), |k: int| out@[k]@) =~= ok_ids(self.results@.take(0)));
        }
        while i < n
            invariant
                0 <= i <= n,
                n == self.results@.len(),
                Seq::new(out@.len(), |k: int| out@[k]@) == ok_ids(self.results@.take(i as int)),
            decreases n - i,
        {
            let ghost before = Seq::new(out@.len(), |k: int| out@[k]@);
            proof {
                assert(self.results@.take(i + 1).drop_last() =~= self.results@.take(i as int));
            }
            if self.results.value_at(i).is_ok() {
                out.push(self.results.key_at(i));
                proof {
                    assert(Seq::new(out@.len(), |k: int| out@[k]@) =~= before.push(
                        self.results@[i as int].0,
                    ));
                }
            } else {
                proof {
                    assert(Seq::new(out@.len(), |k: int| out@[k]@) =~= before);
                }
            }
            i += 1;
        }
        proof {
            assert(self.results@.take(n as int) =~= self.results@);
        }
        out
    }

    /// The peers that the message could not be sent to, each with the
    /// transport's report, in the order of `results`.
    pub fn failed_peers(&self) -> (out: Vec<(&String, &String)>)
        ensures
            Seq::new(out@.len(), |i: int| (out@[i].0@, out@[i].1@)) == err_reports(self.results@),
    {
        let mut out: Vec<(&String, &String)> = Vec::new();
        let mut i: usize = 0;
        let n = self.results.len();
        proof {
            assert(self.results@.take(0) =~= Seq::empty());
            assert(Seq::new(out@.len(), |k: int| (out@[k].0@, out@[k].1@)) =~= err_reports(
                self.results@.take(0),
            ));
        }
        while i < n
            invariant
                0 <= i <= n,
                n == self.results@.len(),
                Seq::new(out@.len(), |k: int| (out@[k].0@, out@[k].1@)) == err_reports(
                    self.results@.take(i as int),
                ),
            decreases n - i,
        {
            let ghost before = Seq::new(out@.len(), |k: int| (out@[k].0@, out@[k].1@));
            proof {
                assert(self.results@.take(i + 1).drop_last() =~= self.results@.take(i as int));
            }
            match self.results.value_at(i) {
                Err(report) => {
                    out.push((self.results.key_at(i), report));
                    proof {
                        assert(Seq::new(out@.len(), |k: int| (out@[k].0@, out@[k].1@))
                            =~= before.push((self.results@[i as int].0, report@)));
                    }
                },
                Ok(_) => {
                    proof {
                        assert(Seq::new(out@.len(), |k: int| (out@[k].0@, out@[k].1@)) =~= before);
                    }
                },
            }
            i += 1;
        }
        proof {
            assert(self.results@.take(n as int) =~= self.results@);
        }
        out
    }

    /// Whether no send failed. True of a broadcast that went to nobody.
    pub fn is_complete_success(&self) -> (out: bool)
        ensures
            out == (forall|i: int|
                0 <= i < self.results@.len() ==> (#[trigger] self.results@[i]).1 is Ok),
            out == (count_err(self.results@) == 0),
    {
        proof {
            lemma_counts_add_up(self.results@);
        }
        self.failed_count() == 0
    }

    /// Whether no send succeeded. True of a broadcast that went to nobody.
    pub fn is_complete_failure(&self) -> (out: bool)
        ensures
            out == (forall|i: int|
                0 <= i < self.results@.len() ==> (#[trigger] self.results@[i]).1 is Err),
            out == (count_ok(self.results@) == 0),
    {
        proof {
            lemma_counts_add_up(self.results@);
        }
        self.successful_count() == 0
    }
}

/// The size of a node's two tables, and its id.
#[derive(Debug, Clone)]
pub struct NetworkStats {
    pub connected_peers: usize,
    pub discovered_peers: usize,
    pub peer_id: String,
}

/// Why the messaging API refuses a payload, or `None` for one that it accepts: a
/// payload must hold at least one byte and at most 1 MiB.
pub open spec fn payload_fault(data: Seq<u8>) -> Option<PayloadFault> {
    if data.len() == 0 {
        Some(PayloadFault::Empty)
    } else if data.len() > MAX_PAYLOAD_LEN {
        Some(PayloadFault::TooLarge)
    } else {
        None
    }
}

/// The frame that carries a payload as a `Data` message.
pub open spec fn data_frame_bytes(data: Seq<u8>) -> Seq<u8> {
    frame_bytes(peer_message_bytes(PeerMessageView::Data(data)))
}

/// What a broadcast records for a peer: the transport's report where the send to
/// the peer is among the failures, success otherwise.
pub open spec fn outcome_for(failures: Seq<(Seq<char>, String)>, id: Seq<char>) -> Result<
    (),
    String,
> {
    match value_of(failures, id) {
        Some(report) => Err(report),
        None => Ok(()),
    }
}

/// The per-peer results of a broadcast over `connections`: one entry for each
/// connection, in the order of the table.
pub open spec fn broadcast_results(
    connections: Seq<(Seq<char>, Connection)>,
    failures: Seq<(Seq<char>, String)>,
) -> Seq<(Seq<char>, Result<(), String>)> {
    Seq::new(
        connections.len(),
        |i: int| (connections[i].0, outcome_for(failures, connections[i].0)),
    )
}

/// How many of the connections are among the failures.
pub open spec fn failed_sends(
    connections: Seq<(Seq<char>, Connection)>,
    failures: Seq<(Seq<char>, String)>,
) -> nat
    decreases connections.len(),
{
    if connections.len() == 0 {
        0
    } else {
        failed_sends(connections.drop_last(), failures) + if has_key(
            failures,
            connections.last().0,
        ) {
            1nat
        } else {
            0nat
        }
    }
}

/// The counts of a broadcast's results: the failures are the connections that
/// are among the failed sends, the successes are all the others.
pub proof fn lemma_broadcast_counts(
    connections: Seq<(Seq<char>, Connection)>,
    failures: Seq<(Seq<char>, String)>,
)
    ensures
        count_err(broadcast_results(connections, failures)) == failed_sends(connections, failures),
        count_ok(broadcast_results(connections, failures)) == connections.len() - failed_sends(
            connections,
            failures,
        ),
        failed_sends(connections, failures) <= connections.len(),
    decreases connections.len(),
{
    let r = broadcast_results(connections, failures);
    if connections.len() > 0 {
        let front = connections.drop_last();
        lemma_broadcast_counts(front, failures);
        assert(r.drop_last() =~= broadcast_results(front, failures));
        assert(r.last() == (connections.last().0, outcome_for(failures, connections.last().0)));
    }
}

/// The core operations of a node: sending, the state of the connection table,
/// and disconnecting. The contracts speak of the node that the implementor
/// stands for.
pub trait Api {
    /// The node that the implementor stands for.
    spec fn node(&self) -> PeerNetwork;

    /// Sends `data` to one peer: books what the transport reported (`written`)
    /// for the write of [`PeerNetwork::data_frame`] to that peer's socket.
    ///
    /// Fails with `InvalidInput` for an empty or oversized payload; else with
    /// `NotConnected` where the peer has no connection; else with `Transport`
    /// and the transport's report where the write failed. The node is the same
    /// afterwards, whatever came of the write.
    fn send_to_peer(&self, peer_id: &str, data: &[u8], written: Result<(), String>) -> (out: Result<
        (),
        NetworkError,
    >)
        requires
            self.node().wf(),
        ensures
            match payload_fault(data@) {
                Some(fault) => out is Err && out.unwrap_err()@ == NetworkErrorView::InvalidInput(
                    fault,
                ),
                None => if !has_key(self.node().connections@, peer_id@) {
                    out is Err && out.unwrap_err()@ == NetworkErrorView::NotConnected(peer_id@)
                } else {
                    match written {
                        Err(report) => out is Err && out.unwrap_err()@
                            == NetworkErrorView::Transport(report@),
                        Ok(_) => out is Ok,
                    }
                },
            },
    ;

    /// Sends `data` to every connected peer and says how many sends succeeded.
    /// See [`PeerNetwork::broadcast_detailed`], of which this is the count of
    /// successes.
    fn broadcast(&mut self, data: &[u8], failures: &Table<String>) -> (out: Result<
        usize,
        NetworkError,
    >)
        requires
            old(self).node().wf(),
            failures.wf(),
        ensures
            final(self).node().wf(),
            final(self).node().peer_id == old(self).node().peer_id,
            final(self).node().peers == old(self).node().peers,
            final(self).node().shutdown == old(self).node().shutdown,
            match payload_fault(data@) {
                Some(fault) => out is Err && out.unwrap_err()@ == NetworkErrorView::InvalidInput(
                    fault,
                ) && final(self).node().connections == old(self).node().connections,
                None => {
                    &&& out is Ok
                    &&& out.unwrap() == old(self).node().connections@.len() - failed_sends(
                        old(self).node().connections@,
                        failures@,
                    )
                    &&& final(self).node().connections@ == without_keys(
                        old(self).node().connections@,
                        keys_of(failures@),
                    )
                },
            },
    ;

    /// The ids of the connected peers, in the order of the connection table.
    fn get_connected_peers(&self) -> (out: Vec<String>)
        ensures
            texts(out@) == keys_of(self.node().connections@),
    ;

    /// The number of connected peers.
    fn get_peer_count(&self) -> (out: usize)
        ensures
            out == self.node().connections@.len(),
    ;

    /// Whether a connection to the peer is established.
    fn is_connected_to(&self, peer_id: &str) -> (out: bool)
        requires
            self.node().wf(),
        ensures
            out == has_key(self.node().connections@, peer_id@),
    ;

    /// Drops the connection to a peer. Fails with `NotConnected`, and changes
    /// nothing, where there is none. The caller tells the peer with a
    /// `Disconnect` message as well as it can; whether that arrives is of no
    /// account.
    fn disconnect_peer(&mut self, peer_id: &str) -> (out: Result<(), NetworkError>)
        requires
            old(self).node().wf(),
        ensures
            final(self).node().wf(),
            final(self).node().peer_id == old(self).node().peer_id,
            final(self).node().peers == old(self).node().peers,
            final(self).node().shutdown == old(self).node().shutdown,
            final(self).node().connections@ == without_key(
                old(self).node().connections@,
                peer_id@,
            ),
            has_key(old(self).node().connections@, peer_id@) ==> out is Ok,
            !has_key(old(self).node().connections@, peer_id@) ==> out is Err && out.unwrap_err()@
                == NetworkErrorView::NotConnected(peer_id@),
            !has_key(final(self).node().connections@, peer_id@),
    ;

    /// What is known about a discovered peer, connected or not.
    fn get_peer_info(&self, peer_id: &str) -> (out: Option<PeerInfo>)
        requires
            self.node().wf(),
        ensures
            match value_of(self.node().peers@, peer_id@) {
                Some(info) => out is Some && out.unwrap()@ == info@,
                None => out is None,
            },
    ;
}

impl Api for PeerNetwork {
    open spec fn node(&self) -> PeerNetwork {
        *self
    }

    fn send_to_peer(&self, peer_id: &str, data: &[u8], written: Result<(), String>) -> (out: Result<
        (),
        NetworkError,
    >)
    {
        match PeerNetwork::check_payload(data) {
            Err(e) => Err(e),
            Ok(()) => {
                let message = PeerMessage::Data(vstd::slice::slice_to_vec(data));
                proof {
                    lemma_message_has_frame(message@);
                }
                match self.connections.get(peer_id) {
                    None => Err(NetworkError::NotConnected(peer_id.to_owned())),
                    Some(connection) => connection.send_message(&message, written),
                }
            },
        }
    }

    fn broadcast(&mut self, data: &[u8], failures: &Table<String>) -> (out: Result<
        usize,
        NetworkError,
    >)
    {
        match self.broadcast_detailed(data, failures) {
            Err(e) => Err(e),
            Ok(result) => Ok(result.successful_count()),
        }
    }

    fn get_connected_peers(&self) -> (out: Vec<String>)
    {
        self.connections.keys()
    }

    fn get_peer_count(&self) -> (out: usize)
    {
        self.connections.len()
    }

    fn is_connected_to(&self, peer_id: &str) -> (out: bool)
    {
        self.connections.contains_key(peer_id)
    }

    fn disconnect_peer(&mut self, peer_id: &str) -> (out: Result<(), NetworkError>)
    {
        proof {
            lemma_without_key(self.connections@, peer_id@);
        }
        match self.connections.remove(peer_id) {
            Some(_) => Ok(()),
            None => Err(NetworkError::NotConnected(peer_id.to_owned())),
        }
    }

    fn get_peer_info(&self, peer_id: &str) -> (out: Option<PeerInfo>)
    {
        match self.peers.get(peer_id) {
            Some(info) => Some(info.clone()),
            None => None,
        }
    }
}

impl PeerNetwork {
    /// Checks a payload against the limits of the messaging API.
    pub fn check_payload(data: &[u8]) -> (out: Result<(), NetworkError>)
        ensures
            match payload_fault(data@) {
                Some(fault) => out is Err && out.unwrap_err()@ == NetworkErrorView::InvalidInput(
                    fault,
                ),
                None => out is Ok,
            },
    {
        if data.len() == 0 {
            Err(NetworkError::InvalidInput(PayloadFault::Empty))
        } else if data.len() > MAX_PAYLOAD_LEN {
            Err(NetworkError::InvalidInput(PayloadFault::TooLarge))
        } else {
            Ok(())
        }
    }

    /// The bytes to write to a peer's socket to send it `data`: the frame of the
    /// `Data` message. Fails with `InvalidInput` for an empty or oversized
    /// payload, and on no other.
    pub fn data_frame(data: &[u8]) -> (out: Result<Vec<u8>, NetworkError>)
        ensures
            match payload_fault(data@) {
                Some(fault) => out is Err && out.unwrap_err()@ == NetworkErrorView::InvalidInput(
                    fault,
                ),
                None => out is Ok && out.unwrap()@ == data_frame_bytes(data@),
            },
    {
        match PeerNetwork::check_payload(data) {
            Err(e) => Err(e),
            Ok(()) => {
                let message = PeerMessage::Data(vstd::slice::slice_to_vec(data));
                proof {
                    lemma_message_has_frame(message@);
                }
                Connection::frame_message(&message)
            },
        }
    }

    /// Sends `data` to every connected peer: books what the transport reported
    /// for the writes of [`PeerNetwork::data_frame`] to the sockets of all
    /// connected peers. `failures` holds, by peer id, the report of each write
    /// that failed; a peer that is not in it was written to. An id in `failures`
    /// that has no connection is of no account.
    ///
    /// Fails with `InvalidInput` for an empty or oversized payload, and leaves
    /// the node unchanged. Else the result holds one entry for each connection,
    /// in the order of the table, and the connections whose send failed are
    /// removed in the same call. The connections that stay are as they were.
    pub fn broadcast_detailed(&mut self, data: &[u8], failures: &Table<String>) -> (out: Result<
        BroadcastResult,
        NetworkError,
    >)
        requires
            old(self).wf(),
            failures.wf(),
        ensures
            final(self).wf(),
            final(self).peer_id == old(self).peer_id,
            final(self).peers == old(self).peers,
            final(self).shutdown == old(self).shutdown,
            match payload_fault(data@) {
                Some(fault) => out is Err && out.unwrap_err()@ == NetworkErrorView::InvalidInput(
                    fault,
                ) && final(self).connections == old(self).connections,
                None => {
                    &&& out is Ok
                    &&& out.unwrap().results.wf()
                    &&& out.unwrap().results@ == broadcast_results(
                        old(self).connections@,
                        failures@,
                    )
                    &&& count_err(out.unwrap().results@) == failed_sends(
                        old(self).connections@,
                        failures@,
                    )
                    &&& count_ok(out.unwrap().results@) == old(self).connections@.len()
                        - failed_sends(old(self).connections@, failures@)
                    &&& final(self).connections@ == without_keys(
                        old(self).connections@,
                        keys_of(failures@),
                    )
                    &&& forall|id: Seq<char>|
                        #![trigger has_key(final(self).connections@, id)]
                        has_key(final(self).connections@, id) == (has_key(
                            old(self).connections@,
                            id,
                        ) && !has_key(failures@, id))
                    &&& forall|id: Seq<char>|
                        #![trigger value_of(final(self).connections@, id)]
                        has_key(final(self).connections@, id) ==> value_of(
                            final(self).connections@,
                            id,
                        ) == value_of(old(self).connections@, id)
                },
            },
    {
        match PeerNetwork::check_payload(data) {
            Err(e) => Err(e),
            Ok(()) => {
                let ghost before = self.connections@;
                let mut results: Table<Result<(), String>> = Table::new();
                let n = self.connections.len();
                let mut i: usize = 0;
                while i < n
                    invariant
                        0 <= i <= n,
                        n == before.len(),
                        self.connections@ == before,
                        self.connections.wf(),
                        failures.wf(),
                        results.wf(),
                        results@ == broadcast_results(before.take(i as int), failures@),
                    decreases n - i,
                {
                    let id = self.connections.key_at(i);
                    let outcome = match failures.get(id.as_str()) {
                        Some(report) => Err(report.clone()),
                        None => Ok(()),
                    };
                    proof {
                        if has_key(results@, id@) {
                            let j = index_of_key(results@, id@);
                            assert(before.take(i as int)[j].0 == id@);
                            assert(before[j].0 == before[i as int].0);
                        }
                        assert(before.take(i + 1) =~= before.take(i as int).push(before[i as int]));
                    }
                    results.insert(id.clone(), outcome);
                    proof {
                        assert(results@ =~= broadcast_results(before.take(i + 1), failures@));
                    }
                    i += 1;
                }
                proof {
                    assert(before.take(n as int) =~= before);
                    lemma_broadcast_counts(before, failures@);
                }
                let failed = failures.keys();
                self.connections.remove_all(&failed);
                proof {
                    lemma_without_keys(before, keys_of(failures@));
                    lemma_keys_of(failures@);
                    assert forall|id: Seq<char>|
                        has_key(self.connections@, id) == (has_key(before, id) && !has_key(
                            failures@,
                            id,
                        )) by {
                        assert(keys_of(failures@).contains(id) == has_key(failures@, id));
                    }
                }
                Ok(BroadcastResult { results })
            },
        }
    }

    /// Every discovered peer, connected or not, in the order of the peer table.
    pub fn get_all_discovered_peers(&self) -> (out: Vec<PeerInfo>)
        ensures
            out@.len() == self.peers@.len(),
            forall|i: int| 0 <= i < out@.len() ==> (#[trigger] out@[i])@ == self.peers@[i].1@,
    {
        let mut out: Vec<PeerInfo> = Vec::new();
        let n = self.peers.len();
        let mut i: usize = 0;
        while i < n
            invariant
                0 <= i <= n,
                n == self.peers@.len(),
                out@.len() == i,
                forall|k: int| 0 <= k < i ==> (#[trigger] out@[k])@ == self.peers@[k].1@,
            decreases n - i,
        {
            out.push(self.peers.value_at(i).clone());
            i += 1;
        }
        out
    }

    /// The sizes of the two tables, and the node's id.
    pub fn get_network_stats(&self) -> (out: NetworkStats)
        ensures
            out.connected_peers == self.connections@.len(),
            out.discovered_peers == self.peers@.len(),
            out.peer_id@ == self.peer_id@,
    {
        NetworkStats {
            connected_peers: self.get_peer_count(),
            discovered_peers: self.peers.len(),
            peer_id: self.peer_id.clone(),
        }
    }

    /// [`Api::send_to_peer`] for a text, sent as its UTF-8 bytes.
    pub fn send_text_to_peer(
        &self,
        peer_id: &str,
        message: &str,
        written: Result<(), String>,
    ) -> (out: Result<(), NetworkError>)
        requires
            self.wf(),
        ensures
            match payload_fault(encode_utf8(message@)) {
                Some(fault) => out is Err && out.unwrap_err()@ == NetworkErrorView::InvalidInput(
                    fault,
                ),
                None => if !has_key(self.connections@, peer_id@) {
                    out is Err && out.unwrap_err()@ == NetworkErrorView::NotConnected(peer_id@)
                } else {
                    match written {
                        Err(report) => out is Err && out.unwrap_err()@
                            == NetworkErrorView::Transport(report@),
                        Ok(_) => out is Ok,
                    }
                },
            },
    {
        self.send_to_peer(peer_id, message.as_bytes(), written)
    }

    /// [`Api::broadcast`] for a text, sent as its UTF-8 bytes.
    pub fn broadcast_text(&mut self, message: &str, failures: &Table<String>) -> (out: Result<
        usize,
        NetworkError,
    >)
        requires
            old(self).wf(),
            failures.wf(),
        ensures
            final(self).wf(),
            final(self).peer_id == old(self).peer_id,
            final(self).peers == old(self).peers,
            final(self).shutdown == old(self).shutdown,
            match payload_fault(encode_utf8(message@)) {
                Some(fault) => out is Err && out.unwrap_err()@ == NetworkErrorView::InvalidInput(
                    fault,
                ) && final(self).connections == old(self).connections,
                None => {
                    &&& out is Ok
                    &&& out.unwrap() == old(self).connections@.len() - failed_sends(
                        old(self).connections@,
                        failures@,
                    )
                    &&& final(self).connections@ == without_keys(
                        old(self).connections@,
                        keys_of(failures@),
                    )
                },
            },
    {
        self.broadcast(message.as_bytes(), failures)
    }

    /// [`PeerNetwork::broadcast_detailed`] for a text, sent as its UTF-8 bytes.
    pub fn broadcast_text_detailed(&mut self, message: &str, failures: &Table<String>) -> (out:
        Result<BroadcastResult, NetworkError>)
        requires
            old(self).wf(),
            failures.wf(),
        ensures
            final(self).wf(),
            final(self).peer_id == old(self).peer_id,
            final(self).peers == old(self).peers,
            final(self).shutdown == old(self).shutdown,
            match payload_fault(encode_utf8(message@)) {
                Some(fault) => out is Err && out.unwrap_err()@ == NetworkErrorView::InvalidInput(
                    fault,
                ) && final(self).connections == old(self).connections,
                None => {
                    &&& out is Ok
                    &&& out.unwrap().results.wf()
                    &&& out.unwrap().results@ == broadcast_results(
                        old(self).connections@,
                        failures@,
                    )
                    &&& count_err(out.unwrap().results@) == failed_sends(
                        old(self).connections@,
                        failures@,
                    )
                    &&& count_ok(out.unwrap().results@) == old(self).connections@.len()
                        - failed_sends(old(self).connections@, failures@)
                    &&& final(self).connections@ == without_keys(
                        old(self).connections@,
                        keys_of(failures@),
                    )
                },
            },
    {
        self.broadcast_detailed(message.as_bytes(), failures)
    }

    /// Whether any peer is connected.
    pub fn has_peers(&self) -> (out: bool)
        ensures
            out == (self.connections@.len() > 0),
    {
        self.get_peer_count() > 0
    }

    /// One look of a wait for the first peer, `elapsed_ms` after the wait began:
    /// `Some(true)` once a peer is connected, `Some(false)` once `timeout_ms`
    /// has passed, and `None` while the caller is to sleep and look again. The
    /// time limit is looked at first.
    pub fn wait_for_peers(&self, elapsed_ms: u64, timeout_ms: u64) -> (out: Option<bool>)
        ensures
            out == if elapsed_ms >= timeout_ms {
                Some(false)
            } else if self.connections@.len() > 0 {
                Some(true)
            } else {
                None
            },
    {
        if elapsed_ms >= timeout_ms {
            Some(false)
        } else if self.has_peers() {
            Some(true)
        } else {
            None
        }
    }
}

} // verus!
