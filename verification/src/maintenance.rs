//! The liveness monitor: at each pass, the connections that have been silent
//! for too long go, the others are sent a heartbeat, and those that cannot be
//! written to go as well. Only what a peer sends keeps its connection alive: a
//! heartbeat written to it does not.

use crate::connection::{stale_at, Connection};
use crate::network::PeerNetwork;
use crate::table::{
    distinct_keys, has_key, index_of_key, keys_of, lemma_index_of_key, lemma_keys_of,
    lemma_without_keys, texts, value_of, without_keys, Table,
};
use vstd::prelude::*;

verus! {

/// The ids of the connections that are stale at `now` (`stale` is true) or that
/// are not (`stale` is false), in the order of the table.
pub open spec fn ids_by_staleness(
    connections: Seq<(Seq<char>, Connection)>,
    now: u64,
    stale: bool,
) -> Seq<Seq<char>>
    decreases connections.len(),
{
    if connections.len() == 0 {
        Seq::empty()
    } else if stale_at(connections.last().1.last_activity, now) == stale {
        ids_by_staleness(connections.drop_last(), now, stale).push(connections.last().0)
    } else {
        ids_by_staleness(connections.drop_last(), now, stale)
    }
}

/// The ids of the connections that are stale at `now`, in the order of the
/// table.
pub open spec fn stale_ids(connections: Seq<(Seq<char>, Connection)>, now: u64) -> Seq<Seq<char>> {
    ids_by_staleness(connections, now, true)
}

/// The ids of the connections that are not stale at `now`, in the order of the
/// table: the peers that a heartbeat goes to.
pub open spec fn live_ids(connections: Seq<(Seq<char>, Connection)>, now: u64) -> Seq<Seq<char>> {
    ids_by_staleness(connections, now, false)
}

/// The connection table after a maintenance pass at `now` in which the
/// heartbeats to the peers among `failed` could not be written: the stale
/// connections and the failed ones are gone, the others are as they were.
pub open spec fn after_pass(
    connections: Seq<(Seq<char>, Connection)>,
    failed: Seq<Seq<char>>,
    now: u64,
) -> Seq<(Seq<char>, Connection)> {
    without_keys(connections, stale_ids(connections, now) + failed)
}

/// A connection is among the ids listed for a staleness exactly where it is in
/// the table and its staleness is the one asked for.
pub proof fn lemma_ids_by_staleness(
    connections: Seq<(Seq<char>, Connection)>,
    now: u64,
    stale: bool,
)
    requires
        distinct_keys(connections),
    ensures
        forall|id: Seq<char>|
            #![trigger ids_by_staleness(connections, now, stale).contains(id)]
            ids_by_staleness(connections, now, stale).contains(id) == (has_key(connections, id)
                && stale_at(value_of(connections, id).unwrap().last_activity, now) == stale),
    decreases connections.len(),
{
    if connections.len() > 0 {
        let front = connections.drop_last();
        let last = connections.last();
        let n = front.len() as int;
        assert(distinct_keys(front)) by {
            assert forall|a: int, b: int|
                0 <= a < front.len() && 0 <= b < front.len() && a != b implies (
            #[trigger] front[a]).0 != (#[trigger] front[b]).0 by {
                assert(connections[a].0 != connections[b].0);
            }
        }
        lemma_ids_by_staleness(front, now, stale);
        lemma_index_of_key(connections, last.0, n);
        assert forall|id: Seq<char>| has_key(front, id) implies has_key(connections, id)
            && value_of(connections, id) == value_of(front, id) && id != last.0 by {
            let a = index_of_key(front, id);
            assert(connections[a] == front[a]);
            lemma_index_of_key(connections, id, a);
        }
        assert forall|id: Seq<char>| has_key(connections, id) && id != last.0 implies has_key(
            front,
            id,
        ) by {
            let a = index_of_key(connections, id);
            assert(front[a].0 == id);
        }
        let listed = ids_by_staleness(front, now, stale);
        assert forall|id: Seq<char>|
            #![trigger ids_by_staleness(connections, now, stale).contains(id)]
            ids_by_staleness(connections, now, stale).contains(id) == (has_key(connections, id)
                && stale_at(value_of(connections, id).unwrap().last_activity, now) == stale) by {
            assert(listed.contains(id) == (has_key(front, id) && stale_at(
                value_of(front, id).unwrap().last_activity,
                now,
            ) == stale));
            if stale_at(last.1.last_activity, now) == stale {
                let all = listed.push(last.0);
                assert(all[listed.len() as int] == last.0);
                if listed.contains(id) {
                    let k = choose|k: int| 0 <= k < listed.len() && listed[k] == id;
                    assert(all[k] == id);
                }
                if all.contains(id) {
                    let k = choose|k: int| 0 <= k < all.len() && all[k] == id;
                    if k < listed.len() {
                        assert(listed[k] == id);
                    }
                }
            }
        }
    }
}

/// What the maintenance pass needs of the two lists of ids: a connection is
/// among the stale ids where it is stale, among the live ids where it is not.
pub proof fn lemma_stale_and_live(connections: Seq<(Seq<char>, Connection)>, now: u64)
    requires
        distinct_keys(connections),
    ensures
        forall|id: Seq<char>|
            #![trigger stale_ids(connections, now).contains(id)]
            stale_ids(connections, now).contains(id) == (has_key(connections, id) && stale_at(
                value_of(connections, id).unwrap().last_activity,
                now,
            )),
        forall|id: Seq<char>|
            #![trigger live_ids(connections, now).contains(id)]
            live_ids(connections, now).contains(id) == (has_key(connections, id) && !stale_at(
                value_of(connections, id).unwrap().last_activity,
                now,
            )),
{
    lemma_ids_by_staleness(connections, now, true);
    lemma_ids_by_staleness(connections, now, false);
}

impl PeerNetwork {
    /// The ids of the connections that are stale at `now`, or of those that are
    /// not, in the order of the table.
    fn connections_by_staleness(&self, now: u64, stale: bool) -> (out: Vec<String>)
        ensures
            texts(out@) == ids_by_staleness(self.connections@, now, stale),
    {
        let mut out: Vec<String> = Vec::new();
        let n = self.connections.len();
        let mut i: usize = 0;
        proof {
            assert(self.connections@.take(0) =~= Seq::empty());
            assert(texts(out@) =~= ids_by_staleness(self.connections@.take(0), now, stale));
        }
        while i < n
            invariant
                0 <= i <= n,
                n == self.connections@.len(),
                texts(out@) == ids_by_staleness(self.connections@.take(i as int), now, stale),
            decreases n - i,
        {
            let ghost before = texts(out@);
            proof {
                assert(self.connections@.take(i + 1).drop_last() =~= self.connections@.take(
                    i as int,
                ));
            }
            if self.connections.value_at(i).is_stale(now) == stale {
                out.push(self.connections.key_at(i).clone());
                proof {
                    assert(texts(out@) =~= before.push(self.connections@[i as int].0));
                }
            } else {
                proof {
                    assert(texts(out@) =~= before);
                }
            }
            i += 1;
        }
        proof {
            assert(self.connections@.take(n as int) =~= self.connections@);
        }
        out
    }

    /// The peers that a heartbeat goes to in a maintenance pass at `now`: the
    /// connections that are not stale, in the order of the table.
    pub fn heartbeat_targets(&self, now: u64) -> (out: Vec<String>)
        ensures
            texts(out@) == live_ids(self.connections@, now),
    {
        self.connections_by_staleness(now, false)
    }

    /// One maintenance pass at `now`: books what the transport reported for the
    /// heartbeats written to [`PeerNetwork::heartbeat_targets`]. `failures`
    /// holds, by peer id, the report of each write that failed.
    ///
    /// Every connection that is stale at `now` is removed, and so is every
    /// connection whose heartbeat could not be written. The connections that
    /// stay are as they were: a heartbeat that was written says nothing of the
    /// peer, so the time of the last activity is not touched.
    pub fn maintain_connections(&mut self, failures: &Table<String>, now: u64)
        requires
            old(self).wf(),
            failures.wf(),
        ensures
            final(self).wf(),
            final(self).peer_id == old(self).peer_id,
            final(self).peers == old(self).peers,
            final(self).shutdown == old(self).shutdown,
            final(self).connections@ == after_pass(
                old(self).connections@,
                keys_of(failures@),
                now,
            ),
            forall|id: Seq<char>|
                #![trigger has_key(final(self).connections@, id)]
                has_key(final(self).connections@, id) == (has_key(old(self).connections@, id)
                    && !stale_at(
                    value_of(old(self).connections@, id).unwrap().last_activity,
                    now,
                ) && !has_key(failures@, id)),
            forall|id: Seq<char>|
                #![trigger value_of(final(self).connections@, id)]
                has_key(final(self).connections@, id) ==> value_of(final(self).connections@, id)
                    == value_of(old(self).connections@, id),
    {
        let ghost before = self.connections@;
        let mut gone = self.connections_by_staleness(now, true);
        let mut failed = failures.keys();
        let ghost stale = texts(gone@);
        let ghost failed_ids = texts(failed@);
        gone.append(&mut failed);
        proof {
            assert(texts(gone@) =~= stale + failed_ids);
        }
        self.connections.remove_all(&gone);
        proof {
            lemma_after_pass(before, keys_of(failures@), now);
            lemma_keys_of(failures@);
        }
    }
}

/// What a maintenance pass does to the table's questions: a connection is in
/// the table afterwards exactly where it was there before, was not stale and
/// was not among the failed; and it is then what it was.
pub proof fn lemma_after_pass(
    connections: Seq<(Seq<char>, Connection)>,
    failed: Seq<Seq<char>>,
    now: u64,
)
    requires
        distinct_keys(connections),
    ensures
        distinct_keys(after_pass(connections, failed, now)),
        forall|id: Seq<char>|
            #![trigger has_key(after_pass(connections, failed, now), id)]
            has_key(after_pass(connections, failed, now), id) == (has_key(connections, id)
                && !stale_at(value_of(connections, id).unwrap().last_activity, now)
                && !failed.contains(id)),
        forall|id: Seq<char>|
            #![trigger value_of(after_pass(connections, failed, now), id)]
            has_key(after_pass(connections, failed, now), id) ==> value_of(
                after_pass(connections, failed, now),
                id,
            ) == value_of(connections, id),
{
    let stale = stale_ids(connections, now);
    let gone = stale + failed;
    lemma_without_keys(connections, gone);
    lemma_stale_and_live(connections, now);
    assert forall|id: Seq<char>| gone.contains(id) == (stale.contains(id) || failed.contains(
        id,
    )) by {
        if stale.contains(id) {
            let k = choose|k: int| 0 <= k < stale.len() && stale[k] == id;
            assert(gone[k] == id);
        }
        if failed.contains(id) {
            let k = choose|k: int| 0 <= k < failed.len() && failed[k] == id;
            assert(gone[stale.len() + k] == id);
        }
        if gone.contains(id) {
            let k = choose|k: int| 0 <= k < gone.len() && gone[k] == id;
            if k < stale.len() {
                assert(stale[k] == id);
            } else {
                assert(failed[k - stale.len()] == id);
            }
        }
    }
}

} // verus!
