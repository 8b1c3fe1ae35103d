//! What holds of the protocol whatever the peers and the transport do, proved
//! from the contracts of the functions that the statements are about.

use crate::api::{
    broadcast_results, count_err, count_ok, data_frame_bytes, failed_sends,
    lemma_broadcast_counts, payload_fault,
};
use crate::codec::{
    be32_value, lemma_be32_round_trip, lemma_peer_message_len,
    lemma_peer_message_round_trip, peer_message_bytes, peer_message_parse, MAX_PAYLOAD_LEN,
};
use crate::connection::{stale_at, Connection};
use crate::datagram::{
    discovery_message_bytes, discovery_message_parse, lemma_peer_info_round_trip,
    lemma_text_round_trip, peer_info_bytes, text_bytes, well_formed_message,
};
use crate::error::PayloadFault;
use crate::discovery::discovery_connect;
use crate::maintenance::{after_pass, lemma_after_pass};
use crate::network::initiates;
use crate::reader::{reader_action, ReadEvent, ReaderActionView};
use crate::table::{
    distinct_keys, has_key, keys_of, lemma_index_of_key, lemma_keys_of, lemma_with_entry,
    lemma_without_key, lemma_without_keys, value_of, with_entry, without_key, without_keys,
};
use crate::text::{
    id_precedes, is_white_space, lemma_bytes_order_total, lemma_trimmed_line,
    lemma_utf8_injective, trimmed,
};
use crate::types::{DiscoveryMessageView, PeerMessageView};
use crate::varint::{lemma_byte_ranges, lemma_varint_len, lemma_varint_round_trip};
use vstd::prelude::*;
use vstd::utf8::encode_utf8;

verus! {

/// Of two nodes with different ids exactly one is the initiator of the pair, and
/// it is the one whose id is the greater. No node initiates to itself.
pub proof fn law_single_initiator(a: Seq<char>, b: Seq<char>)
    ensures
        a != b ==> (initiates(a, b) != initiates(b, a)),
        initiates(a, b) == id_precedes(b, a),
        !initiates(a, a),
{
    lemma_bytes_order_total(encode_utf8(a), encode_utf8(b));
    lemma_bytes_order_total(encode_utf8(a), encode_utf8(a));
    if a != b && encode_utf8(a) == encode_utf8(b) {
        lemma_utf8_injective(a, b);
    }
}

/// The id that an announcement or a response carries.
pub open spec fn sender_of(message: DiscoveryMessageView) -> Option<Seq<char>> {
    match message {
        DiscoveryMessageView::Announce(info) => Some(info.id),
        DiscoveryMessageView::Response(info) => Some(info.id),
        DiscoveryMessageView::Heartbeat(_) => None,
    }
}

/// When two nodes with different ids hear of each other, at most one of them
/// sets out to connect to the other, whatever their tables hold; and a node
/// that does has the greater id.
pub proof fn law_one_connection_attempt(
    a: Seq<char>,
    b: Seq<char>,
    connections_of_a: Seq<(Seq<char>, Connection)>,
    connections_of_b: Seq<(Seq<char>, Connection)>,
    from_a: DiscoveryMessageView,
    from_b: DiscoveryMessageView,
)
    requires
        a != b,
        sender_of(from_a) == Some(a),
        sender_of(from_b) == Some(b),
    ensures
        !(discovery_connect(a, connections_of_a, from_b) is Some && discovery_connect(
            b,
            connections_of_b,
            from_a,
        ) is Some),
        discovery_connect(a, connections_of_a, from_b) is Some ==> id_precedes(b, a),
        discovery_connect(b, connections_of_b, from_a) is Some ==> id_precedes(a, b),
{
    law_single_initiator(a, b);
}

/// The messaging API refuses exactly the payloads that are empty or longer than
/// 1 MiB.
pub proof fn law_payload_limits(data: Seq<u8>)
    ensures
        payload_fault(data) == Some(PayloadFault::Empty) <==> data.len() == 0,
        payload_fault(data) == Some(PayloadFault::TooLarge) <==> data.len() > 1024 * 1024,
        payload_fault(data) is None <==> 1 <= data.len() <= 1024 * 1024,
{
}

/// A connection that is stale when a maintenance pass begins is not in the
/// table when the pass ends, whichever heartbeats of the pass failed.
pub proof fn law_stale_connection_removed(
    connections: Seq<(Seq<char>, Connection)>,
    failed: Seq<Seq<char>>,
    id: Seq<char>,
    now: u64,
)
    requires
        distinct_keys(connections),
        has_key(connections, id),
        stale_at(value_of(connections, id).unwrap().last_activity, now),
    ensures
        !has_key(after_pass(connections, failed, now), id),
{
    lemma_after_pass(connections, failed, now);
}

/// A connection that is neither stale nor among the failed heartbeats is in the
/// table after a maintenance pass, and is what it was: the heartbeat that was
/// written to the peer does not count as activity of the peer.
pub proof fn law_live_connection_kept(
    connections: Seq<(Seq<char>, Connection)>,
    failed: Seq<Seq<char>>,
    id: Seq<char>,
    now: u64,
)
    requires
        distinct_keys(connections),
        has_key(connections, id),
        !stale_at(value_of(connections, id).unwrap().last_activity, now),
        !failed.contains(id),
    ensures
        has_key(after_pass(connections, failed, now), id),
        value_of(after_pass(connections, failed, now), id) == value_of(connections, id),
{
    lemma_after_pass(connections, failed, now);
}

/// Something that happens to the connection table of a node.
pub enum Event {
    /// A maintenance pass at `now` in which the heartbeats to `failed` could not
    /// be written; every other heartbeat of the pass was written.
    Pass { now: u64, failed: Seq<Seq<char>> },
    /// A broadcast in which the sends to `failed` failed.
    Broadcast { failed: Seq<Seq<char>> },
    /// A unicast send, whatever came of it.
    Send,
    /// A heartbeat of the peer `from` arrived at `now`.
    Heartbeat { from: Seq<char>, now: u64 },
    /// A handshake with `peer` was completed at `now`.
    Handshake { peer: Seq<char>, now: u64 },
    /// The connection to `peer` was closed: the peer was disconnected, or its
    /// reader stopped.
    Closed { peer: Seq<char> },
}

/// The connection table after an event, as the contracts of
/// `maintain_connections`, `broadcast_detailed`, `send_to_peer`, `reader_step`,
/// `accept_peer`, `confirm_peer` and `disconnect_peer` give it.
pub open spec fn after_event(connections: Seq<(Seq<char>, Connection)>, event: Event) -> Seq<
    (Seq<char>, Connection),
> {
    match event {
        Event::Pass { now, failed } => after_pass(connections, failed, now),
        Event::Broadcast { failed } => without_keys(connections, failed),
        Event::Send => connections,
        Event::Heartbeat { from, now } => if has_key(connections, from) {
            with_entry(connections, from, Connection { last_activity: now })
        } else {
            connections
        },
        Event::Handshake { peer, now } => with_entry(
            connections,
            peer,
            Connection { last_activity: now },
        ),
        Event::Closed { peer } => without_key(connections, peer),
    }
}

/// The connection table after a run of events, first to last.
pub open spec fn after_events(connections: Seq<(Seq<char>, Connection)>, events: Seq<Event>) -> Seq<
    (Seq<char>, Connection),
>
    decreases events.len(),
{
    if events.len() == 0 {
        connections
    } else {
        after_event(after_events(connections, events.drop_last()), events.last())
    }
}

/// Whether an event is a sign of life from the peer: a heartbeat of it, or a
/// handshake with it.
pub open spec fn heard_from(event: Event, id: Seq<char>) -> bool {
    match event {
        Event::Heartbeat { from, .. } => from == id,
        Event::Handshake { peer, .. } => peer == id,
        _ => false,
    }
}

/// Through a run of events none of which is a sign of life from a peer, the
/// table stays well formed, and the peer's connection, as long as it is there,
/// is the one that was there at the start.
pub proof fn lemma_silent_connection(
    connections: Seq<(Seq<char>, Connection)>,
    events: Seq<Event>,
    id: Seq<char>,
)
    requires
        distinct_keys(connections),
        forall|i: int| 0 <= i < events.len() ==> !heard_from(#[trigger] events[i], id),
    ensures
        distinct_keys(after_events(connections, events)),
        has_key(after_events(connections, events), id) ==> has_key(connections, id) && value_of(
            after_events(connections, events),
            id,
        ) == value_of(connections, id),
    decreases events.len(),
{
    if events.len() > 0 {
        let earlier = events.drop_last();
        let before = after_events(connections, earlier);
        assert forall|i: int| 0 <= i < earlier.len() implies !heard_from(
            #[trigger] earlier[i],
            id,
        ) by {
            assert(earlier[i] == events[i]);
        }
        lemma_silent_connection(connections, earlier, id);
        assert(!heard_from(events[events.len() - 1], id));
        match events.last() {
            Event::Pass { now, failed } => {
                lemma_after_pass(before, failed, now);
            },
            Event::Broadcast { failed } => {
                lemma_without_keys(before, failed);
            },
            Event::Send => {},
            Event::Heartbeat { from, now } => {
                lemma_with_entry(before, from, Connection { last_activity: now });
            },
            Event::Handshake { peer, now } => {
                lemma_with_entry(before, peer, Connection { last_activity: now });
            },
            Event::Closed { peer } => {
                lemma_without_key(before, peer);
            },
        }
    }
}

/// A peer that has gone silent is removed. Take a connection that was last
/// heard from at some time, and any run of events that holds no heartbeat of
/// the peer and no new handshake with it: maintenance passes whose heartbeats
/// to the peer were all written, sends, broadcasts, whatever happens to other
/// peers. If the run ends with a maintenance pass later than twice the
/// heartbeat interval after that time, the connection is not in the table after
/// it, however many heartbeats were written to the peer before.
pub proof fn law_silent_peer_removed(
    connections: Seq<(Seq<char>, Connection)>,
    events: Seq<Event>,
    id: Seq<char>,
)
    requires
        distinct_keys(connections),
        has_key(connections, id),
        forall|i: int| 0 <= i < events.len() ==> !heard_from(#[trigger] events[i], id),
        events.len() > 0,
        events.last() matches Event::Pass { now, .. } && stale_at(
            value_of(connections, id).unwrap().last_activity,
            now,
        ),
    ensures
        !has_key(after_events(connections, events), id),
{
    let earlier = events.drop_last();
    let before = after_events(connections, earlier);
    assert forall|i: int| 0 <= i < earlier.len() implies !heard_from(#[trigger] earlier[i], id) by {
        assert(earlier[i] == events[i]);
    }
    lemma_silent_connection(connections, earlier, id);
    match events.last() {
        Event::Pass { now, failed } => {
            lemma_after_pass(before, failed, now);
        },
        _ => {},
    }
}

/// The number of connections that a round of sends leaves: all but those whose
/// send failed.
pub proof fn lemma_after_sends_len(
    connections: Seq<(Seq<char>, Connection)>,
    failures: Seq<(Seq<char>, String)>,
)
    ensures
        without_keys(connections, keys_of(failures)).len() == connections.len() - failed_sends(
            connections,
            failures,
        ),
    decreases connections.len(),
{
    reveal(Seq::filter);
    lemma_keys_of(failures);
    if connections.len() > 0 {
        lemma_after_sends_len(connections.drop_last(), failures);
    }
}

/// The accounting of a broadcast. Over N connections of which K are among the
/// failed sends, the result counts N - K successes and K failures; every peer
/// with a failure in the result is gone from the table afterwards, every peer
/// with a success is still in it, and the table holds N - K connections.
pub proof fn law_broadcast_accounting(
    connections: Seq<(Seq<char>, Connection)>,
    failures: Seq<(Seq<char>, String)>,
)
    requires
        distinct_keys(connections),
        distinct_keys(failures),
    ensures
        ({
            let results = broadcast_results(connections, failures);
            let after = without_keys(connections, keys_of(failures));
            let n = connections.len();
            let k = failed_sends(connections, failures);
            &&& results.len() == n
            &&& k <= n
            &&& count_ok(results) == n - k
            &&& count_err(results) == k
            &&& after.len() == n - k
            &&& forall|i: int|
                0 <= i < n && (#[trigger] results[i]).1 is Err ==> !has_key(after, results[i].0)
            &&& forall|i: int|
                0 <= i < n && (#[trigger] results[i]).1 is Ok ==> has_key(after, results[i].0)
        }),
{
    let results = broadcast_results(connections, failures);
    let failed = keys_of(failures);
    let after = without_keys(connections, failed);
    lemma_broadcast_counts(connections, failures);
    lemma_after_sends_len(connections, failures);
    lemma_without_keys(connections, failed);
    lemma_keys_of(failures);
    assert forall|i: int| 0 <= i < connections.len() implies ((#[trigger] results[i]).1 is Err
        ==> !has_key(after, results[i].0)) && (results[i].1 is Ok ==> has_key(
        after,
        results[i].0,
    )) by {
        let id = connections[i].0;
        assert(results[i].0 == id);
        lemma_index_of_key(connections, id, i);
        assert(failed.contains(id) == has_key(failures, id));
    }
}

/// A payload that the messaging API accepts survives the wire: the frame of its
/// `Data` message starts with the length of the encoded message, and the bytes
/// behind the prefix decode to the `Data` message with the same payload.
pub proof fn law_data_round_trip(data: Seq<u8>)
    requires
        data.len() <= MAX_PAYLOAD_LEN,
    ensures
        ({
            let payload = peer_message_bytes(PeerMessageView::Data(data));
            let framed = data_frame_bytes(data);
            &&& framed.len() == 4 + payload.len()
            &&& be32_value(framed.take(4)) == payload.len()
            &&& framed.skip(4) == payload
            &&& peer_message_parse(framed.skip(4)) == Some(PeerMessageView::Data(data))
        }),
{
    let message = PeerMessageView::Data(data);
    let payload = peer_message_bytes(message);
    let framed = data_frame_bytes(data);
    lemma_peer_message_len(message);
    lemma_be32_round_trip(payload.len());
    assert(framed.take(4) =~= crate::codec::be32_bytes(payload.len()));
    assert(framed.skip(4) =~= payload);
    lemma_peer_message_round_trip(message, Seq::empty());
    assert(payload + Seq::<u8>::empty() =~= payload);
}

/// What a reader makes of the frame of a `Data` message. It reads the payload
/// that the prefix announces exactly where the encoded message is no longer than
/// 1 MiB, which holds of every payload of up to 1 MiB less six bytes; and it
/// then delivers the payload that was sent.
pub proof fn law_reader_delivers(data: Seq<u8>, header: [u8; 4], payload: Vec<u8>)
    requires
        data.len() <= MAX_PAYLOAD_LEN,
        header@ == data_frame_bytes(data).take(4),
        payload@ == data_frame_bytes(data).skip(4),
    ensures
        payload@.len() <= MAX_PAYLOAD_LEN ==> reader_action(ReadEvent::Header(header))
            == ReaderActionView::ReadPayload(payload@.len() as usize),
        payload@.len() > MAX_PAYLOAD_LEN ==> reader_action(ReadEvent::Header(header))
            == ReaderActionView::Stop,
        data.len() + 6 <= MAX_PAYLOAD_LEN ==> payload@.len() <= MAX_PAYLOAD_LEN,
        reader_action(ReadEvent::Payload(payload)) == ReaderActionView::Deliver(data),
{
    law_data_round_trip(data);
    lemma_peer_message_len(PeerMessageView::Data(data));
    assert(be32_value(header@) == be32_value(data_frame_bytes(data).take(4)));
}

/// Decoding an encoded discovery message gives the message back.
pub proof fn law_discovery_round_trip(message: DiscoveryMessageView)
    requires
        well_formed_message(message),
    ensures
        discovery_message_parse(discovery_message_bytes(message)) == Some(message),
{
    lemma_byte_ranges();
    let s = discovery_message_bytes(message);
    let empty = Seq::<u8>::empty();
    match message {
        DiscoveryMessageView::Announce(info) => {
            lemma_varint_round_trip(0, 4, peer_info_bytes(info));
            lemma_varint_len(0);
            assert(s.skip(1) =~= peer_info_bytes(info) + empty);
            lemma_peer_info_round_trip(info, empty);
        },
        DiscoveryMessageView::Response(info) => {
            lemma_varint_round_trip(1, 4, peer_info_bytes(info));
            lemma_varint_len(1);
            assert(s.skip(1) =~= peer_info_bytes(info) + empty);
            lemma_peer_info_round_trip(info, empty);
        },
        DiscoveryMessageView::Heartbeat(id) => {
            lemma_varint_round_trip(2, 4, text_bytes(id));
            lemma_varint_len(2);
            assert(s.skip(1) =~= text_bytes(id) + empty);
            lemma_text_round_trip(id, empty);
        },
    }
}

/// The handshake carries the id. A node whose id is not empty and neither begins
/// nor ends with white space sends its id and a line feed; what the peer makes
/// of that line is the id, so the inbound handshake does not fail for want of
/// an id, and the outbound handshake with the node that was called does not fail
/// for a wrong one.
pub proof fn law_handshake_carries_the_id(id: Seq<char>)
    requires
        id.len() > 0,
        !is_white_space(id.first()),
        !is_white_space(id.last()),
    ensures
        trimmed(id.push('\n')) == id,
        trimmed(id.push('\n')).len() > 0,
{
    lemma_trimmed_line(id);
}

} // verus!
