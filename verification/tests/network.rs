use peer_network::api::Api;
use peer_network::codec::MAX_PAYLOAD_LEN;
use peer_network::connection::{Connection, HEARTBEAT_INTERVAL_MS, STALE_AFTER_MS};
use peer_network::datagram::encode_discovery_message;
use peer_network::error::{NetworkError, ProtocolFault};
use peer_network::discovery::DISCOVERY_INTERVAL_MS;
use peer_network::network::PeerNetwork;
use peer_network::reader::{ReadEvent, ReaderAction};
use peer_network::table::Table;
use peer_network::types::{DiscoveryMessage, PeerAddress, PeerInfo, PeerMessage};

fn address(last: u8) -> PeerAddress {
    PeerAddress::V4([192, 168, 0, last], 4000 + last as u16)
}

fn info(id: &str, last: u8, seen: u64) -> PeerInfo {
    PeerInfo { id: id.to_string(), tcp_addr: address(last), last_seen: seen }
}

fn node(id: &str) -> PeerNetwork {
    PeerNetwork::with_id(id.to_string())
}

#[test]
fn generated_ids_are_hyphenated_uuids() {
    let a = PeerNetwork::new();
    let b = PeerNetwork::new();
    assert_eq!(a.peer_id.len(), 36);
    assert_eq!(a.peer_id.chars().filter(|c| *c == '-').count(), 4);
    assert!(a.peer_id.chars().all(|c| c == '-' || c.is_ascii_hexdigit()));
    assert_ne!(a.peer_id, b.peer_id);
    assert_eq!(a.get_peer_count(), 0);
    assert!(!a.is_shutting_down());
}

#[test]
fn the_greater_id_initiates() {
    let aaa = node("peer-aaa");
    let zzz = node("peer-zzz");
    assert!(zzz.initiates_connection("peer-aaa"));
    assert!(!aaa.initiates_connection("peer-zzz"));
    assert!(!aaa.initiates_connection("peer-aaa"));
}

#[test]
fn exactly_one_of_a_pair_initiates() {
    let ids = ["", "a", "ab", "b", "B", "peer-1", "peer-10", "peer-2", "é", "z", "~"];
    for a in ids {
        for b in ids {
            let left = node(a).initiates_connection(b);
            let right = node(b).initiates_connection(a);
            if a == b {
                assert!(!left && !right);
            } else {
                assert_ne!(left, right, "{:?} {:?}", a, b);
                assert_eq!(left, a > b);
            }
        }
    }
}

#[test]
fn a_prefix_is_the_smaller_id() {
    assert!(node("peer-10").initiates_connection("peer-1"));
    assert!(!node("peer-1").initiates_connection("peer-10"));
}

#[test]
fn should_connect_skips_a_connected_peer() {
    let mut zzz = node("peer-zzz");
    assert!(zzz.should_connect("peer-aaa"));
    zzz.connections.insert("peer-aaa".to_string(), Connection::new(0));
    assert!(!zzz.should_connect("peer-aaa"));
    assert!(zzz.should_connect("peer-bbb"));
    assert!(!node("peer-aaa").should_connect("peer-zzz"));
}

#[test]
fn announce_from_another_node_is_stored_answered_and_connected() {
    let mut zzz = node("peer-zzz");
    let mine = zzz.local_info(address(9), 100);
    let out = zzz.handle_discovery_message(DiscoveryMessage::Announce(info("peer-aaa", 1, 50)), &mine, 60);
    assert_eq!(out.reply, Some(DiscoveryMessage::Response(info("peer-zzz", 9, 100))));
    assert_eq!(out.connect_to, Some(info("peer-aaa", 1, 50)));
    assert_eq!(zzz.get_peer_info("peer-aaa"), Some(info("peer-aaa", 1, 50)));
    assert_eq!(zzz.get_peer_count(), 0);
}

#[test]
fn announce_to_the_smaller_id_is_stored_and_answered_only() {
    let mut aaa = node("peer-aaa");
    let mine = aaa.local_info(address(1), 100);
    let out = aaa.handle_discovery_message(DiscoveryMessage::Announce(info("peer-zzz", 9, 50)), &mine, 60);
    assert_eq!(out.reply, Some(DiscoveryMessage::Response(info("peer-aaa", 1, 100))));
    assert_eq!(out.connect_to, None);
    assert_eq!(aaa.get_peer_info("peer-zzz"), Some(info("peer-zzz", 9, 50)));
}

#[test]
fn response_is_stored_and_connected_but_not_answered() {
    let mut zzz = node("peer-zzz");
    let mine = zzz.local_info(address(9), 100);
    let out = zzz.handle_discovery_message(DiscoveryMessage::Response(info("peer-aaa", 1, 50)), &mine, 60);
    assert_eq!(out.reply, None);
    assert_eq!(out.connect_to, Some(info("peer-aaa", 1, 50)));
    assert_eq!(zzz.get_all_discovered_peers(), vec![info("peer-aaa", 1, 50)]);
}

#[test]
fn own_messages_are_ignored() {
    let mut me = node("peer-me");
    let mine = me.local_info(address(9), 100);
    for message in [
        DiscoveryMessage::Announce(info("peer-me", 9, 1)),
        DiscoveryMessage::Response(info("peer-me", 9, 1)),
        DiscoveryMessage::Heartbeat("peer-me".to_string()),
    ] {
        let out = me.handle_discovery_message(message, &mine, 60);
        assert_eq!(out.reply, None);
        assert_eq!(out.connect_to, None);
    }
    assert!(me.get_all_discovered_peers().is_empty());
}

#[test]
fn a_second_announcement_replaces_the_record() {
    let mut zzz = node("peer-zzz");
    let mine = zzz.local_info(address(9), 100);
    zzz.handle_discovery_message(DiscoveryMessage::Announce(info("peer-aaa", 1, 50)), &mine, 60);
    zzz.handle_discovery_message(DiscoveryMessage::Announce(info("peer-bbb", 2, 51)), &mine, 61);
    zzz.handle_discovery_message(DiscoveryMessage::Announce(info("peer-aaa", 7, 70)), &mine, 80);
    assert_eq!(zzz.get_all_discovered_peers(), vec![info("peer-aaa", 7, 70), info("peer-bbb", 2, 51)]);
}

#[test]
fn announce_of_a_connected_peer_asks_for_no_connection() {
    let mut zzz = node("peer-zzz");
    zzz.connections.insert("peer-aaa".to_string(), Connection::new(0));
    let mine = zzz.local_info(address(9), 100);
    let out = zzz.handle_discovery_message(DiscoveryMessage::Announce(info("peer-aaa", 1, 50)), &mine, 60);
    assert_eq!(out.connect_to, None);
    assert!(out.reply.is_some());
}

#[test]
fn discovery_heartbeat_refreshes_a_known_peer_only() {
    let mut zzz = node("peer-zzz");
    let mine = zzz.local_info(address(9), 100);
    zzz.handle_discovery_message(DiscoveryMessage::Announce(info("peer-aaa", 1, 50)), &mine, 60);
    let out = zzz.handle_discovery_message(DiscoveryMessage::Heartbeat("peer-aaa".to_string()), &mine, 999);
    assert_eq!(out.reply, None);
    assert_eq!(out.connect_to, None);
    assert_eq!(zzz.get_peer_info("peer-aaa"), Some(info("peer-aaa", 1, 999)));
    zzz.handle_discovery_message(DiscoveryMessage::Heartbeat("peer-unknown".to_string()), &mine, 1000);
    assert_eq!(zzz.get_all_discovered_peers(), vec![info("peer-aaa", 1, 999)]);
}

#[test]
fn datagrams_are_decoded_and_handled() {
    let mut zzz = node("peer-zzz");
    let mine = zzz.local_info(address(9), 100);
    let datagram = encode_discovery_message(&DiscoveryMessage::Announce(info("peer-aaa", 1, 50)));
    let out = zzz.handle_datagram(&datagram, &mine, 60);
    assert_eq!(out.reply, Some(DiscoveryMessage::Response(info("peer-zzz", 9, 100))));
    assert_eq!(out.connect_to, Some(info("peer-aaa", 1, 50)));
    assert_eq!(zzz.get_peer_info("peer-aaa"), Some(info("peer-aaa", 1, 50)));
}

#[test]
fn malformed_datagrams_are_dropped() {
    let mut zzz = node("peer-zzz");
    let mine = zzz.local_info(address(9), 100);
    for datagram in [&[][..], &[9][..], &[0, 200, 1][..], &[2, 2, 0xff, 0xfe][..]] {
        let out = zzz.handle_datagram(datagram, &mine, 60);
        assert_eq!(out.reply, None);
        assert_eq!(out.connect_to, None);
    }
    assert!(zzz.get_all_discovered_peers().is_empty());
}

#[test]
fn announce_is_due_after_the_discovery_interval() {
    assert_eq!(DISCOVERY_INTERVAL_MS, 5_000);
    assert!(!PeerNetwork::announce_due(1_000, 1_000));
    assert!(!PeerNetwork::announce_due(1_000, 5_999));
    assert!(PeerNetwork::announce_due(1_000, 6_000));
    assert!(PeerNetwork::announce_due(0, u64::MAX));
    assert!(!PeerNetwork::announce_due(2_000, 1_000));
}

#[test]
fn handshake_line_is_the_id_and_a_line_feed() {
    assert_eq!(node("peer-aaa").handshake_line(), "peer-aaa\n");
}

#[test]
fn peer_id_of_trims_the_line() {
    assert_eq!(PeerNetwork::peer_id_of("peer-x\n"), Ok("peer-x".to_string()));
    assert_eq!(PeerNetwork::peer_id_of("  peer-x \r\n"), Ok("peer-x".to_string()));
    assert_eq!(
        PeerNetwork::peer_id_of(" \t\r\n"),
        Err(NetworkError::Protocol(ProtocolFault::EmptyPeerId))
    );
    assert_eq!(
        PeerNetwork::peer_id_of(""),
        Err(NetworkError::Protocol(ProtocolFault::EmptyPeerId))
    );
    assert_eq!(
        PeerNetwork::checked_peer_id(String::new()),
        Err(NetworkError::Protocol(ProtocolFault::EmptyPeerId))
    );
    assert_eq!(PeerNetwork::checked_peer_id(" ".to_string()), Ok(" ".to_string()));
}

#[test]
fn inbound_handshake_stores_the_connection() {
    let mut aaa = node("peer-aaa");
    let out = aaa.handle_incoming_connection("peer-zzz\n", Ok(()), 1234);
    assert_eq!(out, Ok("peer-zzz".to_string()));
    assert_eq!(aaa.connections.get("peer-zzz"), Some(&Connection { last_activity: 1234 }));
}

#[test]
fn inbound_handshake_with_an_empty_id_fails() {
    let mut aaa = node("peer-aaa");
    let out = aaa.handle_incoming_connection("\n", Ok(()), 1234);
    assert_eq!(out, Err(NetworkError::Protocol(ProtocolFault::EmptyPeerId)));
    assert_eq!(aaa.get_peer_count(), 0);
    let out = aaa.accept_peer(String::new(), Err("x".to_string()), 1);
    assert_eq!(out, Err(NetworkError::Protocol(ProtocolFault::EmptyPeerId)));
}

#[test]
fn inbound_handshake_whose_answer_could_not_be_written_fails() {
    let mut aaa = node("peer-aaa");
    let out = aaa.handle_incoming_connection("peer-zzz\n", Err("reset".to_string()), 1234);
    assert_eq!(out, Err(NetworkError::Transport("reset".to_string())));
    assert_eq!(aaa.get_peer_count(), 0);
}

#[test]
fn a_second_inbound_handshake_replaces_the_connection() {
    let mut aaa = node("peer-aaa");
    aaa.accept_peer("peer-zzz".to_string(), Ok(()), 10).unwrap();
    aaa.accept_peer("peer-yyy".to_string(), Ok(()), 11).unwrap();
    aaa.accept_peer("peer-zzz".to_string(), Ok(()), 12).unwrap();
    assert_eq!(aaa.get_connected_peers(), vec!["peer-zzz".to_string(), "peer-yyy".to_string()]);
    assert_eq!(aaa.connections.get("peer-zzz"), Some(&Connection { last_activity: 12 }));
}

#[test]
fn outbound_handshake_wants_the_id_that_was_called() {
    let mut zzz = node("peer-zzz");
    assert_eq!(zzz.connect_to_peer("peer-aaa", Ok("peer-aaa\n".to_string()), 5), Ok(()));
    assert!(zzz.is_connected_to("peer-aaa"));
    let out = zzz.connect_to_peer("peer-bbb", Ok("peer-ccc\n".to_string()), 5);
    assert_eq!(out, Err(NetworkError::Protocol(ProtocolFault::UnexpectedPeerId)));
    let out = zzz.connect_to_peer("peer-bbb", Ok("".to_string()), 5);
    assert_eq!(out, Err(NetworkError::Protocol(ProtocolFault::UnexpectedPeerId)));
    let out = zzz.connect_to_peer("peer-bbb", Err("timed out".to_string()), 5);
    assert_eq!(out, Err(NetworkError::Transport("timed out".to_string())));
    assert_eq!(zzz.get_connected_peers(), vec!["peer-aaa".to_string()]);
    assert_eq!(zzz.confirm_peer("peer-ddd", "peer-ddd", 6), Ok(()));
    assert_eq!(
        zzz.confirm_peer("peer-eee", "peer-ddd", 6),
        Err(NetworkError::Protocol(ProtocolFault::UnexpectedPeerId))
    );
}

#[test]
fn two_nodes_discover_each_other_and_connect_once() {
    let mut aaa = node("peer-aaa");
    let mut zzz = node("peer-zzz");
    let info_aaa = aaa.local_info(address(1), 1_000);
    let info_zzz = zzz.local_info(address(9), 1_000);

    let announce_aaa = encode_discovery_message(&DiscoveryMessage::Announce(info_aaa.clone()));
    let announce_zzz = encode_discovery_message(&DiscoveryMessage::Announce(info_zzz.clone()));

    let at_zzz = zzz.handle_datagram(&announce_aaa, &info_zzz, 1_001);
    let at_aaa = aaa.handle_datagram(&announce_zzz, &info_aaa, 1_001);
    assert_eq!(at_aaa.connect_to, None);
    let target = at_zzz.connect_to.expect("the greater id connects");
    assert_eq!(target.id, "peer-aaa");
    assert_eq!(target.tcp_addr, address(1));

    let response = encode_discovery_message(&at_zzz.reply.unwrap());
    assert_eq!(aaa.handle_datagram(&response, &info_aaa, 1_002).connect_to, None);
    let response = encode_discovery_message(&at_aaa.reply.unwrap());
    let again = zzz.handle_datagram(&response, &info_zzz, 1_002);
    assert_eq!(again.connect_to.map(|p| p.id), Some("peer-aaa".to_string()));

    let opening = zzz.handshake_line();
    let answer = aaa.handshake_line();
    assert_eq!(aaa.handle_incoming_connection(&opening, Ok(()), 50), Ok("peer-zzz".to_string()));
    assert_eq!(zzz.connect_to_peer(&target.id, Ok(answer), 51), Ok(()));

    assert_eq!(aaa.get_peer_count(), 1);
    assert_eq!(zzz.get_peer_count(), 1);
    assert_eq!(aaa.get_connected_peers(), vec!["peer-zzz".to_string()]);
    assert_eq!(zzz.get_connected_peers(), vec!["peer-aaa".to_string()]);

    let later = zzz.handle_datagram(&announce_aaa, &info_zzz, 1_010);
    assert_eq!(later.connect_to, None);
}

#[test]
fn connection_is_stale_after_twice_the_heartbeat_interval() {
    assert_eq!(HEARTBEAT_INTERVAL_MS, 30_000);
    assert_eq!(STALE_AFTER_MS, 2 * HEARTBEAT_INTERVAL_MS);
    let connection = Connection::new(1_000);
    assert!(!connection.is_stale(1_000));
    assert!(!connection.is_stale(61_000));
    assert!(connection.is_stale(61_001));
    assert!(!connection.is_stale(0));
    assert!(Connection::new(0).is_stale(u64::MAX));
}

#[test]
fn send_message_books_the_outcome_of_the_write() {
    let connection = Connection::new(5);
    assert_eq!(connection.send_message(&PeerMessage::Heartbeat, Ok(())), Ok(()));
    assert_eq!(connection.last_activity, 5);
    let out = connection.send_message(&PeerMessage::Data(vec![1]), Err("reset".to_string()));
    assert_eq!(out, Err(NetworkError::Transport("reset".to_string())));
    assert_eq!(connection.last_activity, 5);
}

#[test]
fn heartbeat_goes_to_the_connections_that_are_not_stale() {
    let mut n = node("me");
    n.connections.insert("old".to_string(), Connection::new(0));
    n.connections.insert("edge".to_string(), Connection::new(40_000));
    n.connections.insert("new".to_string(), Connection::new(90_000));
    assert_eq!(n.heartbeat_targets(100_000), vec!["edge".to_string(), "new".to_string()]);
    assert_eq!(n.heartbeat_targets(100_001), vec!["new".to_string()]);
    assert_eq!(n.heartbeat_targets(60_000), vec!["old".to_string(), "edge".to_string(), "new".to_string()]);
}

#[test]
fn maintenance_removes_stale_connections() {
    let mut n = node("me");
    n.connections.insert("silent".to_string(), Connection::new(0));
    n.connections.insert("chatty".to_string(), Connection::new(50_000));
    n.maintain_connections(&Table::new(), 60_001);
    assert!(!n.is_connected_to("silent"));
    assert_eq!(n.connections.get("chatty"), Some(&Connection { last_activity: 50_000 }));
}

#[test]
fn maintenance_keeps_a_connection_until_it_is_stale() {
    let mut n = node("me");
    n.connections.insert("peer".to_string(), Connection::new(1_000));
    n.maintain_connections(&Table::new(), 31_000);
    assert_eq!(n.connections.get("peer"), Some(&Connection { last_activity: 1_000 }));
    n.maintain_connections(&Table::new(), 61_000);
    assert_eq!(n.connections.get("peer"), Some(&Connection { last_activity: 1_000 }));
    n.maintain_connections(&Table::new(), 61_001);
    assert!(!n.is_connected_to("peer"));
}

#[test]
fn maintenance_removes_a_silent_peer_however_many_heartbeats_were_written() {
    let mut n = node("me");
    n.connections.insert("peer".to_string(), Connection::new(0));
    assert_eq!(n.heartbeat_targets(HEARTBEAT_INTERVAL_MS), vec!["peer".to_string()]);
    n.maintain_connections(&Table::new(), HEARTBEAT_INTERVAL_MS);
    assert_eq!(n.heartbeat_targets(2 * HEARTBEAT_INTERVAL_MS), vec!["peer".to_string()]);
    n.maintain_connections(&Table::new(), 2 * HEARTBEAT_INTERVAL_MS);
    assert!(n.is_connected_to("peer"));
    assert!(n.heartbeat_targets(3 * HEARTBEAT_INTERVAL_MS).is_empty());
    n.maintain_connections(&Table::new(), 3 * HEARTBEAT_INTERVAL_MS);
    assert!(!n.is_connected_to("peer"));
}

#[test]
fn sends_and_broadcasts_do_not_keep_a_silent_peer() {
    let mut n = node("me");
    n.connections.insert("peer".to_string(), Connection::new(0));
    assert_eq!(n.send_to_peer("peer", b"hello", Ok(())), Ok(()));
    n.maintain_connections(&Table::new(), 30_000);
    assert_eq!(n.broadcast(b"hello", &Table::new()), Ok(1));
    n.maintain_connections(&Table::new(), 60_000);
    assert_eq!(n.send_to_peer("peer", b"hello", Ok(())), Ok(()));
    assert!(n.is_connected_to("peer"));
    n.maintain_connections(&Table::new(), 90_000);
    assert!(!n.is_connected_to("peer"));
}

#[test]
fn a_heartbeat_of_the_peer_keeps_its_connection() {
    let mut n = node("me");
    n.connections.insert("peer".to_string(), Connection::new(0));
    let mut now = 0;
    for _ in 0..10 {
        now += HEARTBEAT_INTERVAL_MS;
        let heard = now - 1;
        assert_eq!(n.reader_step("peer", ReadEvent::Payload(vec![1]), heard), ReaderAction::ReadHeader);
        n.maintain_connections(&Table::new(), now);
        assert_eq!(n.connections.get("peer"), Some(&Connection { last_activity: heard }));
    }
    n.maintain_connections(&Table::new(), now + STALE_AFTER_MS);
    assert!(!n.is_connected_to("peer"));
}

#[test]
fn data_of_the_peer_is_no_heartbeat() {
    let mut n = node("me");
    n.connections.insert("peer".to_string(), Connection::new(0));
    let out = n.reader_step("peer", ReadEvent::Payload(vec![0, 1, 9]), 50_000);
    assert_eq!(out, ReaderAction::Deliver(vec![9]));
    n.maintain_connections(&Table::new(), 60_001);
    assert!(!n.is_connected_to("peer"));
}

#[test]
fn maintenance_removes_connections_whose_heartbeat_failed() {
    let mut n = node("me");
    for id in ["a", "b", "c"] {
        n.connections.insert(id.to_string(), Connection::new(1_000));
    }
    let mut failed = Table::new();
    failed.insert("b".to_string(), "broken pipe".to_string());
    n.maintain_connections(&failed, 2_000);
    assert_eq!(n.get_connected_peers(), vec!["a".to_string(), "c".to_string()]);
    assert_eq!(n.connections.get("a"), Some(&Connection { last_activity: 1_000 }));
}

#[test]
fn reader_asks_for_the_payload_that_the_prefix_announces() {
    let mut n = node("me");
    n.connections.insert("p".to_string(), Connection::new(0));
    assert_eq!(n.reader_step("p", ReadEvent::Header([0, 0, 0, 5]), 1), ReaderAction::ReadPayload(5));
    assert_eq!(
        n.reader_step("p", ReadEvent::Header([0, 0x10, 0, 0]), 1),
        ReaderAction::ReadPayload(MAX_PAYLOAD_LEN)
    );
    assert_eq!(n.reader_step("p", ReadEvent::Header([0, 0, 0, 0]), 1), ReaderAction::ReadPayload(0));
    assert!(n.is_connected_to("p"));
}

#[test]
fn reader_stops_on_an_oversized_frame() {
    let mut n = node("me");
    n.connections.insert("p".to_string(), Connection::new(0));
    assert_eq!(n.reader_step("p", ReadEvent::Header([0, 0x10, 0, 1]), 1), ReaderAction::Stop);
    assert!(!n.is_connected_to("p"));
    assert_eq!(PeerNetwork::payload_length(&[0, 0x10, 0, 0]), Ok(MAX_PAYLOAD_LEN));
    assert_eq!(
        PeerNetwork::payload_length(&[0, 0x10, 0, 1]),
        Err(NetworkError::Protocol(ProtocolFault::OversizedFrame))
    );
    assert_eq!(
        PeerNetwork::payload_length(&[255, 255, 255, 255]),
        Err(NetworkError::Protocol(ProtocolFault::OversizedFrame))
    );
}

#[test]
fn reader_delivers_data() {
    let mut n = node("me");
    n.connections.insert("p".to_string(), Connection::new(0));
    let out = n.reader_step("p", ReadEvent::Payload(vec![0, 3, 7, 8, 9]), 50);
    assert_eq!(out, ReaderAction::Deliver(vec![7, 8, 9]));
    assert_eq!(n.connections.get("p"), Some(&Connection { last_activity: 0 }));
}

#[test]
fn reader_counts_a_heartbeat_as_activity() {
    let mut n = node("me");
    n.connections.insert("p".to_string(), Connection::new(0));
    n.connections.insert("q".to_string(), Connection::new(0));
    assert_eq!(n.reader_step("p", ReadEvent::Payload(vec![1]), 50), ReaderAction::ReadHeader);
    assert_eq!(n.connections.get("p"), Some(&Connection { last_activity: 50 }));
    assert_eq!(n.connections.get("q"), Some(&Connection { last_activity: 0 }));
    assert_eq!(n.get_connected_peers(), vec!["p".to_string(), "q".to_string()]);
}

#[test]
fn reader_stops_on_disconnect_and_on_failure() {
    let mut n = node("me");
    n.connections.insert("p".to_string(), Connection::new(0));
    n.connections.insert("q".to_string(), Connection::new(0));
    assert_eq!(n.reader_step("p", ReadEvent::Payload(vec![2]), 50), ReaderAction::Stop);
    assert!(!n.is_connected_to("p"));
    assert_eq!(n.reader_step("q", ReadEvent::Failed, 50), ReaderAction::Stop);
    assert!(!n.is_connected_to("q"));
}

#[test]
fn reader_stops_on_bytes_that_are_no_message() {
    let mut n = node("me");
    n.connections.insert("p".to_string(), Connection::new(0));
    n.connections.insert("q".to_string(), Connection::new(0));
    n.connections.insert("r".to_string(), Connection::new(0));
    assert_eq!(n.reader_step("p", ReadEvent::Payload(vec![77]), 50), ReaderAction::Stop);
    assert!(!n.is_connected_to("p"));
    assert_eq!(n.reader_step("q", ReadEvent::Payload(vec![]), 50), ReaderAction::Stop);
    assert!(!n.is_connected_to("q"));
    assert_eq!(n.reader_step("r", ReadEvent::Payload(vec![0, 5, 1, 2]), 50), ReaderAction::Stop);
    assert_eq!(n.get_peer_count(), 0);
}

#[test]
fn message_of_reads_a_payload_or_names_the_fault() {
    assert_eq!(PeerNetwork::message_of(&[1]), Ok(PeerMessage::Heartbeat));
    assert_eq!(PeerNetwork::message_of(&[0, 2, 8, 9]), Ok(PeerMessage::Data(vec![8, 9])));
    assert_eq!(
        PeerNetwork::message_of(&[9]),
        Err(NetworkError::Protocol(ProtocolFault::Undecodable))
    );
    assert_eq!(
        PeerNetwork::message_of(&[]),
        Err(NetworkError::Protocol(ProtocolFault::Undecodable))
    );
}

#[test]
fn trimming_cuts_every_white_space_character_and_nothing_else() {
    let white: [u32; 25] = [
        0x09, 0x0a, 0x0b, 0x0c, 0x0d, 0x20, 0x85, 0xa0, 0x1680, 0x2000, 0x2001, 0x2002, 0x2003,
        0x2004, 0x2005, 0x2006, 0x2007, 0x2008, 0x2009, 0x200a, 0x2028, 0x2029, 0x202f, 0x205f,
        0x3000,
    ];
    for code in 0..=0x10_ffffu32 {
        if let Some(c) = char::from_u32(code) {
            let line = format!("{}id{}", c, c);
            let expected = if white.contains(&code) { "id".to_string() } else { line.clone() };
            assert_eq!(PeerNetwork::peer_id_of(&line), Ok(expected), "U+{:04X}", code);
        }
    }
}

#[test]
fn trimming_leaves_white_space_inside_the_id() {
    assert_eq!(
        PeerNetwork::peer_id_of(" \t a b\u{3000}c \n"),
        Ok("a b\u{3000}c".to_string())
    );
    assert_eq!(
        PeerNetwork::peer_id_of("\u{2003}\u{85}"),
        Err(NetworkError::Protocol(ProtocolFault::EmptyPeerId))
    );
}

#[test]
fn reader_waits_when_the_read_would_block() {
    let mut n = node("me");
    n.connections.insert("p".to_string(), Connection::new(0));
    assert_eq!(n.reader_step("p", ReadEvent::WouldBlock, 50), ReaderAction::Wait);
    assert!(n.is_connected_to("p"));
}

#[test]
fn reader_of_a_removed_connection_stops() {
    let mut n = node("me");
    n.connections.insert("q".to_string(), Connection::new(0));
    assert_eq!(n.reader_step("p", ReadEvent::Payload(vec![1]), 50), ReaderAction::Stop);
    assert_eq!(n.reader_step("p", ReadEvent::WouldBlock, 50), ReaderAction::Stop);
    assert_eq!(n.get_connected_peers(), vec!["q".to_string()]);
}

#[test]
fn shutdown_raises_the_flag_and_names_the_connected_peers() {
    let mut n = node("me");
    n.connections.insert("a".to_string(), Connection::new(0));
    n.connections.insert("b".to_string(), Connection::new(0));
    assert!(!n.is_shutting_down());
    assert_eq!(n.shutdown(), vec!["a".to_string(), "b".to_string()]);
    assert!(n.is_shutting_down());
    assert_eq!(n.get_peer_count(), 2);
}
