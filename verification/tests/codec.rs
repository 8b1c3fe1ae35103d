use peer_network::codec::{
    decode_peer_message, encode_peer_message, frame, frame_length, FRAME_HEADER_LEN,
    MAX_PAYLOAD_LEN,
};
use peer_network::connection::Connection;
use peer_network::datagram::{decode_discovery_message, encode_discovery_message};
use peer_network::types::{DiscoveryMessage, PeerAddress, PeerInfo, PeerMessage};

fn info(id: &str, address: PeerAddress, last_seen: u64) -> PeerInfo {
    PeerInfo { id: id.to_string(), tcp_addr: address, last_seen }
}

#[test]
fn control_messages_are_one_byte() {
    assert_eq!(encode_peer_message(&PeerMessage::Heartbeat), vec![1]);
    assert_eq!(encode_peer_message(&PeerMessage::Disconnect), vec![2]);
}

#[test]
fn data_message_is_index_length_and_bytes() {
    let bytes = encode_peer_message(&PeerMessage::Data(vec![1, 2, 3]));
    assert_eq!(bytes, vec![0, 3, 1, 2, 3]);
}

#[test]
fn empty_data_message_is_index_and_zero_length() {
    assert_eq!(encode_peer_message(&PeerMessage::Data(Vec::new())), vec![0, 0]);
}

#[test]
fn length_of_250_is_a_single_byte() {
    let bytes = encode_peer_message(&PeerMessage::Data(vec![7; 250]));
    assert_eq!(bytes.len(), 252);
    assert_eq!(&bytes[..2], &[0, 250]);
}

#[test]
fn length_of_251_takes_the_two_byte_form() {
    let bytes = encode_peer_message(&PeerMessage::Data(vec![7; 251]));
    assert_eq!(bytes.len(), 255);
    assert_eq!(&bytes[..4], &[0, 251, 251, 0]);
}

#[test]
fn length_of_300_is_little_endian() {
    let bytes = encode_peer_message(&PeerMessage::Data(vec![9; 300]));
    assert_eq!(&bytes[..4], &[0, 251, 0x2c, 0x01]);
    assert_eq!(bytes.len(), 304);
}

#[test]
fn length_of_65536_takes_the_four_byte_form() {
    let bytes = encode_peer_message(&PeerMessage::Data(vec![5; 65536]));
    assert_eq!(&bytes[..6], &[0, 252, 0, 0, 1, 0]);
    assert_eq!(bytes.len(), 65536 + 6);
}

#[test]
fn encoding_agrees_with_bincode_on_index_and_payload() {
    let payload: Vec<u8> = (0..=255).collect();
    let expected =
        bincode::encode_to_vec((0u32, payload.clone()), bincode::config::standard()).unwrap();
    assert_eq!(encode_peer_message(&PeerMessage::Data(payload)), expected);
    let expected = bincode::encode_to_vec(1u32, bincode::config::standard()).unwrap();
    assert_eq!(encode_peer_message(&PeerMessage::Heartbeat), expected);
}

#[test]
fn decode_reads_each_variant() {
    assert_eq!(decode_peer_message(&[1]), Some(PeerMessage::Heartbeat));
    assert_eq!(decode_peer_message(&[2]), Some(PeerMessage::Disconnect));
    assert_eq!(decode_peer_message(&[0, 2, 10, 20]), Some(PeerMessage::Data(vec![10, 20])));
    assert_eq!(decode_peer_message(&[0, 0]), Some(PeerMessage::Data(Vec::new())));
}

#[test]
fn decode_passes_over_trailing_bytes() {
    assert_eq!(decode_peer_message(&[1, 99, 98]), Some(PeerMessage::Heartbeat));
    assert_eq!(decode_peer_message(&[0, 1, 5, 6, 7]), Some(PeerMessage::Data(vec![5])));
}

#[test]
fn decode_accepts_a_wider_integer_form_than_needed() {
    assert_eq!(decode_peer_message(&[251, 1, 0]), Some(PeerMessage::Heartbeat));
    assert_eq!(decode_peer_message(&[252, 2, 0, 0, 0]), Some(PeerMessage::Disconnect));
    assert_eq!(decode_peer_message(&[0, 251, 1, 0, 42]), Some(PeerMessage::Data(vec![42])));
}

#[test]
fn decode_refuses_what_is_no_message() {
    assert_eq!(decode_peer_message(&[]), None);
    assert_eq!(decode_peer_message(&[3]), None);
    assert_eq!(decode_peer_message(&[250]), None);
    assert_eq!(decode_peer_message(&[0]), None);
    assert_eq!(decode_peer_message(&[0, 3, 1, 2]), None);
    assert_eq!(decode_peer_message(&[251, 1]), None);
    assert_eq!(decode_peer_message(&[253, 1, 0, 0, 0, 0, 0, 0, 0]), None);
    assert_eq!(decode_peer_message(&[254]), None);
    assert_eq!(decode_peer_message(&[255]), None);
}

#[test]
fn decode_refuses_a_length_beyond_the_input_without_allocating_it() {
    let hostile = [0, 253, 0xff, 0xff, 0xff, 0xff, 0xff, 0xff, 0xff, 0x7f, 1, 2, 3];
    assert_eq!(decode_peer_message(&hostile), None);
    let hostile = [0, 253, 0xff, 0xff, 0xff, 0xff, 0xff, 0xff, 0xff, 0xff];
    assert_eq!(decode_peer_message(&hostile), None);
}

#[test]
fn frame_puts_a_big_endian_length_in_front() {
    assert_eq!(frame(&[9, 8, 7]), Some(vec![0, 0, 0, 3, 9, 8, 7]));
    assert_eq!(frame(&[]), Some(vec![0, 0, 0, 0]));
    let framed = frame(&vec![0u8; 0x0102_03]).unwrap();
    assert_eq!(&framed[..FRAME_HEADER_LEN], &[0, 1, 2, 3]);
    assert_eq!(framed.len(), 4 + 0x0102_03);
}

#[test]
fn frame_length_reads_big_endian() {
    assert_eq!(frame_length(&[0, 0, 0, 0]), 0);
    assert_eq!(frame_length(&[0, 0, 1, 2]), 258);
    assert_eq!(frame_length(&[0, 16, 0, 0]), 1024 * 1024);
    assert_eq!(frame_length(&[1, 2, 3, 4]), 0x0102_0304);
    assert_eq!(frame_length(&[255, 255, 255, 255]), u32::MAX);
}

#[test]
fn frame_message_is_prefix_and_encoded_message() {
    let framed = Connection::frame_message(&PeerMessage::Data(vec![1, 2, 3])).unwrap();
    assert_eq!(framed, vec![0, 0, 0, 5, 0, 3, 1, 2, 3]);
    assert_eq!(Connection::frame_message(&PeerMessage::Heartbeat).unwrap(), vec![0, 0, 0, 1, 1]);
    assert_eq!(Connection::frame_message(&PeerMessage::Disconnect).unwrap(), vec![0, 0, 0, 1, 2]);
}

fn round_trip(data: Vec<u8>) {
    let framed = Connection::frame_message(&PeerMessage::Data(data.clone())).unwrap();
    let header = [framed[0], framed[1], framed[2], framed[3]];
    let len = frame_length(&header) as usize;
    assert_eq!(len, framed.len() - 4);
    let decoded = decode_peer_message(&framed[4..4 + len]);
    assert_eq!(decoded, Some(PeerMessage::Data(data)));
}

#[test]
fn data_round_trip_small() {
    round_trip(vec![0]);
    round_trip(b"hello world".to_vec());
    round_trip((0..=255).collect());
}

#[test]
fn data_round_trip_across_the_length_forms() {
    round_trip(vec![1; 250]);
    round_trip(vec![2; 251]);
    round_trip(vec![3; 65535]);
    round_trip(vec![4; 65536]);
}

#[test]
fn data_round_trip_at_one_mebibyte() {
    let data: Vec<u8> = (0..MAX_PAYLOAD_LEN).map(|i| (i % 251) as u8).collect();
    round_trip(data);
}

#[test]
fn announce_is_index_id_address_and_time() {
    let message = DiscoveryMessage::Announce(info("ab", PeerAddress::V4([192, 168, 1, 7], 8080), 5));
    let bytes = encode_discovery_message(&message);
    assert_eq!(bytes, vec![0, 2, b'a', b'b', 0, 192, 168, 1, 7, 251, 0x90, 0x1f, 5]);
}

#[test]
fn response_with_v6_address() {
    let octets = [0x20, 0x01, 0x0d, 0xb8, 0, 0, 0, 0, 0, 0, 0, 0, 0, 0, 0, 1];
    let message = DiscoveryMessage::Response(info("n", PeerAddress::V6(octets, 80), 300));
    let bytes = encode_discovery_message(&message);
    let mut expected = vec![1, 1, b'n', 1];
    expected.extend_from_slice(&octets);
    expected.extend_from_slice(&[80, 251, 0x2c, 0x01]);
    assert_eq!(bytes, expected);
}

#[test]
fn discovery_heartbeat_is_index_and_id() {
    let bytes = encode_discovery_message(&DiscoveryMessage::Heartbeat("peer-1".to_string()));
    assert_eq!(bytes, vec![2, 6, b'p', b'e', b'e', b'r', b'-', b'1']);
}

#[test]
fn discovery_round_trip() {
    let messages = vec![
        DiscoveryMessage::Announce(info("peer-aaa", PeerAddress::V4([10, 0, 0, 1], 40000), 1_700_000_000)),
        DiscoveryMessage::Response(info("peer-zzz", PeerAddress::V6([1; 16], 65535), u64::MAX)),
        DiscoveryMessage::Announce(info("", PeerAddress::V4([0, 0, 0, 0], 0), 0)),
        DiscoveryMessage::Heartbeat("grüße-✓".to_string()),
    ];
    for message in messages {
        let bytes = encode_discovery_message(&message);
        assert_eq!(decode_discovery_message(&bytes), Some(message));
    }
}

#[test]
fn discovery_encoding_agrees_with_bincode_on_the_parts() {
    let message = DiscoveryMessage::Announce(info("peer-x", PeerAddress::V4([239, 255, 42, 1], 8888), 70_000));
    let config = bincode::config::standard();
    let mut expected = bincode::encode_to_vec(0u32, config).unwrap();
    expected.extend(bincode::encode_to_vec("peer-x", config).unwrap());
    expected.extend(bincode::encode_to_vec(0u32, config).unwrap());
    expected.extend(bincode::encode_to_vec([239u8, 255, 42, 1], config).unwrap());
    expected.extend(bincode::encode_to_vec(8888u16, config).unwrap());
    expected.extend(bincode::encode_to_vec(70_000u64, config).unwrap());
    assert_eq!(encode_discovery_message(&message), expected);
}

#[test]
fn malformed_datagrams_are_refused() {
    assert_eq!(decode_discovery_message(&[]), None);
    assert_eq!(decode_discovery_message(&[3]), None);
    assert_eq!(decode_discovery_message(&[2]), None);
    assert_eq!(decode_discovery_message(&[2, 2, b'a']), None);
    assert_eq!(decode_discovery_message(&[2, 1, 0xff]), None);
    assert_eq!(decode_discovery_message(&[2, 2, 0xc3, 0x28]), None);
    assert_eq!(decode_discovery_message(&[0, 1, b'a', 2, 1, 2, 3, 4, 80, 0]), None);
    assert_eq!(decode_discovery_message(&[0, 1, b'a', 0, 1, 2, 3]), None);
    assert_eq!(decode_discovery_message(&[0, 1, b'a', 0, 1, 2, 3, 4]), None);
    assert_eq!(decode_discovery_message(&[0, 1, b'a', 0, 1, 2, 3, 4, 80]), None);
    assert_eq!(decode_discovery_message(&[0, 1, b'a', 0, 1, 2, 3, 4, 252, 0, 0, 0, 0, 1]), None);
}

#[test]
fn port_and_time_are_read_in_every_integer_form() {
    let bytes = [1, 1, b'a', 0, 1, 2, 3, 4, 251, 0x39, 0x30, 253, 1, 0, 0, 0, 0, 0, 0, 1];
    let expected = DiscoveryMessage::Response(info("a", PeerAddress::V4([1, 2, 3, 4], 12345), (1u64 << 56) + 1));
    assert_eq!(decode_discovery_message(&bytes), Some(expected));
}
