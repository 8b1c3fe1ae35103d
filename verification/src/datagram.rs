//! The wire format of the discovery channel: how a [`DiscoveryMessage`] becomes
//! the payload of a datagram.

use crate::text::text_from_utf8;
use crate::types::{
    DiscoveryMessage, DiscoveryMessageView, PeerAddress, PeerAddressView, PeerInfo, PeerInfoView,
};
use crate::varint::{
    byte_string_bytes, byte_string_parse, decode_byte_string, decode_varint_u16,
    decode_varint_u32, decode_varint_u64, encode_byte_string, encode_varint, lemma_byte_ranges,
    lemma_byte_string_round_trip, lemma_varint_len, lemma_varint_parse_bounds,
    lemma_varint_round_trip, varint_bytes, varint_parse,
};
use vstd::prelude::*;
use vstd::slice::slice_subrange;
use vstd::utf8::{
    decode_utf8, encode_utf8, encode_utf8_decode_utf8, encode_utf8_valid_utf8, valid_utf8,
};

verus! {

/// The largest datagram that the discovery channel reads.
pub const MAX_DATAGRAM_LEN: usize = 1024;

/// A text on the wire: its UTF-8 bytes as a byte string.
pub open spec fn text_bytes(text: Seq<char>) -> Seq<u8> {
    byte_string_bytes(encode_utf8(text))
}

/// Reads one text from the front of `s`: the text and the number of bytes taken,
/// or `None` where no byte string can be read or its bytes are not UTF-8.
pub open spec fn text_parse(s: Seq<u8>) -> Option<(Seq<char>, nat)> {
    match byte_string_parse(s) {
        Some((bytes, used)) => if valid_utf8(bytes) {
            Some((decode_utf8(bytes), used))
        } else {
            None
        },
        None => None,
    }
}

/// An address on the wire: 0 or 1 for the IP version as a variable-length
/// integer, the 4 or 16 octets as they are, and the port as a variable-length
/// integer.
pub open spec fn address_bytes(address: PeerAddressView) -> Seq<u8> {
    match address {
        PeerAddressView::V4(octets, port) => varint_bytes(0) + octets + varint_bytes(port as nat),
        PeerAddressView::V6(octets, port) => varint_bytes(1) + octets + varint_bytes(port as nat),
    }
}

/// Reads the octets and the port of an address from the front of `s`.
pub open spec fn octets_and_port_parse(s: Seq<u8>, octets: nat) -> Option<(Seq<u8>, u16, nat)> {
    if s.len() < octets {
        None
    } else {
        match varint_parse(s.skip(octets as int), 2) {
            Some((port, used)) => Some((s.take(octets as int), port as u16, octets + used)),
            None => None,
        }
    }
}

/// Reads one address from the front of `s`: the address and the number of bytes
/// taken.
pub open spec fn address_parse(s: Seq<u8>) -> Option<(PeerAddressView, nat)> {
    match varint_parse(s, 4) {
        Some((version, used)) => if version == 0 {
            match octets_and_port_parse(s.skip(used as int), 4) {
                Some((octets, port, more)) => Some(
                    (PeerAddressView::V4(octets, port), used + more),
                ),
                None => None,
            }
        } else if version == 1 {
            match octets_and_port_parse(s.skip(used as int), 16) {
                Some((octets, port, more)) => Some(
                    (PeerAddressView::V6(octets, port), used + more),
                ),
                None => None,
            }
        } else {
            None
        },
        None => None,
    }
}

/// A peer's record on the wire: its id, its address, and when it was last seen.
pub open spec fn peer_info_bytes(info: PeerInfoView) -> Seq<u8> {
    text_bytes(info.id) + address_bytes(info.tcp_addr) + varint_bytes(info.last_seen as nat)
}

/// Reads one peer record from the front of `s`: the record and the number of
/// bytes taken.
pub open spec fn peer_info_parse(s: Seq<u8>) -> Option<(PeerInfoView, nat)> {
    match text_parse(s) {
        Some((id, used)) => match address_parse(s.skip(used as int)) {
            Some((tcp_addr, more)) => match varint_parse(s.skip((used + more) as int), 8) {
                Some((last_seen, last)) => Some(
                    (
                        PeerInfoView { id, tcp_addr, last_seen: last_seen as u64 },
                        used + more + last,
                    ),
                ),
                None => None,
            },
            None => None,
        },
        None => None,
    }
}

/// The bytes of a discovery message: the variant's index as a variable-length
/// integer, followed by what the variant carries.
pub open spec fn discovery_message_bytes(message: DiscoveryMessageView) -> Seq<u8> {
    match message {
        DiscoveryMessageView::Announce(info) => varint_bytes(0) + peer_info_bytes(info),
        DiscoveryMessageView::Response(info) => varint_bytes(1) + peer_info_bytes(info),
        DiscoveryMessageView::Heartbeat(id) => varint_bytes(2) + text_bytes(id),
    }
}

/// The discovery message at the front of `s`, or `None` where `s` does not start
/// with one. Bytes after the message are not looked at.
pub open spec fn discovery_message_parse(s: Seq<u8>) -> Option<DiscoveryMessageView> {
    match varint_parse(s, 4) {
        Some((tag, used)) => if tag == 0 {
            match peer_info_parse(s.skip(used as int)) {
                Some((info, _)) => Some(DiscoveryMessageView::Announce(info)),
                None => None,
            }
        } else if tag == 1 {
            match peer_info_parse(s.skip(used as int)) {
                Some((info, _)) => Some(DiscoveryMessageView::Response(info)),
                None => None,
            }
        } else if tag == 2 {
            match text_parse(s.skip(used as int)) {
                Some((id, _)) => Some(DiscoveryMessageView::Heartbeat(id)),
                None => None,
            }
        } else {
            None
        },
        None => None,
    }
}

fn encode_text(text: &str) -> (out: Vec<u8>)
    ensures
        out@ == text_bytes(text@),
{
    encode_byte_string(text.as_bytes())
}

fn decode_text(src: &[u8]) -> (out: Option<(String, usize)>)
    ensures
        match text_parse(src@) {
            Some((text, used)) => out is Some && out.unwrap().0@ == text && out.unwrap().1 == used
                && used <= src@.len(),
            None => out is None,
        },
{
    match decode_byte_string(src) {
        None => None,
        Some((bytes, used)) => match text_from_utf8(bytes) {
            Some(text) => Some((text, used)),
            None => None,
        },
    }
}

fn encode_address(address: &PeerAddress) -> (out: Vec<u8>)
    ensures
        out@ == address_bytes(address@),
{
    match address {
        PeerAddress::V4(octets, port) => encode_address_parts(0, octets.as_slice(), *port),
        PeerAddress::V6(octets, port) => encode_address_parts(1, octets.as_slice(), *port),
    }
}

fn encode_address_parts(version: u64, octets: &[u8], port: u16) -> (out: Vec<u8>)
    ensures
        out@ == varint_bytes(version as nat) + octets@ + varint_bytes(port as nat),
{
    let mut out = encode_varint(version);
    out.extend_from_slice(octets);
    let mut tail = encode_varint(port as u64);
    out.append(&mut tail);
    assert(out@ =~= varint_bytes(version as nat) + octets@ + varint_bytes(port as nat));
    out
}

fn decode_port(src: &[u8], octets: usize) -> (out: Option<(u16, usize)>)
    requires
        octets <= 16,
    ensures
        match octets_and_port_parse(src@, octets as nat) {
            Some((_, port, used)) => out == Some((port, used as usize)) && octets < used
                <= src@.len(),
            None => out is None,
        },
{
    if src.len() < octets {
        return None;
    }
    let rest = slice_subrange(src, octets, src.len());
    proof {
        assert(rest@ =~= src@.skip(octets as int));
        lemma_byte_ranges();
        lemma_varint_parse_bounds(rest@, 2);
    }
    match decode_varint_u16(rest) {
        Some((port, used)) => Some((port, octets + used)),
        None => None,
    }
}

fn decode_address(src: &[u8]) -> (out: Option<(PeerAddress, usize)>)
    ensures
        match address_parse(src@) {
            Some((address, used)) => out is Some && out.unwrap().0@ == address && out.unwrap().1
                == used && used <= src@.len(),
            None => out is None,
        },
{
    proof {
        lemma_byte_ranges();
        lemma_varint_parse_bounds(src@, 4);
    }
    match decode_varint_u32(src) {
        None => None,
        Some((version, used)) => {
            let rest = slice_subrange(src, used, src.len());
            assert(rest@ =~= src@.skip(used as int));
            if version == 0 {
                match decode_port(rest, 4) {
                    None => None,
                    Some((port, more)) => {
                        let octets: [u8; 4] = [rest[0], rest[1], rest[2], rest[3]];
                        assert(octets@ =~= rest@.take(4));
                        Some((PeerAddress::V4(octets, port), used + more))
                    },
                }
            } else if version == 1 {
                match decode_port(rest, 16) {
                    None => None,
                    Some((port, more)) => {
                        let octets: [u8; 16] = [
                            rest[0],
                            rest[1],
                            rest[2],
                            rest[3],
                            rest[4],
                            rest[5],
                            rest[6],
                            rest[7],
                            rest[8],
                            rest[9],
                            rest[10],
                            rest[11],
                            rest[12],
                            rest[13],
                            rest[14],
                            rest[15],
                        ];
                        assert(octets@ =~= rest@.take(16));
                        Some((PeerAddress::V6(octets, port), used + more))
                    },
                }
            } else {
                None
            }
        },
    }
}

fn encode_peer_info(info: &PeerInfo) -> (out: Vec<u8>)
    ensures
        out@ == peer_info_bytes(info@),
{
    let mut out = encode_text(info.id.as_str());
    let mut address = encode_address(&info.tcp_addr);
    out.append(&mut address);
    let mut last_seen = encode_varint(info.last_seen);
    out.append(&mut last_seen);
    out
}

fn decode_peer_info(src: &[u8]) -> (out: Option<(PeerInfo, usize)>)
    ensures
        match peer_info_parse(src@) {
            Some((info, used)) => out is Some && out.unwrap().0@ == info && out.unwrap().1 == used,
            None => out is None,
        },
{
    match decode_text(src) {
        None => None,
        Some((id, used)) => {
            let rest = slice_subrange(src, used, src.len());
            assert(rest@ =~= src@.skip(used as int));
            match decode_address(rest) {
                None => None,
                Some((tcp_addr, more)) => {
                    let tail = slice_subrange(src, used + more, src.len());
                    proof {
                        assert(tail@ =~= src@.skip((used + more) as int));
                        lemma_byte_ranges();
                        lemma_varint_parse_bounds(tail@, 8);
                    }
                    match decode_varint_u64(tail) {
                        None => None,
                        Some((last_seen, last)) => Some(
                            (PeerInfo { id, tcp_addr, last_seen }, used + more + last),
                        ),
                    }
                },
            }
        },
    }
}

fn with_index(index: u64, body: Vec<u8>) -> (out: Vec<u8>)
    ensures
        out@ == varint_bytes(index as nat) + body@,
{
    let mut out = encode_varint(index);
    let mut body = body;
    out.append(&mut body);
    out
}

/// Serialises a discovery message.
pub fn encode_discovery_message(message: &DiscoveryMessage) -> (out: Vec<u8>)
    ensures
        out@ == discovery_message_bytes(message@),
{
    match message {
        DiscoveryMessage::Announce(info) => with_index(0, encode_peer_info(info)),
        DiscoveryMessage::Response(info) => with_index(1, encode_peer_info(info)),
        DiscoveryMessage::Heartbeat(id) => with_index(2, encode_text(id.as_str())),
    }
}

/// Reads the discovery message that a datagram starts with. `None` for a
/// datagram that is malformed.
pub fn decode_discovery_message(src: &[u8]) -> (out: Option<DiscoveryMessage>)
    ensures
        match discovery_message_parse(src@) {
            Some(message) => out is Some && out.unwrap()@ == message,
            None => out is None,
        },
{
    proof {
        lemma_byte_ranges();
        lemma_varint_parse_bounds(src@, 4);
    }
    match decode_varint_u32(src) {
        None => None,
        Some((tag, used)) => {
            let rest = slice_subrange(src, used, src.len());
            assert(rest@ =~= src@.skip(used as int));
            if tag == 0 {
                match decode_peer_info(rest) {
                    Some((info, _)) => Some(DiscoveryMessage::Announce(info)),
                    None => None,
                }
            } else if tag == 1 {
                match decode_peer_info(rest) {
                    Some((info, _)) => Some(DiscoveryMessage::Response(info)),
                    None => None,
                }
            } else if tag == 2 {
                match decode_text(rest) {
                    Some((id, _)) => Some(DiscoveryMessage::Heartbeat(id)),
                    None => None,
                }
            } else {
                None
            }
        },
    }
}

/// Whether an address holds as many octets as its IP version has.
pub open spec fn well_formed_address(address: PeerAddressView) -> bool {
    match address {
        PeerAddressView::V4(octets, _) => octets.len() == 4,
        PeerAddressView::V6(octets, _) => octets.len() == 16,
    }
}

/// Whether a discovery message can be put on the wire and read back: its
/// addresses are well formed, and its texts are shorter than 2^64 bytes.
pub open spec fn well_formed_message(message: DiscoveryMessageView) -> bool {
    match message {
        DiscoveryMessageView::Announce(info) => well_formed_address(info.tcp_addr)
            && encode_utf8(info.id).len() <= u64::MAX,
        DiscoveryMessageView::Response(info) => well_formed_address(info.tcp_addr)
            && encode_utf8(info.id).len() <= u64::MAX,
        DiscoveryMessageView::Heartbeat(id) => encode_utf8(id).len() <= u64::MAX,
    }
}

/// Reading back an encoded text gives the text and its encoded length, whatever
/// follows it.
pub proof fn lemma_text_round_trip(text: Seq<char>, rest: Seq<u8>)
    requires
        encode_utf8(text).len() <= u64::MAX,
    ensures
        text_parse(text_bytes(text) + rest) == Some((text, text_bytes(text).len())),
{
    lemma_byte_string_round_trip(encode_utf8(text), rest);
    encode_utf8_valid_utf8(text);
    encode_utf8_decode_utf8(text);
}

/// Reading back an encoded address gives the address and its encoded length,
/// whatever follows it.
pub proof fn lemma_address_round_trip(address: PeerAddressView, rest: Seq<u8>)
    requires
        well_formed_address(address),
    ensures
        address_parse(address_bytes(address) + rest) == Some(
            (address, address_bytes(address).len()),
        ),
{
    lemma_byte_ranges();
    let (version, octets, port): (nat, Seq<u8>, u16) = match address {
        PeerAddressView::V4(octets, port) => (0, octets, port),
        PeerAddressView::V6(octets, port) => (1, octets, port),
    };
    let n = octets.len();
    let tail = varint_bytes(port as nat) + rest;
    let s = address_bytes(address) + rest;
    assert(s =~= varint_bytes(version) + (octets + tail));
    lemma_varint_round_trip(version, 4, octets + tail);
    lemma_varint_len(version);
    let after = s.skip(1);
    assert(after =~= octets + tail);
    assert(after.skip(n as int) =~= tail);
    assert(after.take(n as int) =~= octets);
    lemma_varint_round_trip(port as nat, 2, rest);
    lemma_varint_len(port as nat);
}

/// Reading back an encoded peer record gives the record and its encoded length,
/// whatever follows it.
pub proof fn lemma_peer_info_round_trip(info: PeerInfoView, rest: Seq<u8>)
    requires
        well_formed_address(info.tcp_addr),
        encode_utf8(info.id).len() <= u64::MAX,
    ensures
        peer_info_parse(peer_info_bytes(info) + rest) == Some((info, peer_info_bytes(info).len())),
{
    lemma_byte_ranges();
    let id = text_bytes(info.id);
    let address = address_bytes(info.tcp_addr);
    let seen = varint_bytes(info.last_seen as nat);
    let s = peer_info_bytes(info) + rest;
    assert(s =~= id + (address + (seen + rest)));
    lemma_text_round_trip(info.id, address + (seen + rest));
    assert(s.skip(id.len() as int) =~= address + (seen + rest));
    lemma_address_round_trip(info.tcp_addr, seen + rest);
    assert(s.skip((id.len() + address.len()) as int) =~= seen + rest);
    lemma_varint_round_trip(info.last_seen as nat, 8, rest);
}

} // verus!
