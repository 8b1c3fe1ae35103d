//! The wire format of the data channel: how a [`PeerMessage`] becomes bytes, and
//! how a payload is delimited on a byte stream by a length prefix.

use crate::types::{PeerMessage, PeerMessageView};
use crate::varint::{
    byte_string_bytes, byte_string_parse, decode_byte_string, decode_varint_u32,
    encode_byte_string, encode_varint, lemma_byte_string_round_trip, lemma_varint_len,
    lemma_varint_parse_bounds, lemma_varint_round_trip, lemma_byte_ranges, varint_bytes,
    varint_parse,
};
use vstd::prelude::*;
use vstd::slice::slice_subrange;

verus! {

/// The largest payload that a reader accepts in one frame, and the largest
/// application payload that the messaging API accepts: 1 MiB.
pub const MAX_PAYLOAD_LEN: usize = 1024 * 1024;

/// The number of bytes of a frame's length prefix.
pub const FRAME_HEADER_LEN: usize = 4;

/// The bytes of a message: the variant's index as a variable-length integer,
/// followed for `Data` by the payload as a byte string.
pub open spec fn peer_message_bytes(message: PeerMessageView) -> Seq<u8> {
    match message {
        PeerMessageView::Data(bytes) => varint_bytes(0) + byte_string_bytes(bytes),
        PeerMessageView::Heartbeat => varint_bytes(1),
        PeerMessageView::Disconnect => varint_bytes(2),
    }
}

/// The message at the front of `s`, or `None` where `s` does not start with one.
/// Bytes after the message are not looked at.
pub open spec fn peer_message_parse(s: Seq<u8>) -> Option<PeerMessageView> {
    match varint_parse(s, 4) {
        Some((tag, used)) => if tag == 0 {
            match byte_string_parse(s.skip(used as int)) {
                Some((bytes, _)) => Some(PeerMessageView::Data(bytes)),
                None => None,
            }
        } else if tag == 1 {
            Some(PeerMessageView::Heartbeat)
        } else if tag == 2 {
            Some(PeerMessageView::Disconnect)
        } else {
            None
        },
        None => None,
    }
}

/// The four bytes of `v`, most significant first.
pub open spec fn be32_bytes(v: nat) -> Seq<u8> {
    seq![
        (v / 256 / 256 / 256 % 256) as u8,
        (v / 256 / 256 % 256) as u8,
        (v / 256 % 256) as u8,
        (v % 256) as u8,
    ]
}

/// The value of the first four bytes of `s`, most significant first.
pub open spec fn be32_value(s: Seq<u8>) -> nat
    recommends
        s.len() >= 4,
{
    (s[0] as nat) * 0x100_0000 + (s[1] as nat) * 0x1_0000 + (s[2] as nat) * 0x100 + (s[3] as nat)
}

/// A frame: the payload's length in four big-endian bytes, then the payload.
pub open spec fn frame_bytes(payload: Seq<u8>) -> Seq<u8> {
    be32_bytes(payload.len()) + payload
}

/// Serialises a message.
pub fn encode_peer_message(message: &PeerMessage) -> (out: Vec<u8>)
    ensures
        out@ == peer_message_bytes(message@),
{
    match message {
        PeerMessage::Data(bytes) => {
            let mut out = encode_varint(0);
            let mut body = encode_byte_string(bytes.as_slice());
            out.append(&mut body);
            out
        },
        PeerMessage::Heartbeat => encode_varint(1),
        PeerMessage::Disconnect => encode_varint(2),
    }
}

/// Reads the message that `src` starts with. `None` for bytes that are no
/// message: an unreadable or unknown variant index, or a `Data` payload that is
/// cut short.
pub fn decode_peer_message(src: &[u8]) -> (out: Option<PeerMessage>)
    ensures
        match peer_message_parse(src@) {
            Some(message) => out is Some && out.unwrap()@ == message,
            None => out is None,
        },
{
    proof {
        lemma_byte_ranges();
        lemma_varint_parse_bounds(src@, 4);
    }
    match decode_varint_u32(src) {
        None => None,
        Some((tag, used)) => {
            if tag == 0 {
                let rest = slice_subrange(src, used, src.len());
                assert(rest@ =~= src@.skip(used as int));
                match decode_byte_string(rest) {
                    Some((bytes, _)) => Some(PeerMessage::Data(bytes)),
                    None => None,
                }
            } else if tag == 1 {
                Some(PeerMessage::Heartbeat)
            } else if tag == 2 {
                Some(PeerMessage::Disconnect)
            } else {
                None
            }
        },
    }
}

/// Puts the length prefix in front of a payload. `None` for a payload whose
/// length does not fit the four bytes of the prefix.
pub fn frame(payload: &[u8]) -> (out: Option<Vec<u8>>)
    ensures
        payload@.len() <= u32::MAX ==> out is Some && out.unwrap()@ == frame_bytes(payload@),
        payload@.len() > u32::MAX ==> out is None,
{
    let len: usize = payload.len();
    if len > 0xffff_ffff {
        return None;
    }
    let mut out: Vec<u8> = Vec::with_capacity(4);
    out.push((len / 256 / 256 / 256 % 256) as u8);
    out.push((len / 256 / 256 % 256) as u8);
    out.push((len / 256 % 256) as u8);
    out.push((len % 256) as u8);
    assert(out@ =~= be32_bytes(len as nat));
    out.extend_from_slice(payload);
    assert(out@ =~= frame_bytes(payload@));
    Some(out)
}

/// The payload length that a frame's prefix announces.
pub fn frame_length(header: &[u8; 4]) -> (len: u32)
    ensures
        len == be32_value(header@),
{
    let b0: u32 = header[0] as u32;
    let b1: u32 = header[1] as u32;
    let b2: u32 = header[2] as u32;
    let b3: u32 = header[3] as u32;
    b0 * 0x100_0000 + b1 * 0x1_0000 + b2 * 0x100 + b3
}

/// The prefix of a frame gives back the length it was made from.
pub proof fn lemma_be32_round_trip(v: nat)
    requires
        v <= u32::MAX,
    ensures
        be32_bytes(v).len() == 4,
        be32_value(be32_bytes(v)) == v,
{
}

/// An encoded message is never empty, and a `Data` message is its payload and at
/// most ten bytes more.
pub proof fn lemma_peer_message_len(message: PeerMessageView)
    requires
        message matches PeerMessageView::Data(bytes) ==> bytes.len() <= u32::MAX,
    ensures
        peer_message_bytes(message).len() >= 1,
        message matches PeerMessageView::Data(bytes) ==> bytes.len() + 2 <= peer_message_bytes(
            message,
        ).len() <= bytes.len() + 6,
        !(message is Data) ==> peer_message_bytes(message).len() == 1,
{
    lemma_varint_len(0);
    lemma_varint_len(1);
    lemma_varint_len(2);
    if let PeerMessageView::Data(bytes) = message {
        lemma_varint_len(bytes.len());
    }
}

/// Decoding an encoded message gives the message back, whatever bytes follow it.
pub proof fn lemma_peer_message_round_trip(message: PeerMessageView, rest: Seq<u8>)
    requires
        message matches PeerMessageView::Data(bytes) ==> bytes.len() <= u32::MAX,
    ensures
        peer_message_parse(peer_message_bytes(message) + rest) == Some(message),
{
    lemma_byte_ranges();
    let s = peer_message_bytes(message) + rest;
    match message {
        PeerMessageView::Data(bytes) => {
            let body = byte_string_bytes(bytes);
            assert(s =~= varint_bytes(0) + (body + rest));
            lemma_varint_round_trip(0, 4, body + rest);
            lemma_varint_len(0);
            assert(s.skip(1) =~= body + rest);
            lemma_byte_string_round_trip(bytes, rest);
        },
        PeerMessageView::Heartbeat => {
            lemma_varint_round_trip(1, 4, rest);
        },
        PeerMessageView::Disconnect => {
            lemma_varint_round_trip(2, 4, rest);
        },
    }
}

} // verus!
