//! The shapes that travel between peers: what a node announces about itself, the
//! discovery datagrams, and the messages on an established connection.

use vstd::prelude::*;

verus! {

/// Where a peer listens for connections: an IP address and a TCP port.
#[derive(Debug, Clone, Copy, PartialEq, Eq)]
pub enum PeerAddress {
    /// The four octets of an IPv4 address, and the port.
    V4([u8; 4], u16),
    /// The sixteen octets of an IPv6 address, and the port.
    V6([u8; 16], u16),
}

/// The mathematical value of a [`PeerAddress`]: the octets as a sequence.
pub enum PeerAddressView {
    V4(Seq<u8>, u16),
    V6(Seq<u8>, u16),
}

impl View for PeerAddress {
    type V = PeerAddressView;

    open spec fn view(&self) -> PeerAddressView {
        match self {
            PeerAddress::V4(octets, port) => PeerAddressView::V4(octets@, *port),
            PeerAddress::V6(octets, port) => PeerAddressView::V6(octets@, *port),
        }
    }
}

/// What is known about a discovered node.
#[derive(Debug, PartialEq, Eq)]
pub struct PeerInfo {
    pub id: String,
    pub tcp_addr: PeerAddress,
    /// Unix time in seconds at which the node was last heard of.
    pub last_seen: u64,
}

/// The mathematical value of a [`PeerInfo`].
pub struct PeerInfoView {
    pub id: Seq<char>,
    pub tcp_addr: PeerAddressView,
    pub last_seen: u64,
}

impl View for PeerInfo {
    type V = PeerInfoView;

    open spec fn view(&self) -> PeerInfoView {
        PeerInfoView { id: self.id@, tcp_addr: self.tcp_addr@, last_seen: self.last_seen }
    }
}

impl Clone for PeerInfo {
    fn clone(&self) -> (out: Self)
        ensures
            out@ == self@,
    {
        PeerInfo { id: self.id.clone(), tcp_addr: self.tcp_addr, last_seen: self.last_seen }
    }
}

/// A datagram of the discovery channel.
#[derive(Debug, PartialEq, Eq)]
pub enum DiscoveryMessage {
    Announce(PeerInfo),
    Response(PeerInfo),
    /// Carries the id of the peer that is still alive.
    Heartbeat(String),
}

/// The mathematical value of a [`DiscoveryMessage`].
pub enum DiscoveryMessageView {
    Announce(PeerInfoView),
    Response(PeerInfoView),
    Heartbeat(Seq<char>),
}

impl View for DiscoveryMessage {
    type V = DiscoveryMessageView;

    open spec fn view(&self) -> DiscoveryMessageView {
        match self {
            DiscoveryMessage::Announce(info) => DiscoveryMessageView::Announce(info@),
            DiscoveryMessage::Response(info) => DiscoveryMessageView::Response(info@),
            DiscoveryMessage::Heartbeat(id) => DiscoveryMessageView::Heartbeat(id@),
        }
    }
}

/// A message on an established connection.
#[derive(Debug, PartialEq, Eq)]
pub enum PeerMessage {
    Data(Vec<u8>),
    Heartbeat,
    Disconnect,
}

/// The mathematical value of a [`PeerMessage`].
pub enum PeerMessageView {
    Data(Seq<u8>),
    Heartbeat,
    Disconnect,
}

impl View for PeerMessage {
    type V = PeerMessageView;

    open spec fn view(&self) -> PeerMessageView {
        match self {
            PeerMessage::Data(bytes) => PeerMessageView::Data(bytes@),
            PeerMessage::Heartbeat => PeerMessageView::Heartbeat,
            PeerMessage::Disconnect => PeerMessageView::Disconnect,
        }
    }
}

} // verus!
