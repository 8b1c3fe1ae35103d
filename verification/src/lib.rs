//! The protocol core of a LAN peer network: multicast discovery, point-to-point
//! connections kept alive by heartbeats, and unicast / broadcast messaging with
//! per-recipient accounting.
//!
//! The crate performs no I/O. It decides and computes; the program around it owns
//! the sockets, the clock and the threads, and reports what happened on them.

pub mod varint;
pub mod types;
pub mod codec;
pub mod datagram;
pub mod text;
pub mod table;
pub mod error;
pub mod connection;
pub mod network;
pub mod discovery;
pub mod handshake;
pub mod reader;
pub mod maintenance;
pub mod api;
pub mod laws;
