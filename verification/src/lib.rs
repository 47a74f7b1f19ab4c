//! Local-network peer discovery and direct file transfer, as pure decision
//! logic: the peer table with its expiry, the handling of discovery
//! datagrams, the size-checked upload handshake, the sender's
//! notify-then-upload sequence and the pairing token registry.
//!
//! Sockets, files, timers and the HTTP stack live outside this crate; they
//! feed events in and carry the returned actions out.

pub mod clock;
pub mod discovery;
pub mod sender;
pub mod string_set;
pub mod table_laws;
pub mod text;
pub mod tokens;
pub mod transfer;

use crate::discovery::{Peer, PeerView};
use vstd::prelude::*;

verus! {

/// A device as it is shown to the user: the record of a peer, held closed.
#[derive(Debug)]
pub struct Device {
    id: String,
    name: String,
    ip: String,
    port: u16,
    last_seen: u64,
}

impl View for Device {
    type V = PeerView;

    closed spec fn view(&self) -> PeerView {
        PeerView {
            id: self.id@,
            name: self.name@,
            ip: self.ip@,
            port: self.port,
            last_seen: self.last_seen,
        }
    }
}

impl Device {
    /// The device that a peer record describes.
    pub fn from_peer(peer: &Peer) -> (device: Device)
        ensures
            device@ == peer@,
    {
        Device {
            id: peer.id.clone(),
            name: peer.name.clone(),
            ip: peer.ip.clone(),
            port: peer.port,
            last_seen: peer.last_seen,
        }
    }

    /// The peer record that describes this device.
    pub fn to_peer(&self) -> (peer: Peer)
        ensures
            peer@ == self@,
    {
        Peer {
            id: self.id.clone(),
            name: self.name.clone(),
            ip: self.ip.clone(),
            port: self.port,
            last_seen: self.last_seen,
        }
    }
}

impl Clone for Device {
    fn clone(&self) -> (copy: Self)
        ensures
            copy@ == self@,
    {
        Device {
            id: self.id.clone(),
            name: self.name.clone(),
            ip: self.ip.clone(),
            port: self.port,
            last_seen: self.last_seen,
        }
    }
}

/// What a sender tells a receiver before it streams a file.
#[derive(Debug)]
pub struct NotifyPayload {
    /// Name of the file that will follow.
    pub filename: String,
    /// Size of the file in bytes.
    pub filesize: u64,
    /// Display name of the sending device.
    pub sender_name: String,
    /// Where the file could be fetched from; empty when the sender pushes it.
    pub download_url: String,
}

/// An announcement as a mathematical value.
pub struct NotifyView {
    pub filename: Seq<char>,
    pub filesize: u64,
    pub sender_name: Seq<char>,
    pub download_url: Seq<char>,
}

impl View for NotifyPayload {
    type V = NotifyView;

    open spec fn view(&self) -> NotifyView {
        NotifyView {
            filename: self.filename@,
            filesize: self.filesize,
            sender_name: self.sender_name@,
            download_url: self.download_url@,
        }
    }
}

impl Clone for NotifyPayload {
    fn clone(&self) -> (copy: Self)
        ensures
            copy@ == self@,
    {
        NotifyPayload {
            filename: self.filename.clone(),
            filesize: self.filesize,
            sender_name: self.sender_name.clone(),
            download_url: self.download_url.clone(),
        }
    }
}

} // verus!
