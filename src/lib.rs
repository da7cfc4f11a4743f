//! A BitTorrent piece-exchange engine: the wire codec, the handshake, the
//! per-torrent piece tracker, the download scheduler and the torrent registry.

pub mod config;
pub mod handshake;
pub mod hash;
pub mod message;
pub mod metadata;
pub mod peers;
pub mod pieces;
pub mod storage;
pub mod torrent;
pub mod torrent_manager;
pub mod tracker;
