//! Fixed protocol values, passed around as one immutable configuration.

use vstd::prelude::*;

verus! {

/// The protocol's fixed values.
pub struct Config {
    pub hash_size: usize,
    pub peer_size: u16,
    pub default_pstr: &'static str,
    pub bittorent_port: String,
    pub tcp_port: u16,
    pub array_size: usize,
}

impl Config {
    /// The standard values: 20-byte digests, 6-byte compact peers, the
    /// "BitTorrent protocol" identifier, listening port 6881 and tracker port 80.
    pub fn new() -> (r: Config)
        ensures
            r.hash_size == 20,
            r.peer_size == 6,
            r.default_pstr@ == "BitTorrent protocol"@,
            r.bittorent_port@ == "6881"@,
            r.tcp_port == 80,
            r.array_size == 20,
    {
        Config {
            hash_size: 20,
            peer_size: 6,
            default_pstr: "BitTorrent protocol",
            bittorent_port: "6881".to_owned(),
            tcp_port: 80,
            array_size: 20,
        }
    }
}

} // verus!
