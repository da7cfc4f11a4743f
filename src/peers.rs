//! Peers and the compact peer list that a tracker answers with.

use vstd::prelude::*;
use crate::config::Config;
use crate::message::be_value;
use crate::message::read_be_u32;

verus! {

/// A peer's IPv4 address (most significant octet first) and port.
#[derive(Debug, Clone, Copy, PartialEq, Eq, Structural, Hash)]
pub struct Peer {
    pub ip: u32,
    pub port: u16,
}

/// The peer that the six bytes at entry `k` of a compact list describe:
/// four address bytes, then a big-endian port.
pub open spec fn compact_peer(b: Seq<u8>, k: int) -> Peer {
    Peer {
        ip: be_value(b.subrange(6 * k, 6 * k + 4)),
        port: (b[6 * k + 4] as int * 256 + b[6 * k + 5] as int) as u16,
    }
}

/// Reads a compact peer list, six bytes per peer. A list whose length is
/// not a multiple of six is malformed.
pub fn unmarshal_peers(peers: &Vec<u8>) -> (r: Result<Vec<Peer>, String>)
    ensures
        r is Ok <==> peers@.len() % 6 == 0,
        r matches Ok(v) ==> v@.len() == peers@.len() / 6 && forall|k: int|
            0 <= k < v@.len() ==> #[trigger] v@[k] == compact_peer(peers@, k),
{
    let configuration = Config::new();
    let peer_size = configuration.peer_size as usize;
    if peers.len() % peer_size != 0 {
        return Err("Received malformed peers".to_owned());
    }
    let n = peers.len();
    let count = n / peer_size;
    let mut unmarshalled_peers: Vec<Peer> = Vec::new();
    let mut k: usize = 0;
    while k < count
        invariant
            peer_size == 6,
            count == peers@.len() / 6,
            peers@.len() % 6 == 0,
            6 * count == peers@.len(),
            n == peers@.len(),
            k <= count,
            unmarshalled_peers@.len() == k,
            forall|m: int| 0 <= m < k ==> #[trigger] unmarshalled_peers@[m] == compact_peer(peers@, m),
        decreases count - k,
    {
        let start = k * 6;
        let chunk = vstd::slice::slice_subrange(peers.as_slice(), start, start + 6);
        let ip = read_be_u32(chunk);
        assert(chunk@.subrange(0, 4) =~= peers@.subrange(6 * k, 6 * k + 4));
        assert(be_value(chunk@) == be_value(chunk@.subrange(0, 4)));
        let port = (chunk[4] as u16) * 256 + chunk[5] as u16;
        unmarshalled_peers.push(Peer { ip, port });
        k = k + 1;
    }
    Ok(unmarshalled_peers)
}

} // verus!
