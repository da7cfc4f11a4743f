//! The registry of transfers, keyed by the lowercase hex form of their content id.

use vstd::prelude::*;
use vstd::hash_map::StringHashMap;

verus! {

/// The lowercase hex digit of a value below sixteen: ASCII `0`-`9` from 48, `a`-`f` from 97.
pub open spec fn hex_digit(n: u8) -> char {
    if n < 10 {
        (48u8 + n) as char
    } else {
        (87u8 + n) as char
    }
}

/// The lowercase hex form of some bytes: two digits per byte, high nibble first.
pub open spec fn hex_of(b: Seq<u8>) -> Seq<char> {
    Seq::new(2 * b.len(), |i: int| if i % 2 == 0 {
        hex_digit(b[i / 2] / 16)
    } else {
        hex_digit(b[i / 2] % 16)
    })
}

/// Relies on `String::push`: appends one character.
#[verifier::external_body]
pub(crate) fn push_char(s: &mut String, c: char)
    ensures
        final(s)@ == old(s)@.push(c),
{
    s.push(c)
}

fn hex_char(n: u8) -> (r: char)
    requires
        n < 16,
    ensures
        r == hex_digit(n),
{
    if n < 10 {
        (48u8 + n) as char
    } else {
        (87u8 + n) as char
    }
}

/// The registry key of a content id: its lowercase hex form.
pub fn content_id_hex(id: &[u8; 20]) -> (r: String)
    ensures
        r@ == hex_of(id@),
{
    let mut s = String::new();
    let mut k: usize = 0;
    while k < 20
        invariant
            k <= 20,
            id@.len() == 20,
            s@ =~= hex_of(id@.subrange(0, k as int)),
        decreases 20 - k,
    {
        let b = id[k];
        push_char(&mut s, hex_char(b / 16));
        push_char(&mut s, hex_char(b % 16));
        proof {
            let next = id@.subrange(0, k + 1);
            assert forall|i: int| 0 <= i < 2 * k + 2 implies s@[i] == hex_of(next)[i] by {
                if i < 2 * k {
                    assert(i / 2 < k) by (nonlinear_arith)
                        requires
                            0 <= i < 2 * k,
                    ;
                } else {
                    assert(i / 2 == k) by (nonlinear_arith)
                        requires
                            2 * k <= i < 2 * k + 2,
                    ;
                }
            }
        }
        k = k + 1;
    }
    assert(id@.subrange(0, 20) =~= id@);
    s
}

/// The transfers, each under its key. A handle is whatever the caller shares
/// a transfer by; the registry only stores and finds it.
#[verifier::reject_recursive_types(H)]
pub struct TorrentManager<H> {
    torrents: StringHashMap<H>,
}

impl<H> TorrentManager<H> {
    pub closed spec fn entries(&self) -> Map<Seq<char>, H> {
        self.torrents@
    }

    /// An empty registry.
    pub fn new() -> (r: TorrentManager<H>)
        ensures
            r.entries() == Map::<Seq<char>, H>::empty(),
    {
        TorrentManager { torrents: StringHashMap::new() }
    }

    /// Registers a transfer under `torrent_hash`; an earlier one under the same key is replaced.
    pub fn add_torrent(&mut self, torrent_hash: String, torrent: H)
        ensures
            final(self).entries() == old(self).entries().insert(torrent_hash@, torrent),
    {
        self.torrents.insert(torrent_hash, torrent);
    }

    /// The transfer registered under `torrent_hash`.
    pub fn get_torrent(&self, torrent_hash: &str) -> (r: Option<&H>)
        ensures
            match r {
                Some(t) => self.entries().contains_key(torrent_hash@) && *t == self.entries()[torrent_hash@],
                None => !self.entries().contains_key(torrent_hash@),
            },
    {
        self.torrents.get(torrent_hash)
    }

    /// How many transfers are registered.
    pub fn len(&self) -> (r: usize)
        ensures
            r == self.entries().len(),
    {
        self.torrents.len()
    }
}

} // verus!
