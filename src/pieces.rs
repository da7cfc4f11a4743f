//! The piece tracker: which pieces are complete, which peers advertise each
//! piece, and the expected digest of each piece.

use vstd::prelude::*;
use bitvec::order::Lsb0;
use bitvec::vec::BitVec;
use crate::handshake::bytes_equal;
use crate::hash::digest;
use crate::hash::sha1_digest;
use crate::peers::Peer;

verus! {

/// One bit per piece, set once the piece is verified and persisted.
#[verifier::external_body]
pub struct CompletionMap {
    bits: BitVec<u8, Lsb0>,
}

/// The bits that a completion map holds, in piece order.
pub uninterp spec fn bits_of(m: CompletionMap) -> Seq<bool>;

impl View for CompletionMap {
    type V = Seq<bool>;

    open spec fn view(&self) -> Seq<bool> {
        bits_of(*self)
    }
}

/// The largest number of bits that a bit-vector can hold.
pub open spec fn max_bits() -> int {
    usize::MAX as int / 8
}

impl CompletionMap {
    /// Relies on bitvec's `BitVec::new`: an empty bit-vector.
    #[verifier::external_body]
    pub(crate) fn new() -> (r: CompletionMap)
        ensures
            bits_of(r) == Seq::<bool>::empty(),
    {
        CompletionMap { bits: BitVec::new() }
    }

    /// Relies on bitvec's `BitVec::push`: appends one bit; it panics past the
    /// largest length that a bit-vector can encode.
    #[verifier::external_body]
    pub(crate) fn push(&mut self, value: bool)
        requires
            bits_of(*old(self)).len() < max_bits(),
        ensures
            bits_of(*final(self)) == bits_of(*old(self)).push(value),
    {
        self.bits.push(value)
    }

    /// Relies on bitvec's `BitSlice::len`: the number of bits.
    #[verifier::external_body]
    pub(crate) fn len(&self) -> (r: usize)
        ensures
            r == bits_of(*self).len(),
    {
        self.bits.len()
    }

    /// Relies on bitvec's `Index<usize>` for `BitSlice`: the bit at an index in bounds.
    #[verifier::external_body]
    pub(crate) fn get(&self, index: usize) -> (r: bool)
        requires
            index < bits_of(*self).len(),
        ensures
            r == bits_of(*self)[index as int],
    {
        self.bits[index]
    }

    /// Relies on bitvec's `BitSlice::set`: writes the bit at an index in bounds.
    #[verifier::external_body]
    pub(crate) fn set(&mut self, index: usize, value: bool)
        requires
            index < bits_of(*old(self)).len(),
        ensures
            bits_of(*final(self)) == bits_of(*old(self)).update(index as int, value),
    {
        self.bits.set(index, value)
    }

    /// Relies on bitvec's `BitSlice::all`: whether every bit is set.
    #[verifier::external_body]
    pub(crate) fn all(&self) -> (r: bool)
        ensures
            r == forall|i: int| 0 <= i < bits_of(*self).len() ==> bits_of(*self)[i],
    {
        self.bits.all()
    }
}

impl CompletionMap {
    /// The bits, in piece order.
    pub fn to_bools(&self) -> (r: Vec<bool>)
        ensures
            r@ == self@,
    {
        let n = self.len();
        let mut r: Vec<bool> = Vec::new();
        let mut i: usize = 0;
        while i < n
            invariant
                n == self@.len(),
                i <= n,
                r@ =~= self@.subrange(0, i as int),
            decreases n - i,
        {
            r.push(self.get(i));
            i = i + 1;
        }
        r
    }
}

/// The completion bits that a status byte string stands for: each byte gives
/// eight bits, least significant first.
pub open spec fn unpack_bits(raw: Seq<u8>) -> Seq<bool> {
    Seq::new(raw.len() * 8, |i: int| raw[i / 8] & (1u8 << ((i % 8) as u8)) != 0)
}

/// Unpacks a status byte string into a completion map, eight bits per byte,
/// least significant bit first.
pub fn parse_pieces_status(raw_status_bytes: &[u8]) -> (r: Result<CompletionMap, &'static str>)
    requires
        raw_status_bytes@.len() * 8 <= max_bits(),
    ensures
        r matches Ok(m) && m@ == unpack_bits(raw_status_bytes@),
{
    let mut pieces_status = CompletionMap::new();
    let mut k: usize = 0;
    while k < raw_status_bytes.len()
        invariant
            k <= raw_status_bytes@.len(),
            raw_status_bytes@.len() * 8 <= max_bits(),
            pieces_status@ =~= unpack_bits(raw_status_bytes@.subrange(0, k as int)),
        decreases raw_status_bytes@.len() - k,
    {
        let byte = raw_status_bytes[k];
        let mut bit: u8 = 0;
        while bit < 8
            invariant
                k < raw_status_bytes@.len(),
                raw_status_bytes@.len() * 8 <= max_bits(),
                byte == raw_status_bytes@[k as int],
                bit <= 8,
                pieces_status@.len() == 8 * k + bit,
                forall|m: int| 0 <= m < 8 * k ==> #[trigger] pieces_status@[m] == unpack_bits(
                    raw_status_bytes@.subrange(0, k as int),
                )[m],
                forall|j: int| 0 <= j < bit ==> #[trigger] pieces_status@[8 * k + j] == (byte & (1u8
                    << (j as u8)) != 0),
            decreases 8 - bit,
        {
            pieces_status.push(byte & (1u8 << bit) != 0);
            bit = bit + 1;
        }
        proof {
            let old_bits = unpack_bits(raw_status_bytes@.subrange(0, k as int));
            let new_bits = unpack_bits(raw_status_bytes@.subrange(0, k + 1));
            assert forall|m: int| 0 <= m < 8 * k + 8 implies pieces_status@[m] == new_bits[m] by {
                if m < 8 * k {
                    assert(m / 8 < k) by (nonlinear_arith)
                        requires
                            0 <= m < 8 * k,
                    ;
                    assert(pieces_status@[m] == old_bits[m]);
                } else {
                    let j = m - 8 * k;
                    assert(m / 8 == k && m % 8 == j) by (nonlinear_arith)
                        requires
                            j == m - 8 * k,
                            0 <= j < 8,
                    ;
                    assert(pieces_status@[8 * k + j] == (byte & (1u8 << (j as u8)) != 0));
                }
            }
        }
        k = k + 1;
    }
    assert(raw_status_bytes@.subrange(0, k as int) =~= raw_status_bytes@);
    Ok(pieces_status)
}

/// Whether a peer's bitfield advertises piece `i`: bit `i` counted from the
/// most significant bit of the first byte.
pub open spec fn advertised_bit(bitfield: Seq<u8>, i: int) -> bool {
    bitfield[i / 8] & (0x80u8 >> ((i % 8) as u8)) != 0
}

/// The pieces that a bitfield advertises, in increasing order; bits past
/// the last piece are ignored.
pub fn bitfield_indices(bitfield: &[u8], piece_count: u32) -> (r: Vec<u32>)
    ensures
        forall|x: u32| #[trigger] r@.contains(x) <==> (x < piece_count && x < 8 * bitfield@.len()
            && advertised_bit(bitfield@, x as int)),
        forall|a: int, b: int| 0 <= a < b < r@.len() ==> r@[a] < r@[b],
{
    let len = bitfield.len() as u64;
    let limit: u32 = if len >= piece_count as u64 || 8 * len >= piece_count as u64 {
        piece_count
    } else {
        (8 * len) as u32
    };
    let mut r: Vec<u32> = Vec::new();
    let mut i: u32 = 0;
    while i < limit
        invariant
            limit <= piece_count,
            limit <= 8 * bitfield@.len(),
            limit == piece_count || limit == 8 * bitfield@.len(),
            i <= limit,
            forall|x: u32| #[trigger] r@.contains(x) <==> (x < i && advertised_bit(bitfield@, x as int)),
            forall|a: int| 0 <= a < r@.len() ==> r@[a] < i,
            forall|a: int, b: int| 0 <= a < b < r@.len() ==> r@[a] < r@[b],
        decreases limit - i,
    {
        let byte = bitfield[(i / 8) as usize];
        if byte & (0x80u8 >> ((i % 8) as u8)) != 0 {
            let ghost before = r@;
            r.push(i);
            assert forall|x: u32| #[trigger] r@.contains(x) <==> (x < i + 1 && advertised_bit(bitfield@, x as int)) by {
                if x == i {
                    assert(r@[r@.len() - 1] == i);
                } else if r@.contains(x) {
                    let w = choose|w: int| 0 <= w < r@.len() && r@[w] == x;
                    assert(w < before.len());
                    assert(before.contains(x));
                } else if before.contains(x) {
                    let w = choose|w: int| 0 <= w < before.len() && before[w] == x;
                    assert(r@[w] == x);
                }
            }
        } else {
            assert forall|x: u32| #[trigger] r@.contains(x) <==> (x < i + 1 && advertised_bit(bitfield@, x as int)) by {
                if x == i {
                    if r@.contains(x) {
                        let w = choose|w: int| 0 <= w < r@.len() && r@[w] == x;
                        assert(r@[w] < i);
                    }
                }
            }
        }
        i = i + 1;
    }
    r
}

/// What the scheduler should do next.
#[derive(Debug, Clone, Copy, PartialEq, Eq, Structural)]
pub enum Rarest {
    /// Fetch this piece: the rarest one that is missing.
    Piece(u32),
    /// Some piece is missing, but no peer advertises any missing piece.
    NoneAvailable,
    /// Every piece is complete.
    AllComplete,
}

/// `after` is `before` once `peer` advertised the pieces in `indices`: the
/// peer joins the owners of each such piece, once, and nothing else changes.
pub open spec fn advertisement_recorded(before: PieceTracker, after: PieceTracker, peer: Peer, indices: Seq<u32>) -> bool {
    &&& after.wf()
    &&& after.piece_count() == before.piece_count()
    &&& forall|i: int| 0 <= i < before.piece_count() ==> #[trigger] after.completed(i) == before.completed(i)
    &&& forall|i: int| 0 <= i < before.piece_count() ==> #[trigger] after.expected_hash(i) == before.expected_hash(i)
    &&& forall|i: int, p: Peer|
        0 <= i < before.piece_count() ==> (#[trigger] after.owners_of(i).contains(p) <==> (before.owners_of(i).contains(p)
            || (p == peer && indices.contains(i as u32))))
    &&& forall|i: int|
        0 <= i < before.piece_count() ==> #[trigger] after.frequency(i) == before.frequency(i) + if indices.contains(
            i as u32,
        ) && !before.owners_of(i).contains(peer) {
            1int
        } else {
            0int
        }
}

/// Shared per-torrent progress: completion bits, the peers that advertise
/// each piece, and the expected digest of each piece.
pub struct PieceTracker {
    pieces_status: CompletionMap,
    owners: Vec<Vec<Peer>>,
    piece_hashes: Vec<[u8; 20]>,
}

/// Whether a list of peers holds a given peer.
fn contains_peer(list: &Vec<Peer>, peer: Peer) -> (r: bool)
    ensures
        r == list@.contains(peer),
{
    let mut j: usize = 0;
    while j < list.len()
        invariant
            j <= list@.len(),
            forall|m: int| 0 <= m < j ==> list@[m] != peer,
        decreases list@.len() - j,
    {
        if list[j] == peer {
            assert(list@[j as int] == peer);
            return true;
        }
        j = j + 1;
    }
    false
}

impl PieceTracker {
    /// The number of pieces.
    pub closed spec fn piece_count(&self) -> nat {
        self.piece_hashes@.len()
    }

    /// Whether piece `i` is verified and persisted.
    pub closed spec fn completed(&self, i: int) -> bool {
        self.pieces_status@[i]
    }

    /// The distinct peers that advertised piece `i`.
    pub closed spec fn owners_of(&self, i: int) -> Seq<Peer> {
        self.owners@[i]@
    }

    /// The expected digest of piece `i`.
    pub closed spec fn expected_hash(&self, i: int) -> Seq<u8> {
        self.piece_hashes@[i]@
    }

    /// How many distinct peers advertised piece `i`.
    pub open spec fn frequency(&self, i: int) -> nat {
        self.owners_of(i).len()
    }

    /// One completion bit, one owner list and one digest per piece; piece
    /// indices fit in 32 bits; no peer is listed twice as owner of a piece.
    pub closed spec fn wf(&self) -> bool {
        &&& self.pieces_status@.len() == self.piece_hashes@.len()
        &&& self.owners@.len() == self.piece_hashes@.len()
        &&& self.piece_hashes@.len() <= u32::MAX
        &&& forall|i: int| 0 <= i < self.owners@.len() ==> (#[trigger] self.owners@[i])@.no_duplicates()
    }

    /// A piece that is missing and that some peer advertises.
    pub open spec fn eligible(&self, i: int) -> bool {
        0 <= i < self.piece_count() && !self.completed(i) && self.frequency(i) > 0
    }

    /// Piece `i` comes before piece `j`: fewer owners, or as many and a lower index.
    pub open spec fn rarer_or_equal(&self, i: int, j: int) -> bool {
        self.frequency(i) < self.frequency(j) || (self.frequency(i) == self.frequency(j) && i <= j)
    }

    /// The eligible piece that comes before every other eligible piece.
    pub open spec fn is_rarest(&self, i: int) -> bool {
        self.eligible(i) && forall|j: int| #[trigger] self.eligible(j) ==> self.rarer_or_equal(i, j)
    }

    /// Every piece is verified and persisted.
    pub open spec fn all_complete(&self) -> bool {
        forall|i: int| 0 <= i < self.piece_count() ==> #[trigger] self.completed(i)
    }

    /// The answer that `rarest_missing` owes in this state.
    pub open spec fn selection(&self, r: Rarest) -> bool {
        match r {
            Rarest::Piece(i) => self.is_rarest(i as int),
            Rarest::NoneAvailable => !self.all_complete() && forall|j: int| !#[trigger] self.eligible(j),
            Rarest::AllComplete => self.all_complete(),
        }
    }

    proof fn lemma_all_complete_bits(&self)
        requires
            self.wf(),
        ensures
            self.all_complete() == (forall|i: int|
                0 <= i < bits_of(self.pieces_status).len() ==> bits_of(self.pieces_status)[i]),
    {
        if self.all_complete() {
            assert forall|i: int| 0 <= i < bits_of(self.pieces_status).len() implies bits_of(
                self.pieces_status,
            )[i] by {
                assert(self.completed(i));
            }
        }
        if forall|i: int| 0 <= i < bits_of(self.pieces_status).len() ==> bits_of(self.pieces_status)[i] {
            assert forall|i: int| 0 <= i < self.piece_count() implies #[trigger] self.completed(i) by {
                assert(bits_of(self.pieces_status)[i]);
            }
        }
    }

    /// A tracker for pieces with the given digests: nothing complete, nothing advertised.
    pub fn new(piece_hashes: Vec<[u8; 20]>) -> (r: PieceTracker)
        requires
            piece_hashes@.len() <= u32::MAX,
            piece_hashes@.len() <= max_bits(),
        ensures
            r.wf(),
            r.piece_count() == piece_hashes@.len(),
            forall|i: int| 0 <= i < piece_hashes@.len() ==> !#[trigger] r.completed(i),
            forall|i: int| 0 <= i < piece_hashes@.len() ==> #[trigger] r.owners_of(i) == Seq::<Peer>::empty(),
            forall|i: int| 0 <= i < piece_hashes@.len() ==> #[trigger] r.expected_hash(i) == piece_hashes@[i]@,
    {
        let n = piece_hashes.len();
        let mut pieces_status = CompletionMap::new();
        let mut owners: Vec<Vec<Peer>> = Vec::new();
        let mut i: usize = 0;
        while i < n
            invariant
                n == piece_hashes@.len(),
                n <= max_bits(),
                i <= n,
                pieces_status@.len() == i,
                owners@.len() == i,
                forall|j: int| 0 <= j < i ==> !#[trigger] pieces_status@[j],
                forall|j: int| 0 <= j < i ==> #[trigger] owners@[j]@ == Seq::<Peer>::empty(),
            decreases n - i,
        {
            pieces_status.push(false);
            owners.push(Vec::new());
            i = i + 1;
        }
        PieceTracker { pieces_status, owners, piece_hashes }
    }

    /// The number of pieces.
    pub fn len(&self) -> (r: usize)
        requires
            self.wf(),
        ensures
            r == self.piece_count(),
    {
        self.piece_hashes.len()
    }

    /// How many distinct peers advertised piece `index`.
    pub fn advertised_count(&self, index: u32) -> (r: usize)
        requires
            self.wf(),
            index < self.piece_count(),
        ensures
            r == self.frequency(index as int),
    {
        self.owners[index as usize].len()
    }

    /// Whether piece `index` is verified and persisted.
    pub fn is_complete(&self, index: u32) -> (r: bool)
        requires
            self.wf(),
            index < self.piece_count(),
        ensures
            r == self.completed(index as int),
    {
        self.pieces_status.get(index as usize)
    }

    /// Whether every piece is verified and persisted.
    pub fn is_all_complete(&self) -> (r: bool)
        requires
            self.wf(),
        ensures
            r == self.all_complete(),
    {
        proof {
            self.lemma_all_complete_bits();
        }
        self.pieces_status.all()
    }

    /// The missing piece with the fewest advertising peers, the lowest index
    /// among equals; or why there is none.
    pub fn rarest_missing(&self) -> (r: Rarest)
        requires
            self.wf(),
        ensures
            self.selection(r),
    {
        let n = self.piece_hashes.len();
        let mut best: Option<usize> = None;
        let mut best_count: usize = 0;
        let mut i: usize = 0;
        while i < n
            invariant
                self.wf(),
                n == self.piece_count(),
                i <= n,
                best is None ==> forall|j: int| 0 <= j < i ==> !#[trigger] self.eligible(j),
                best matches Some(b) ==> b < i && self.eligible(b as int) && best_count == self.frequency(
                    b as int,
                ) && forall|j: int| 0 <= j < i && #[trigger] self.eligible(j) ==> self.rarer_or_equal(b as int, j),
            decreases n - i,
        {
            let count = self.owners[i].len();
            if count > 0 && !self.pieces_status.get(i) {
                match best {
                    None => {
                        best = Some(i);
                        best_count = count;
                    },
                    Some(_) => {
                        if count < best_count {
                            best = Some(i);
                            best_count = count;
                        }
                    },
                }
            }
            i = i + 1;
        }
        match best {
            Some(b) => {
                assert((b as u32) as int == b as int);
                assert forall|j: int| #[trigger] self.eligible(j) implies self.rarer_or_equal(b as int, j) by {
                    assert(0 <= j < i);
                }
                Rarest::Piece(b as u32)
            },
            None => {
                proof {
                    self.lemma_all_complete_bits();
                }
                if self.pieces_status.all() {
                    Rarest::AllComplete
                } else {
                    Rarest::NoneAvailable
                }
            },
        }
    }

    /// Records piece `index` as verified and persisted; marking it again changes nothing.
    pub fn mark_complete(&mut self, index: u32)
        requires
            old(self).wf(),
            index < old(self).piece_count(),
        ensures
            final(self).wf(),
            final(self).piece_count() == old(self).piece_count(),
            forall|i: int| 0 <= i < old(self).piece_count() ==> #[trigger] final(self).completed(i) == (i
                == index || old(self).completed(i)),
            forall|i: int| 0 <= i < old(self).piece_count() ==> #[trigger] final(self).owners_of(i) == old(
                self,
            ).owners_of(i),
            forall|i: int| 0 <= i < old(self).piece_count() ==> #[trigger] final(self).expected_hash(i) == old(
                self,
            ).expected_hash(i),
    {
        self.pieces_status.set(index as usize, true);
    }

    /// Records that `peer` holds the pieces in `indices`. A peer counts once
    /// per piece however often it repeats it; indices past the last piece are ignored.
    pub fn record_advertisement(&mut self, peer: Peer, indices: &[u32])
        requires
            old(self).wf(),
        ensures
            advertisement_recorded(*old(self), *final(self), peer, indices@),
    {
        let n = self.piece_hashes.len();
        let mut k: usize = 0;
        while k < indices.len()
            invariant
                self.wf(),
                n == self.piece_count(),
                n == old(self).piece_count(),
                k <= indices@.len(),
                forall|i: int| 0 <= i < n ==> #[trigger] self.completed(i) == old(self).completed(i),
                forall|i: int| 0 <= i < n ==> #[trigger] self.expected_hash(i) == old(self).expected_hash(i),
                forall|i: int, p: Peer|
                    0 <= i < n ==> (#[trigger] self.owners_of(i).contains(p) <==> (old(self).owners_of(
                        i,
                    ).contains(p) || (p == peer && indices@.subrange(0, k as int).contains(i as u32)))),
                forall|i: int|
                    0 <= i < n ==> #[trigger] self.frequency(i) == old(self).frequency(i) + if indices@.subrange(
                        0,
                        k as int,
                    ).contains(i as u32) && !old(self).owners_of(i).contains(peer) {
                        1int
                    } else {
                        0int
                    },
            decreases indices@.len() - k,
        {
            let idx = indices[k];
            let ghost before = *self;
            assert(indices@.subrange(0, k + 1) =~= indices@.subrange(0, k as int).push(idx));
            assert(indices@.subrange(0, k + 1)[k as int] == idx);
            if (idx as usize) < n {
                let mut list: Vec<Peer> = Vec::new();
                self.owners.set_and_swap(idx as usize, &mut list);
                if !contains_peer(&list, peer) {
                    list.push(peer);
                }
                self.owners.set(idx as usize, list);
                assert forall|i: int| 0 <= i < self.owners@.len() implies (#[trigger] self.owners@[i])@.no_duplicates() by {
                    if i != idx as int {
                        assert(self.owners@[i] == before.owners@[i]);
                    }
                }
                let ghost prefix = indices@.subrange(0, k as int);
                let ghost next = indices@.subrange(0, k + 1);
                let ghost ix = idx as int;
                proof {
                    let bl = before.owners_of(ix);
                    let sl = self.owners_of(ix);
                    assert(bl.contains(peer) ==> sl == bl);
                    assert(!bl.contains(peer) ==> sl =~= bl.push(peer));
                    assert(sl.contains(peer)) by {
                        if !bl.contains(peer) {
                            assert(sl[sl.len() - 1] == peer);
                        }
                    }
                    assert forall|p: Peer| #[trigger] sl.contains(p) <==> (bl.contains(p) || p == peer) by {
                        if sl.contains(p) && p != peer && !bl.contains(peer) {
                            let w = choose|w: int| 0 <= w < sl.len() && sl[w] == p;
                            assert(w < bl.len());
                            assert(bl[w] == p);
                        }
                        if bl.contains(p) && !bl.contains(peer) {
                            let w = choose|w: int| 0 <= w < bl.len() && bl[w] == p;
                            assert(sl[w] == p);
                        }
                    }
                }
                assert forall|i: int, p: Peer| 0 <= i < n implies (#[trigger] self.owners_of(i).contains(p) <==> (old(self).owners_of(
                        i,
                    ).contains(p) || (p == peer && next.contains(i as u32)))) by {
                    assert(before.owners_of(i).contains(p) <==> (old(self).owners_of(i).contains(p) || (p == peer
                        && prefix.contains(i as u32))));
                    if i == ix {
                        assert(next.contains(i as u32));
                    } else {
                        assert(self.owners_of(i) == before.owners_of(i));
                        assert((i as u32) != idx);
                        assert(next.contains(i as u32) == prefix.contains(i as u32));
                    }
                }
                assert forall|i: int| 0 <= i < n implies #[trigger] self.frequency(i) == old(self).frequency(i) + if next.contains(i as u32) && !old(self).owners_of(i).contains(peer) {
                        1int
                    } else {
                        0int
                    } by {
                    assert(before.frequency(i) == old(self).frequency(i) + if prefix.contains(i as u32)
                        && !old(self).owners_of(i).contains(peer) {
                        1int
                    } else {
                        0int
                    });
                    assert(before.owners_of(i).contains(peer) <==> (old(self).owners_of(i).contains(peer)
                        || prefix.contains(i as u32)));
                    if i == ix {
                        assert(next.contains(i as u32));
                    } else {
                        assert(self.owners_of(i) == before.owners_of(i));
                        assert((i as u32) != idx);
                        assert(next.contains(i as u32) == prefix.contains(i as u32));
                    }
                }
            } else {
                assert forall|i: int| 0 <= i < n implies (#[trigger] indices@.subrange(0, k + 1).contains(i as u32)
                    == indices@.subrange(0, k as int).contains(i as u32)) by {
                    assert((i as u32) != idx);
                }
            }
            assert(self.pieces_status == before.pieces_status);
            assert(self.piece_hashes == before.piece_hashes);
            assert forall|i: int| 0 <= i < n implies #[trigger] self.completed(i) == old(self).completed(i) by {
                assert(before.completed(i) == old(self).completed(i));
            }
            assert forall|i: int| 0 <= i < n implies #[trigger] self.expected_hash(i) == old(self).expected_hash(i) by {
                assert(before.expected_hash(i) == old(self).expected_hash(i));
            }
            k = k + 1;
        }
        assert(indices@.subrange(0, k as int) =~= indices@);
    }

    /// Whether `data` is piece `index`: its SHA-1 digest equals, byte for
    /// byte, the piece's expected digest.
    pub fn validate(&self, index: u32, data: &[u8]) -> (r: bool)
        requires
            self.wf(),
            index < self.piece_count(),
        ensures
            r == (sha1_digest(data@) == self.expected_hash(index as int)),
    {
        let d = digest(data);
        bytes_equal(d.as_slice(), self.piece_hashes[index as usize].as_slice())
    }
}

/// A piece that is marked complete is never the piece that `rarest_missing`
/// picks; completion bits are only ever set, so this holds from the moment
/// `mark_complete` returns.
pub proof fn lemma_completed_piece_not_selected(t: PieceTracker, r: Rarest, i: u32)
    requires
        t.wf(),
        t.selection(r),
        (i as int) < t.piece_count(),
        t.completed(i as int),
    ensures
        r != Rarest::Piece(i),
{
}

/// The answer of `rarest_missing` is determined by the tracker's state:
/// fewest owners first, ties broken by the lowest index.
pub proof fn lemma_selection_deterministic(t: PieceTracker, r1: Rarest, r2: Rarest)
    requires
        t.wf(),
        t.selection(r1),
        t.selection(r2),
    ensures
        r1 == r2,
{
    match r1 {
        Rarest::Piece(i) => {
            assert(t.eligible(i as int));
            assert(!t.completed(i as int));
            if let Rarest::Piece(j) = r2 {
                assert(t.rarer_or_equal(i as int, j as int));
                assert(t.rarer_or_equal(j as int, i as int));
            }
        },
        Rarest::NoneAvailable => {
            if let Rarest::Piece(j) = r2 {
                assert(t.eligible(j as int));
            }
        },
        Rarest::AllComplete => {
            if let Rarest::Piece(j) = r2 {
                assert(t.completed(j as int));
            }
        },
    }
}

/// A tracker whose completion map is fully set answers `AllComplete`.
pub proof fn lemma_full_map_all_complete(t: PieceTracker, r: Rarest)
    requires
        t.wf(),
        t.selection(r),
        t.all_complete(),
    ensures
        r == Rarest::AllComplete,
{
    if let Rarest::NoneAvailable = r {
    }
}

} // verus!
