//! One transfer: its identity, peers, sessions, piece tracker and status, and
//! the scheduling decisions of the download loop. The loop itself runs
//! outside: it performs each request and each write, and hands the outcome
//! back to the methods here.

use vstd::prelude::*;
use crate::message::Message;
use crate::message::MessageError;
use crate::peers::Peer;
use crate::pieces::PieceTracker;
use crate::pieces::Rarest;
use crate::pieces::advertisement_recorded;
use crate::pieces::max_bits;
use crate::hash::sha1_digest;

verus! {

/// Where a transfer stands.
#[derive(Debug, Clone, Copy, PartialEq, Eq, Structural)]
pub enum TorrentStatus {
    Initialized,
    Connecting,
    Downloading,
    Seeding,
    Paused,
    Stopped,
    Completed,
}

/// How many times in a row a piece may fail on every candidate before the
/// transfer is reported stalled.
pub const MAX_PIECE_RETRIES: u32 = 5;

/// The wait after the first failed round on a piece; it doubles after each further one.
pub const BASE_BACKOFF_MS: u64 = 250;

/// The wait after the `retries`-th failed round in a row on a piece.
pub open spec fn backoff_ms(retries: nat) -> nat
    decreases retries,
{
    if retries <= 1 {
        BASE_BACKOFF_MS as nat
    } else {
        2 * backoff_ms((retries - 1) as nat)
    }
}

/// A peer with an open connection, and the piece on which it last failed
/// since its last success.
#[derive(Debug, Clone, Copy, PartialEq, Eq)]
pub struct Session {
    pub peer: Peer,
    pub last_failed: Option<u32>,
}

/// What the download loop does next.
#[derive(Debug)]
pub enum Selection {
    /// Ask these peers, in this order, for this piece, until one yields it.
    Fetch(u32, Vec<Peer>),
    /// Wait this many milliseconds, then select again.
    Wait(u64),
    /// Leave the loop; the transfer now has this status.
    Exit(TorrentStatus),
}

/// What becomes of a peer's answer to a piece request.
#[derive(Debug)]
pub enum Verdict {
    /// The data is the requested piece: persist it, then report with `on_saved`.
    Accept(Vec<u8>),
    /// The answer failed for this reason; try the next candidate.
    Reject(MessageError),
    /// The transfer is no longer downloading; drop the answer and leave the loop.
    Abandon,
}

/// The peers of a list of sessions, in order.
pub open spec fn session_peers(s: Seq<Session>) -> Seq<Peer> {
    s.map_values(|x: Session| x.peer)
}

/// The position of the last session with `peer`, or -1.
pub open spec fn find_session(s: Seq<Session>, peer: Peer) -> int
    decreases s.len(),
{
    if s.len() == 0 {
        -1
    } else if s.last().peer == peer {
        s.len() - 1
    } else {
        find_session(s.drop_last(), peer)
    }
}

/// Whether an answer is the requested piece with the expected digest.
pub open spec fn piece_matches(response: Result<Message, MessageError>, index: u32, expected: Seq<u8>) -> bool {
    match response {
        Ok(Message::Piece(i, _, d)) => i == index && sha1_digest(d@) == expected,
        _ => false,
    }
}

/// Why an answer that is not the requested piece with the expected digest
/// is rejected: the transport or decoding error itself, `MismatchedIndex`
/// for another piece, `HashMismatch` for the requested piece with other
/// data, `InvalidResponse` for any other message.
pub open spec fn rejection(response: Result<Message, MessageError>, index: u32) -> MessageError {
    match response {
        Err(e) => e,
        Ok(Message::Piece(i, _, _)) => if i != index {
            MessageError::MismatchedIndex
        } else {
            MessageError::HashMismatch
        },
        Ok(_) => MessageError::InvalidResponse,
    }
}

/// Whether a failure of `peer` on piece `index` is its second in a row on a
/// distinct piece, which evicts it.
pub open spec fn evicts(s: Seq<Session>, peer: Peer, index: u32) -> bool {
    let k = find_session(s, peer);
    k >= 0 && (s[k].last_failed matches Some(j) && j != index)
}

/// The sessions after `peer` failed on piece `index`.
pub open spec fn sessions_after_failure(s: Seq<Session>, peer: Peer, index: u32) -> Seq<Session> {
    let k = find_session(s, peer);
    if k < 0 {
        s
    } else if evicts(s, peer, index) {
        s.remove(k)
    } else {
        s.update(k, Session { peer, last_failed: Some(index) })
    }
}

/// The sessions after `peer` yielded a valid piece.
pub open spec fn sessions_after_success(s: Seq<Session>, peer: Peer) -> Seq<Session> {
    let k = find_session(s, peer);
    if k < 0 {
        s
    } else {
        s.update(k, Session { peer, last_failed: None })
    }
}

/// The peers of `s` other than `bad`, in order.
pub open spec fn without(s: Seq<Peer>, bad: Peer) -> Seq<Peer>
    decreases s.len(),
{
    if s.len() == 0 {
        s
    } else if s.last() == bad {
        without(s.drop_last(), bad)
    } else {
        without(s.drop_last(), bad).push(s.last())
    }
}

/// The position of the session with `peer`, as `find_session` gives it.
fn position_of(sessions: &Vec<Session>, peer: Peer) -> (r: Option<usize>)
    ensures
        match r {
            Some(k) => find_session(sessions@, peer) == k as int && k < sessions@.len(),
            None => find_session(sessions@, peer) == -1,
        },
{
    let mut i: usize = sessions.len();
    assert(sessions@.subrange(0, i as int) =~= sessions@);
    while i > 0
        invariant
            i <= sessions@.len(),
            find_session(sessions@, peer) == find_session(sessions@.subrange(0, i as int), peer),
        decreases i,
    {
        let ghost prefix = sessions@.subrange(0, i as int);
        assert(prefix.drop_last() =~= sessions@.subrange(0, i - 1));
        if sessions[i - 1].peer == peer {
            return Some(i - 1);
        }
        i = i - 1;
    }
    assert(sessions@.subrange(0, 0).len() == 0);
    None
}

/// The peers of `peers` other than `bad`, in order.
fn remove_from(peers: &Vec<Peer>, bad: Peer) -> (r: Vec<Peer>)
    ensures
        r@ == without(peers@, bad),
{
    let mut kept: Vec<Peer> = Vec::new();
    let mut k: usize = 0;
    while k < peers.len()
        invariant
            k <= peers@.len(),
            kept@ == without(peers@.subrange(0, k as int), bad),
        decreases peers@.len() - k,
    {
        let ghost next = peers@.subrange(0, k + 1);
        assert(next.drop_last() =~= peers@.subrange(0, k as int));
        if peers[k] != bad {
            kept.push(peers[k]);
        }
        k = k + 1;
    }
    assert(peers@.subrange(0, k as int) =~= peers@);
    kept
}

/// The wait after the `retries`-th failed round in a row on a piece.
fn backoff(retries: u32) -> (r: u64)
    requires
        1 <= retries < MAX_PIECE_RETRIES,
    ensures
        r == backoff_ms(retries as nat),
{
    let mut ms: u64 = BASE_BACKOFF_MS;
    let mut k: u32 = 1;
    while k < retries
        invariant
            1 <= k <= retries,
            retries < MAX_PIECE_RETRIES,
            ms == backoff_ms(k as nat),
            k == 1 ==> ms == 250,
            k == 2 ==> ms == 500,
            k == 3 ==> ms == 1000,
            k == 4 ==> ms == 2000,
        decreases retries - k,
    {
        ms = ms * 2;
        k = k + 1;
    }
    ms
}

/// One transfer and its download state.
pub struct Torrent {
    info_hash: [u8; 20],
    current_downloaded: u64,
    total_size: u64,
    piece_length: u64,
    peers: Vec<Peer>,
    pieces: PieceTracker,
    status: TorrentStatus,
    sessions: Vec<Session>,
    retries: Vec<u32>,
    accepted: Option<(u32, u64)>,
    path: String,
}

impl Torrent {
    pub closed spec fn status_spec(&self) -> TorrentStatus {
        self.status
    }

    pub closed spec fn tracker(&self) -> PieceTracker {
        self.pieces
    }

    pub closed spec fn sessions_spec(&self) -> Seq<Session> {
        self.sessions@
    }

    pub closed spec fn downloaded_spec(&self) -> u64 {
        self.current_downloaded
    }

    pub closed spec fn total_size_spec(&self) -> u64 {
        self.total_size
    }

    pub closed spec fn piece_length_spec(&self) -> u64 {
        self.piece_length
    }

    pub closed spec fn info_hash_spec(&self) -> Seq<u8> {
        self.info_hash@
    }

    pub closed spec fn peers_spec(&self) -> Seq<Peer> {
        self.peers@
    }

    pub closed spec fn path_spec(&self) -> Seq<char> {
        self.path@
    }

    /// The piece whose answer was accepted and awaits persisting, with the
    /// length of its data.
    pub closed spec fn accepted_spec(&self) -> Option<(u32, u64)> {
        self.accepted
    }

    /// Failed rounds in a row on piece `i`.
    pub closed spec fn retries_spec(&self, i: int) -> u32 {
        self.retries@[i]
    }

    /// The tracker is well formed, each piece has a count of failed rounds
    /// below the limit, and an accepted piece is one of the pieces.
    pub closed spec fn wf(&self) -> bool {
        &&& self.pieces.wf()
        &&& (self.accepted matches Some((i, _)) ==> i < self.pieces.piece_count())
        &&& self.retries@.len() == self.pieces.piece_count()
        &&& forall|i: int| 0 <= i < self.retries@.len() ==> #[trigger] self.retries@[i] < MAX_PIECE_RETRIES
    }

    /// The fixed description of the transfer is as in `other`: content id,
    /// total size, piece length and path.
    pub open spec fn same_identity(&self, other: &Torrent) -> bool {
        &&& self.total_size_spec() == other.total_size_spec()
        &&& self.piece_length_spec() == other.piece_length_spec()
        &&& self.info_hash_spec() == other.info_hash_spec()
        &&& self.path_spec() == other.path_spec()
    }

    /// Everything but the status is as in `other`.
    pub open spec fn same_but_status(&self, other: &Torrent) -> bool {
        &&& self.same_identity(other)
        &&& self.tracker() == other.tracker()
        &&& self.sessions_spec() == other.sessions_spec()
        &&& self.downloaded_spec() == other.downloaded_spec()
        &&& self.accepted_spec() == other.accepted_spec()
        &&& self.peers_spec() == other.peers_spec()
        &&& forall|i: int| 0 <= i < self.tracker().piece_count() ==> #[trigger] self.retries_spec(i)
            == other.retries_spec(i)
    }

    /// A new transfer: nothing complete, nothing advertised, no session.
    pub fn new(
        info_hash: [u8; 20],
        total_size: u64,
        piece_length: u64,
        peers: Vec<Peer>,
        piece_hashes: Vec<[u8; 20]>,
        path: String,
    ) -> (r: Torrent)
        requires
            piece_hashes@.len() <= u32::MAX,
            piece_hashes@.len() <= max_bits(),
        ensures
            r.wf(),
            r.status_spec() == TorrentStatus::Initialized,
            r.info_hash_spec() == info_hash@,
            r.total_size_spec() == total_size,
            r.piece_length_spec() == piece_length,
            r.downloaded_spec() == 0,
            r.accepted_spec() is None,
            r.peers_spec() == peers@,
            r.path_spec() == path@,
            r.sessions_spec() == Seq::<Session>::empty(),
            r.tracker().piece_count() == piece_hashes@.len(),
            forall|i: int| 0 <= i < piece_hashes@.len() ==> !#[trigger] r.tracker().completed(i),
            forall|i: int| 0 <= i < piece_hashes@.len() ==> #[trigger] r.tracker().frequency(i) == 0,
            forall|i: int| 0 <= i < piece_hashes@.len() ==> #[trigger] r.tracker().expected_hash(i)
                == piece_hashes@[i]@,
    {
        let n = piece_hashes.len();
        let pieces = PieceTracker::new(piece_hashes);
        let mut retries: Vec<u32> = Vec::new();
        let mut i: usize = 0;
        while i < n
            invariant
                i <= n,
                retries@.len() == i,
                forall|j: int| 0 <= j < i ==> #[trigger] retries@[j] == 0,
            decreases n - i,
        {
            retries.push(0);
            i = i + 1;
        }
        proof {
            assert forall|i: int| 0 <= i < n implies #[trigger] pieces.frequency(i) == 0 by {
                assert(pieces.owners_of(i) == Seq::<Peer>::empty());
            }
        }
        Torrent {
            info_hash,
            current_downloaded: 0,
            total_size,
            piece_length,
            peers,
            pieces,
            status: TorrentStatus::Initialized,
            sessions: Vec::new(),
            retries,
            accepted: None,
            path,
        }
    }

    /// The transfer's status.
    pub fn check_status(&self) -> (r: TorrentStatus)
        ensures
            r == self.status_spec(),
    {
        self.status
    }

    /// The content id.
    pub fn info_hash(&self) -> (r: [u8; 20])
        ensures
            r@ == self.info_hash_spec(),
    {
        self.info_hash
    }

    /// Bytes of verified pieces persisted so far.
    pub fn downloaded(&self) -> (r: u64)
        ensures
            r == self.downloaded_spec(),
    {
        self.current_downloaded
    }

    /// The size of the whole content.
    pub fn total_size(&self) -> (r: u64)
        ensures
            r == self.total_size_spec(),
    {
        self.total_size
    }

    /// The length of every piece but the last.
    pub fn piece_length(&self) -> (r: u64)
        ensures
            r == self.piece_length_spec(),
    {
        self.piece_length
    }

    /// Drops the session with `peer` after its connection failed; the peer
    /// itself stays known.
    pub fn close_session(&mut self, peer: Peer) -> (r: bool)
        ensures
            r == (find_session(old(self).sessions_spec(), peer) >= 0),
            final(self).sessions_spec() == if r {
                old(self).sessions_spec().remove(find_session(old(self).sessions_spec(), peer))
            } else {
                old(self).sessions_spec()
            },
            final(self).status_spec() == old(self).status_spec(),
            final(self).tracker() == old(self).tracker(),
            final(self).peers_spec() == old(self).peers_spec(),
            final(self).downloaded_spec() == old(self).downloaded_spec(),
            final(self).same_identity(old(self)),
            final(self).accepted_spec() == old(self).accepted_spec(),
            forall|i: int| #[trigger] final(self).retries_spec(i) == old(self).retries_spec(i),
            final(self).wf() == old(self).wf(),
    {
        match position_of(&self.sessions, peer) {
            Some(k) => {
                self.sessions.remove(k);
                true
            },
            None => false,
        }
    }

    /// Where the content is persisted.
    pub fn path(&self) -> (r: &String)
        ensures
            r@ == self.path_spec(),
    {
        &self.path
    }

    /// The known peers of the transfer.
    pub fn peers(&self) -> (r: &Vec<Peer>)
        ensures
            r@ == self.peers_spec(),
    {
        &self.peers
    }

    /// The piece tracker.
    pub fn pieces(&self) -> (r: &PieceTracker)
        ensures
            *r == self.tracker(),
            self.wf() ==> r.wf(),
    {
        &self.pieces
    }

    /// Starts a new transfer: `Initialized` becomes `Connecting`. Any other
    /// status is left alone and `false` returned.
    pub fn start(&mut self) -> (r: bool)
        ensures
            r == (old(self).status_spec() == TorrentStatus::Initialized),
            final(self).status_spec() == if r {
                TorrentStatus::Connecting
            } else {
                old(self).status_spec()
            },
            final(self).same_but_status(old(self)),
            final(self).wf() == old(self).wf(),
    {
        if self.status == TorrentStatus::Initialized {
            self.status = TorrentStatus::Connecting;
            true
        } else {
            false
        }
    }

    /// Records a session opened with `peer` after a successful handshake,
    /// while the transfer is connecting or downloading and the peer has none yet.
    pub fn open_session(&mut self, peer: Peer) -> (r: bool)
        ensures
            r == ((old(self).status_spec() == TorrentStatus::Connecting || old(self).status_spec()
                == TorrentStatus::Downloading) && find_session(old(self).sessions_spec(), peer) == -1),
            final(self).sessions_spec() == if r {
                old(self).sessions_spec().push(Session { peer, last_failed: None })
            } else {
                old(self).sessions_spec()
            },
            final(self).status_spec() == old(self).status_spec(),
            final(self).tracker() == old(self).tracker(),
            final(self).peers_spec() == old(self).peers_spec(),
            final(self).downloaded_spec() == old(self).downloaded_spec(),
            final(self).same_identity(old(self)),
            final(self).accepted_spec() == old(self).accepted_spec(),
            forall|i: int| #[trigger] final(self).retries_spec(i) == old(self).retries_spec(i),
            final(self).wf() == old(self).wf(),
    {
        if self.status != TorrentStatus::Connecting && self.status != TorrentStatus::Downloading {
            return false;
        }
        match position_of(&self.sessions, peer) {
            Some(_) => false,
            None => {
                self.sessions.push(Session { peer, last_failed: None });
                true
            },
        }
    }

    /// Moves a connecting transfer to downloading, once connections were attempted.
    pub fn begin_download(&mut self) -> (r: bool)
        ensures
            r == (old(self).status_spec() == TorrentStatus::Connecting),
            final(self).status_spec() == if r {
                TorrentStatus::Downloading
            } else {
                old(self).status_spec()
            },
            final(self).same_but_status(old(self)),
            final(self).wf() == old(self).wf(),
    {
        if self.status == TorrentStatus::Connecting {
            self.status = TorrentStatus::Downloading;
            true
        } else {
            false
        }
    }

    /// Pauses a connecting or downloading transfer and drops its sessions.
    pub fn pause(&mut self) -> (r: bool)
        ensures
            r == (old(self).status_spec() == TorrentStatus::Connecting || old(self).status_spec()
                == TorrentStatus::Downloading),
            final(self).status_spec() == if r {
                TorrentStatus::Paused
            } else {
                old(self).status_spec()
            },
            final(self).sessions_spec() == if r {
                Seq::<Session>::empty()
            } else {
                old(self).sessions_spec()
            },
            final(self).tracker() == old(self).tracker(),
            final(self).peers_spec() == old(self).peers_spec(),
            final(self).downloaded_spec() == old(self).downloaded_spec(),
            final(self).same_identity(old(self)),
            final(self).accepted_spec() == old(self).accepted_spec(),
            forall|i: int| #[trigger] final(self).retries_spec(i) == old(self).retries_spec(i),
            final(self).wf() == old(self).wf(),
    {
        if self.status == TorrentStatus::Connecting || self.status == TorrentStatus::Downloading {
            self.status = TorrentStatus::Paused;
            self.sessions = Vec::new();
            true
        } else {
            false
        }
    }

    /// Resumes a paused transfer.
    pub fn resume(&mut self) -> (r: bool)
        ensures
            r == (old(self).status_spec() == TorrentStatus::Paused),
            final(self).status_spec() == if r {
                TorrentStatus::Downloading
            } else {
                old(self).status_spec()
            },
            final(self).same_but_status(old(self)),
            final(self).wf() == old(self).wf(),
    {
        if self.status == TorrentStatus::Paused {
            self.status = TorrentStatus::Downloading;
            true
        } else {
            false
        }
    }

    /// Stops the transfer for good and drops its sessions. A stopped or
    /// completed transfer is left alone.
    pub fn stop(&mut self) -> (r: bool)
        ensures
            r == (old(self).status_spec() != TorrentStatus::Stopped && old(self).status_spec()
                != TorrentStatus::Completed),
            final(self).status_spec() == if r {
                TorrentStatus::Stopped
            } else {
                old(self).status_spec()
            },
            final(self).sessions_spec() == if r {
                Seq::<Session>::empty()
            } else {
                old(self).sessions_spec()
            },
            final(self).tracker() == old(self).tracker(),
            final(self).peers_spec() == old(self).peers_spec(),
            final(self).downloaded_spec() == old(self).downloaded_spec(),
            final(self).same_identity(old(self)),
            final(self).accepted_spec() == old(self).accepted_spec(),
            forall|i: int| #[trigger] final(self).retries_spec(i) == old(self).retries_spec(i),
            final(self).wf() == old(self).wf(),
    {
        if self.status != TorrentStatus::Stopped && self.status != TorrentStatus::Completed {
            self.status = TorrentStatus::Stopped;
            self.sessions = Vec::new();
            true
        } else {
            false
        }
    }

    /// Records that `peer` advertised the pieces in `indices`.
    pub fn record_advertisement(&mut self, peer: Peer, indices: &[u32])
        requires
            old(self).wf(),
        ensures
            final(self).wf(),
            advertisement_recorded(old(self).tracker(), final(self).tracker(), peer, indices@),
            final(self).same_identity(old(self)),
            final(self).accepted_spec() == old(self).accepted_spec(),
            final(self).status_spec() == old(self).status_spec(),
            final(self).sessions_spec() == old(self).sessions_spec(),
            final(self).peers_spec() == old(self).peers_spec(),
            final(self).downloaded_spec() == old(self).downloaded_spec(),
            forall|i: int| #[trigger] final(self).retries_spec(i) == old(self).retries_spec(i),
    {
        self.pieces.record_advertisement(peer, indices);
    }

    /// Whether `piece` is piece `piece_index`, by its SHA-1 digest.
    pub fn validate_piece(&self, piece: &[u8], piece_index: u32) -> (r: bool)
        requires
            self.wf(),
            piece_index < self.tracker().piece_count(),
        ensures
            r == (sha1_digest(piece@) == self.tracker().expected_hash(piece_index as int)),
    {
        self.pieces.validate(piece_index, piece)
    }

    /// Drops `bad_peer` from the known peers.
    pub fn remove_peer(&mut self, bad_peer: &Peer)
        ensures
            final(self).peers_spec() == without(old(self).peers_spec(), *bad_peer),
            final(self).same_identity(old(self)),
            final(self).accepted_spec() == old(self).accepted_spec(),
            final(self).status_spec() == old(self).status_spec(),
            final(self).sessions_spec() == old(self).sessions_spec(),
            final(self).tracker() == old(self).tracker(),
            final(self).downloaded_spec() == old(self).downloaded_spec(),
            forall|i: int| #[trigger] final(self).retries_spec(i) == old(self).retries_spec(i),
            final(self).wf() == old(self).wf(),
    {
        self.peers = remove_from(&self.peers, *bad_peer);
    }

    /// The top of the download loop. A transfer that is not downloading
    /// leaves the loop. Otherwise: every piece complete makes it `Completed`
    /// when the bytes counted equal the total size, and `Paused` when they
    /// disagree, for the transfer cannot be trusted as complete; no missing
    /// piece advertised makes it `Paused`; else the rarest missing
    /// piece is fetched from the peers with a session, in order.
    pub fn select_rarest_piece(&mut self) -> (r: Selection)
        requires
            old(self).wf(),
        ensures
            final(self).wf(),
            final(self).same_but_status(old(self)),
            old(self).status_spec() != TorrentStatus::Downloading ==> (r matches Selection::Exit(s) && s
                == old(self).status_spec() && final(self).status_spec() == old(self).status_spec()),
            old(self).status_spec() == TorrentStatus::Downloading ==> match r {
                Selection::Fetch(i, c) => old(self).tracker().is_rarest(i as int) && c@ == session_peers(
                    old(self).sessions_spec(),
                ) && final(self).status_spec() == TorrentStatus::Downloading,
                Selection::Wait(_) => false,
                Selection::Exit(s) => s == final(self).status_spec() && ((old(self).tracker().all_complete()
                    && old(self).downloaded_spec() == old(self).total_size_spec() && s == TorrentStatus::Completed)
                    || (old(self).tracker().all_complete() && old(self).downloaded_spec()
                    != old(self).total_size_spec() && s == TorrentStatus::Paused) || (old(self).tracker().selection(
                    Rarest::NoneAvailable,
                ) && s == TorrentStatus::Paused)),
            },
    {
        if self.status != TorrentStatus::Downloading {
            return Selection::Exit(self.status);
        }
        match self.pieces.rarest_missing() {
            Rarest::Piece(i) => Selection::Fetch(i, self.session_peers()),
            Rarest::AllComplete => {
                if self.current_downloaded == self.total_size {
                    self.status = TorrentStatus::Completed;
                    Selection::Exit(TorrentStatus::Completed)
                } else {
                    self.status = TorrentStatus::Paused;
                    Selection::Exit(TorrentStatus::Paused)
                }
            },
            Rarest::NoneAvailable => {
                self.status = TorrentStatus::Paused;
                Selection::Exit(TorrentStatus::Paused)
            },
        }
    }

    /// Judges `peer`'s answer to a request for piece `index`. While the
    /// transfer downloads, the answer is accepted exactly when it is that
    /// piece with the expected digest, and it is kept as the piece awaiting
    /// persisting; a rejected answer carries its reason and counts against
    /// the peer, which is evicted on its second failure in a row on a
    /// distinct piece. A transfer that no longer downloads drops the answer.
    pub fn on_response(&mut self, peer: Peer, index: u32, response: Result<Message, MessageError>) -> (r: Verdict)
        requires
            old(self).wf(),
            index < old(self).tracker().piece_count(),
        ensures
            final(self).wf(),
            final(self).status_spec() == old(self).status_spec(),
            final(self).tracker() == old(self).tracker(),
            final(self).downloaded_spec() == old(self).downloaded_spec(),
            final(self).same_identity(old(self)),
            forall|i: int| #[trigger] final(self).retries_spec(i) == old(self).retries_spec(i),
            old(self).status_spec() != TorrentStatus::Downloading ==> (r is Abandon && final(self).sessions_spec()
                == old(self).sessions_spec() && final(self).peers_spec() == old(self).peers_spec()
                && final(self).accepted_spec() == old(self).accepted_spec()),
            old(self).status_spec() == TorrentStatus::Downloading && piece_matches(
                response,
                index,
                old(self).tracker().expected_hash(index as int),
            ) ==> (r matches Verdict::Accept(d) && (response matches Ok(Message::Piece(_, _, sent)) && d@
                == sent@ && final(self).accepted_spec() == Some((index, d@.len() as u64))) && final(self).sessions_spec() == sessions_after_success(old(self).sessions_spec(), peer) && final(self).peers_spec() == old(self).peers_spec()),
            old(self).status_spec() == TorrentStatus::Downloading && !piece_matches(
                response,
                index,
                old(self).tracker().expected_hash(index as int),
            ) ==> ((r matches Verdict::Reject(e) && e == rejection(response, index)) && final(self).accepted_spec() == old(self).accepted_spec() && final(self).sessions_spec() == sessions_after_failure(
                old(self).sessions_spec(),
                peer,
                index,
            ) && final(self).peers_spec() == if evicts(old(self).sessions_spec(), peer, index) {
                without(old(self).peers_spec(), peer)
            } else {
                old(self).peers_spec()
            }),
    {
        if self.status != TorrentStatus::Downloading {
            return Verdict::Abandon;
        }
        let pos = position_of(&self.sessions, peer);
        let accepted = match &response {
            Ok(Message::Piece(i, _, data)) => *i == index && self.pieces.validate(index, data.as_slice()),
            _ => false,
        };
        if accepted {
            if let Some(k) = pos {
                self.sessions.set(k, Session { peer, last_failed: None });
            }
            match response {
                Ok(Message::Piece(_, _, data)) => {
                    self.accepted = Some((index, data.len() as u64));
                    Verdict::Accept(data)
                },
                Ok(_) => Verdict::Reject(MessageError::InvalidResponse),
                Err(e) => Verdict::Reject(e),
            }
        } else {
            if let Some(k) = pos {
                let evict = match self.sessions[k].last_failed {
                    Some(j) => j != index,
                    None => false,
                };
                if evict {
                    self.sessions.remove(k);
                    self.peers = remove_from(&self.peers, peer);
                } else {
                    self.sessions.set(k, Session { peer, last_failed: Some(index) });
                }
            }
            match response {
                Err(e) => Verdict::Reject(e),
                Ok(Message::Piece(i, _, _)) => {
                    if i != index {
                        Verdict::Reject(MessageError::MismatchedIndex)
                    } else {
                        Verdict::Reject(MessageError::HashMismatch)
                    }
                },
                Ok(_) => Verdict::Reject(MessageError::InvalidResponse),
            }
        }
    }

    /// Reports whether the accepted piece was persisted. Only the piece of
    /// the last accepted answer is ever marked: when it was persisted and
    /// the transfer still downloads, it is marked complete and its bytes
    /// counted; otherwise nothing changes. Either way the accepted piece is
    /// forgotten.
    pub fn on_saved(&mut self, saved: bool) -> (r: bool)
        requires
            old(self).wf(),
        ensures
            final(self).wf(),
            r == (saved && old(self).status_spec() == TorrentStatus::Downloading && old(self).accepted_spec() is Some),
            final(self).accepted_spec() is None,
            final(self).same_identity(old(self)),
            final(self).status_spec() == old(self).status_spec(),
            final(self).sessions_spec() == old(self).sessions_spec(),
            final(self).peers_spec() == old(self).peers_spec(),
            final(self).tracker().piece_count() == old(self).tracker().piece_count(),
            forall|i: int| 0 <= i < old(self).tracker().piece_count() ==> #[trigger] final(self).tracker().owners_of(i)
                == old(self).tracker().owners_of(i),
            forall|i: int| 0 <= i < old(self).tracker().piece_count() ==> #[trigger] final(self).tracker().expected_hash(i)
                == old(self).tracker().expected_hash(i),
            !r ==> final(self).tracker() == old(self).tracker() && final(self).downloaded_spec() == old(self).downloaded_spec() && forall|i: int| #[trigger] final(self).retries_spec(i) == old(self).retries_spec(i),
            r ==> match old(self).accepted_spec() {
                Some((index, length)) => {
                    &&& forall|i: int| 0 <= i < old(self).tracker().piece_count() ==> #[trigger] final(self).tracker().completed(i) == (i == index || old(self).tracker().completed(i))
                    &&& final(self).downloaded_spec() == if old(self).downloaded_spec() + length <= u64::MAX {
                        old(self).downloaded_spec() + length
                    } else {
                        u64::MAX as int
                    }
                    &&& forall|i: int| 0 <= i < old(self).tracker().piece_count() ==> #[trigger] final(self).retries_spec(i) == if i == index {
                        0
                    } else {
                        old(self).retries_spec(i)
                    }
                },
                None => false,
            },
    {
        let accepted = self.accepted;
        self.accepted = None;
        if !saved || self.status != TorrentStatus::Downloading {
            return false;
        }
        match accepted {
            None => false,
            Some((index, length)) => {
                self.pieces.mark_complete(index);
                self.current_downloaded = if length <= u64::MAX - self.current_downloaded {
                    self.current_downloaded + length
                } else {
                    u64::MAX
                };
                self.retries.set(index as usize, 0);
                true
            },
        }
    }

    /// Reports that every candidate failed on piece `index`. The piece waits
    /// out an exponential backoff before it is selected again; after
    /// `MAX_PIECE_RETRIES` failed rounds in a row the transfer is paused as stalled.
    pub fn on_piece_failed(&mut self, index: u32) -> (r: Selection)
        requires
            old(self).wf(),
            index < old(self).tracker().piece_count(),
        ensures
            final(self).wf(),
            final(self).tracker() == old(self).tracker(),
            final(self).sessions_spec() == old(self).sessions_spec(),
            final(self).peers_spec() == old(self).peers_spec(),
            final(self).downloaded_spec() == old(self).downloaded_spec(),
            final(self).same_identity(old(self)),
            final(self).accepted_spec() == old(self).accepted_spec(),
            forall|i: int| 0 <= i < old(self).tracker().piece_count() && i != index ==> #[trigger] final(self).retries_spec(i)
                == old(self).retries_spec(i),
            old(self).status_spec() != TorrentStatus::Downloading ==> (r matches Selection::Exit(s) && s
                == old(self).status_spec() && final(self).status_spec() == old(self).status_spec()
                && final(self).retries_spec(index as int) == old(self).retries_spec(index as int)),
            old(self).status_spec() == TorrentStatus::Downloading && old(self).retries_spec(index as int) + 1
                >= MAX_PIECE_RETRIES ==> (r matches Selection::Exit(s) && s == TorrentStatus::Paused
                && final(self).status_spec() == TorrentStatus::Paused && final(self).retries_spec(index as int)
                == 0),
            old(self).status_spec() == TorrentStatus::Downloading && old(self).retries_spec(index as int) + 1
                < MAX_PIECE_RETRIES ==> (r matches Selection::Wait(ms) && ms == backoff_ms(
                (old(self).retries_spec(index as int) + 1) as nat,
            ) && final(self).status_spec() == TorrentStatus::Downloading && final(self).retries_spec(
                index as int,
            ) == old(self).retries_spec(index as int) + 1),
    {
        if self.status != TorrentStatus::Downloading {
            return Selection::Exit(self.status);
        }
        let n = self.retries[index as usize] + 1;
        if n >= MAX_PIECE_RETRIES {
            self.retries.set(index as usize, 0);
            self.status = TorrentStatus::Paused;
            Selection::Exit(TorrentStatus::Paused)
        } else {
            self.retries.set(index as usize, n);
            Selection::Wait(backoff(n))
        }
    }

    /// Whether this side holds piece `index` and may serve it to a peer that
    /// requests it: the piece exists and is verified and persisted.
    pub fn holds_piece(&self, index: u32) -> (r: bool)
        requires
            self.wf(),
        ensures
            r == (index < self.tracker().piece_count() && self.tracker().completed(index as int)),
    {
        (index as usize) < self.pieces.len() && self.pieces.is_complete(index)
    }

    /// The peers with an open session, in the order they connected.
    pub fn session_peers(&self) -> (r: Vec<Peer>)
        ensures
            r@ == session_peers(self.sessions_spec()),
    {
        let mut r: Vec<Peer> = Vec::new();
        let mut k: usize = 0;
        while k < self.sessions.len()
            invariant
                k <= self.sessions@.len(),
                r@ =~= session_peers(self.sessions@.subrange(0, k as int)),
            decreases self.sessions@.len() - k,
        {
            r.push(self.sessions[k].peer);
            k = k + 1;
        }
        assert(self.sessions@.subrange(0, k as int) =~= self.sessions@);
        r
    }
}

} // verus!
