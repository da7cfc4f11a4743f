use pirate::message::Message;
use pirate::message::MessageError;
use pirate::peers::Peer;
use pirate::pieces::Rarest;
use pirate::torrent::Selection;
use pirate::torrent::Torrent;
use pirate::torrent::TorrentStatus;
use pirate::torrent::Verdict;
use sha1::Digest;

fn digest(data: &[u8]) -> [u8; 20] {
    let d = sha1::Sha1::digest(data);
    let mut a = [0u8; 20];
    a.copy_from_slice(&d);
    a
}

fn peer(n: u32) -> Peer {
    Peer { ip: 0x7f00_0000 + n, port: 6881 }
}

/// Drives the download loop the way the application does, with `answer`
/// standing for the network and every write succeeding.
fn run(
    t: &mut Torrent,
    answer: &dyn Fn(Peer, u32) -> Result<Message, MessageError>,
    saved: &mut Vec<(u32, Vec<u8>)>,
) -> (TorrentStatus, usize) {
    let mut rounds = 0usize;
    loop {
        rounds += 1;
        assert!(rounds < 1000, "the loop did not end");
        match t.select_rarest_piece() {
            Selection::Exit(s) => return (s, rounds),
            Selection::Wait(_) => continue,
            Selection::Fetch(i, candidates) => {
                let mut done = false;
                for p in candidates {
                    match t.on_response(p, i, answer(p, i)) {
                        Verdict::Accept(data) => {
                            saved.push((i, data));
                            if t.on_saved(true) {
                                done = true;
                                break;
                            }
                        },
                        Verdict::Reject(_) => continue,
                        Verdict::Abandon => return (t.check_status(), rounds),
                    }
                }
                if !done {
                    if let Selection::Exit(s) = t.on_piece_failed(i) {
                        return (s, rounds);
                    }
                }
            },
        }
    }
}

fn two_piece_torrent() -> (Torrent, Vec<Vec<u8>>) {
    let pieces = vec![vec![1u8; 16], vec![2u8; 10]];
    let hashes = vec![digest(&pieces[0]), digest(&pieces[1])];
    let t = Torrent::new([9u8; 20], 26, 16, vec![peer(1), peer(2)], hashes, "out".to_string());
    (t, pieces)
}

#[test]
fn two_peers_each_with_one_piece_complete_the_torrent() {
    let (mut t, pieces) = two_piece_torrent();
    assert_eq!(t.check_status(), TorrentStatus::Initialized);
    assert!(t.start());
    assert!(t.open_session(peer(1)));
    assert!(t.open_session(peer(2)));
    assert!(!t.open_session(peer(2)));
    assert!(t.begin_download());
    t.record_advertisement(peer(1), &[0]);
    t.record_advertisement(peer(2), &[1]);
    let answer = |p: Peer, i: u32| -> Result<Message, MessageError> {
        if (p == peer(1) && i == 0) || (p == peer(2) && i == 1) {
            Ok(Message::Piece(i, 0, pieces[i as usize].clone()))
        } else {
            Err(MessageError::IOError("piece not held".to_string()))
        }
    };
    let mut saved = Vec::new();
    let (status, _) = run(&mut t, &answer, &mut saved);
    assert_eq!(status, TorrentStatus::Completed);
    assert_eq!(t.check_status(), TorrentStatus::Completed);
    assert!(t.pieces().is_complete(0));
    assert!(t.pieces().is_complete(1));
    assert!(t.pieces().is_all_complete());
    let total: usize = saved.iter().map(|(_, d)| d.len()).sum();
    assert_eq!(total as u64, t.total_size());
    assert_eq!(t.downloaded(), 26);
}

#[test]
fn peer_answering_wrong_index_stalls_without_completing() {
    let (mut t, pieces) = two_piece_torrent();
    t.start();
    t.open_session(peer(1));
    t.begin_download();
    t.record_advertisement(peer(1), &[0, 1]);
    let answer = |_p: Peer, i: u32| -> Result<Message, MessageError> {
        Ok(Message::Piece(i + 1, 0, pieces[i as usize].clone()))
    };
    let mut saved = Vec::new();
    let (status, rounds) = run(&mut t, &answer, &mut saved);
    assert_eq!(status, TorrentStatus::Paused);
    assert!(rounds <= 10);
    assert!(saved.is_empty());
    assert!(!t.pieces().is_complete(0));
    assert!(!t.pieces().is_complete(1));
    assert_eq!(t.downloaded(), 0);
}

#[test]
fn corrupted_data_is_rejected_and_next_candidate_used() {
    let (mut t, pieces) = two_piece_torrent();
    t.start();
    t.open_session(peer(1));
    t.open_session(peer(2));
    t.begin_download();
    t.record_advertisement(peer(1), &[0, 1]);
    t.record_advertisement(peer(2), &[0, 1]);
    let answer = |p: Peer, i: u32| -> Result<Message, MessageError> {
        let mut d = pieces[i as usize].clone();
        if p == peer(1) {
            d[0] ^= 1;
        }
        Ok(Message::Piece(i, 0, d))
    };
    let mut saved = Vec::new();
    let (status, _) = run(&mut t, &answer, &mut saved);
    assert_eq!(status, TorrentStatus::Completed);
    assert_eq!(saved, vec![(0, pieces[0].clone()), (1, pieces[1].clone())]);
    // peer 1 failed on two distinct pieces in a row: evicted
    assert_eq!(t.session_peers(), vec![peer(2)]);
    assert_eq!(t.peers(), &vec![peer(2)]);
}

#[test]
fn pause_mid_download_discards_arrived_piece() {
    let (mut t, pieces) = two_piece_torrent();
    t.start();
    t.open_session(peer(1));
    t.begin_download();
    t.record_advertisement(peer(1), &[0, 1]);
    let (index, candidates) = match t.select_rarest_piece() {
        Selection::Fetch(i, c) => (i, c),
        other => panic!("unexpected {:?}", other),
    };
    assert_eq!(index, 0);
    assert_eq!(candidates, vec![peer(1)]);
    let response = Ok(Message::Piece(0, 0, pieces[0].clone()));
    assert!(t.pause());
    assert!(matches!(t.on_response(peer(1), 0, response), Verdict::Abandon));
    assert!(!t.on_saved(true));
    assert!(!t.pieces().is_complete(0));
    assert!(matches!(t.select_rarest_piece(), Selection::Exit(TorrentStatus::Paused)));
    assert!(t.session_peers().is_empty());
    assert!(t.resume());
    assert_eq!(t.check_status(), TorrentStatus::Downloading);
}

#[test]
fn stop_is_terminal() {
    let (mut t, _) = two_piece_torrent();
    t.start();
    t.begin_download();
    assert!(t.stop());
    assert_eq!(t.check_status(), TorrentStatus::Stopped);
    assert!(!t.resume());
    assert!(!t.start());
    assert!(!t.pause());
    assert!(!t.stop());
    assert!(matches!(t.select_rarest_piece(), Selection::Exit(TorrentStatus::Stopped)));
}

#[test]
fn no_advertised_piece_pauses() {
    let (mut t, _) = two_piece_torrent();
    t.start();
    t.begin_download();
    assert!(matches!(t.select_rarest_piece(), Selection::Exit(TorrentStatus::Paused)));
    assert_eq!(t.pieces().rarest_missing(), Rarest::NoneAvailable);
}

#[test]
fn failed_rounds_back_off_exponentially_then_stall() {
    let (mut t, _) = two_piece_torrent();
    t.start();
    t.begin_download();
    let mut waits = Vec::new();
    loop {
        match t.on_piece_failed(1) {
            Selection::Wait(ms) => waits.push(ms),
            Selection::Exit(s) => {
                assert_eq!(s, TorrentStatus::Paused);
                break;
            },
            other => panic!("unexpected {:?}", other),
        }
    }
    assert_eq!(waits, vec![250, 500, 1000, 2000]);
}

#[test]
fn storage_failure_does_not_mark_complete() {
    let (mut t, pieces) = two_piece_torrent();
    t.start();
    t.open_session(peer(1));
    t.begin_download();
    assert!(!t.on_saved(true));
    assert!(!t.pieces().is_complete(0));
    let v = t.on_response(peer(1), 0, Ok(Message::Piece(0, 0, pieces[0].clone())));
    assert!(matches!(v, Verdict::Accept(_)));
    assert!(!t.on_saved(false));
    assert!(!t.pieces().is_complete(0));
    assert!(!t.on_saved(true));
    let v = t.on_response(peer(1), 0, Ok(Message::Piece(0, 0, pieces[0].clone())));
    assert!(matches!(v, Verdict::Accept(_)));
    assert!(t.on_saved(true));
    assert!(t.pieces().is_complete(0));
    assert!(t.holds_piece(0));
    assert!(!t.holds_piece(1));
    assert!(!t.holds_piece(7));
    assert_eq!(t.downloaded(), 16);
}

#[test]
fn rejection_carries_its_reason() {
    let (mut t, pieces) = two_piece_torrent();
    t.start();
    t.open_session(peer(1));
    t.begin_download();
    match t.on_response(peer(1), 0, Ok(Message::Piece(1, 0, pieces[1].clone()))) {
        Verdict::Reject(e) => assert_eq!(e, MessageError::MismatchedIndex),
        other => panic!("unexpected {:?}", other),
    }
    match t.on_response(peer(1), 0, Ok(Message::Choke)) {
        Verdict::Reject(e) => assert_eq!(e, MessageError::InvalidResponse),
        other => panic!("unexpected {:?}", other),
    }
    match t.on_response(peer(1), 0, Ok(Message::Piece(0, 0, vec![0u8; 16]))) {
        Verdict::Reject(e) => assert_eq!(e, MessageError::HashMismatch),
        other => panic!("unexpected {:?}", other),
    }
    match t.on_response(peer(1), 0, Err(MessageError::UnknownMessage)) {
        Verdict::Reject(e) => assert_eq!(e, MessageError::UnknownMessage),
        other => panic!("unexpected {:?}", other),
    }
    assert!(!t.on_saved(true));
    assert!(!t.pieces().is_complete(0));
}

#[test]
fn full_map_with_short_byte_count_is_not_completed() {
    let piece = vec![5u8; 16];
    let mut t = Torrent::new([1u8; 20], 100, 100, vec![peer(1)], vec![digest(&piece)], "out".to_string());
    t.start();
    t.open_session(peer(1));
    t.begin_download();
    t.record_advertisement(peer(1), &[0]);
    assert!(matches!(t.on_response(peer(1), 0, Ok(Message::Piece(0, 0, piece.clone()))), Verdict::Accept(_)));
    assert!(t.on_saved(true));
    assert!(t.pieces().is_all_complete());
    assert_eq!(t.downloaded(), 16);
    assert!(matches!(t.select_rarest_piece(), Selection::Exit(TorrentStatus::Paused)));
    assert_eq!(t.check_status(), TorrentStatus::Paused);
}

#[test]
fn remove_peer_keeps_order_of_others() {
    let mut t = Torrent::new([0u8; 20], 0, 16, vec![peer(1), peer(2), peer(1), peer(3)], vec![], "p".to_string());
    t.remove_peer(&peer(1));
    assert_eq!(t.peers(), &vec![peer(2), peer(3)]);
}
