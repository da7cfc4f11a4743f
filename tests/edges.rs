use pirate::hash::compute_info_hash;
use pirate::metadata::total_size;
use pirate::metadata::Field;
use pirate::metadata::PieceStatus;
use pirate::metadata::TorrentMetadata;
use pirate::metadata::TorrentMetadataInfo;
use pirate::peers::Peer;
use pirate::pieces::bitfield_indices;
use pirate::storage::upload_retry_delay;
use pirate::storage::write_position;
use pirate::torrent::Torrent;
use pirate::tracker::build_tracker_query;

#[test]
fn bitfield_indices_most_significant_bit_first() {
    assert_eq!(bitfield_indices(&[0b1010_0000, 0b0000_0001], 16), vec![0, 2, 15]);
    assert_eq!(bitfield_indices(&[0b1010_0000, 0b0000_0001], 10), vec![0, 2]);
    assert_eq!(bitfield_indices(&[0xff], 20), vec![0, 1, 2, 3, 4, 5, 6, 7]);
    assert_eq!(bitfield_indices(&[], 5), Vec::<u32>::new());
}

#[test]
fn total_size_single_and_multi_file() {
    assert_eq!(total_size(Field::Present(1234), Field::Missing), Ok(1234));
    assert_eq!(total_size(Field::Present(-1), Field::Missing), Ok(u64::MAX));
    assert_eq!(
        total_size(Field::Missing, Field::Present(vec![Some(10), None, Some(32)])),
        Ok(42)
    );
    assert!(total_size(Field::Mismatched, Field::Present(vec![Some(1)])).is_err());
    assert!(total_size(Field::Missing, Field::Missing).is_err());
    assert!(total_size(Field::Missing, Field::Mismatched).is_err());
    assert!(total_size(Field::Missing, Field::Present(vec![Some(-1), Some(1)])).is_err());
}

#[test]
fn write_position_is_index_times_length_plus_begin() {
    assert_eq!(write_position(3, 5, 16384), Some(3 * 16384 + 5));
    assert_eq!(write_position(0, 0, 0), Some(0));
    assert_eq!(write_position(u64::MAX, 0, 2), None);
    assert_eq!(write_position(1, u64::MAX, 1), None);
}

#[test]
fn upload_retry_delay_doubles_until_limit() {
    assert_eq!(upload_retry_delay(1, 3), Some(2));
    assert_eq!(upload_retry_delay(2, 3), Some(4));
    assert_eq!(upload_retry_delay(3, 3), Some(8));
    assert_eq!(upload_retry_delay(4, 3), None);
    assert_eq!(upload_retry_delay(0, 0), Some(1));
    assert_eq!(upload_retry_delay(63, 100), Some(1u64 << 63));
    assert_eq!(upload_retry_delay(64, 100), Some(u64::MAX));
}

#[test]
fn info_hash_is_sha1_of_info_bytes() {
    assert_eq!(
        compute_info_hash(b"abc"),
        vec![
            0xa9, 0x99, 0x3e, 0x36, 0x47, 0x06, 0x81, 0x6a, 0xba, 0x3e, 0x25, 0x71, 0x78, 0x50, 0xc2,
            0x6c, 0x9c, 0xd0, 0xd8, 0x9d
        ]
    );
}

fn metadata(announce: &str, info_hash: Vec<u8>) -> TorrentMetadata {
    TorrentMetadata {
        info: TorrentMetadataInfo { pieces: vec![], piece_length: 16384, length: 26, name: "x".to_string() },
        info_hash,
        announce: announce.to_string(),
        pieces_status: vec![PieceStatus { downloaded: false }],
        file_path: "x".to_string(),
        peer_id: "plenty-of-fluid00001".to_string(),
    }
}

#[test]
fn tracker_query_encodes_parameters() {
    let q = build_tracker_query(&metadata("udp://tracker.example:80", vec![0x00, b' ', 0xff, b'a', b'~'])).unwrap();
    assert_eq!(
        q,
        "udp://tracker.example:80?peer_id=plenty-of-fluid00001&port=6881&uploaded=0&downloaded=0&compact=0&left=26&info_hash=%00+%FFa%7E"
    );
}

#[test]
fn tracker_query_strips_prefixed_announce() {
    let q = build_tracker_query(&metadata("s9udp://t/e", vec![])).unwrap();
    assert!(q.starts_with("udp://t/?peer_id="));
    assert!(q.ends_with("&info_hash="));
}

#[test]
fn closed_session_is_no_longer_a_candidate() {
    let alice = Peer { ip: 1, port: 1 };
    let bob = Peer { ip: 2, port: 2 };
    let mut t = Torrent::new([0u8; 20], 10, 10, vec![alice, bob], vec![[0u8; 20]], "x".to_string());
    t.start();
    t.open_session(alice);
    t.open_session(bob);
    assert!(t.close_session(alice));
    assert!(!t.close_session(alice));
    assert_eq!(t.session_peers(), vec![bob]);
    assert_eq!(t.peers(), &vec![alice, bob]);
    assert_eq!(t.piece_length(), 10);
}
