use pirate::config::Config;
use pirate::handshake::check_handshake;
use pirate::handshake::Handshake;
use pirate::message::decode;
use pirate::message::frame_length;
use pirate::message::identify_message;
use pirate::message::Message;
use pirate::message::MessageError;
use pirate::peers::unmarshal_peers;
use pirate::peers::Peer;

fn all_variants() -> Vec<Message> {
    vec![
        Message::Choke,
        Message::Unchoke,
        Message::Interested,
        Message::NotInterested,
        Message::Have,
        Message::Bitfield(vec![0b1010_0000, 0xff]),
        Message::Bitfield(vec![]),
        Message::Request(0),
        Message::Request(0x0102_0304),
        Message::Piece(7, 0, vec![1, 2, 3]),
        Message::Piece(u32::MAX, 16384, vec![]),
        Message::Cancel,
        Message::KeepAlive,
    ]
}

#[test]
fn decode_inverts_encode_for_every_variant() {
    for m in all_variants() {
        let frame = m.encode();
        assert_eq!(decode(&frame), Ok(m));
    }
}

#[test]
fn encode_request_exact_bytes() {
    assert_eq!(Message::Request(1).encode(), vec![0, 0, 0, 5, 6, 0, 0, 0, 1]);
}

#[test]
fn encode_piece_exact_bytes() {
    assert_eq!(
        Message::Piece(2, 3, vec![9, 8]).encode(),
        vec![0, 0, 0, 11, 7, 0, 0, 0, 2, 0, 0, 0, 3, 9, 8]
    );
}

#[test]
fn encode_keep_alive_is_zero_length_frame() {
    assert_eq!(Message::KeepAlive.encode(), vec![0, 0, 0, 0]);
    assert_eq!(decode(&[0, 0, 0, 0]), Ok(Message::KeepAlive));
}

#[test]
fn encode_choke_and_bitfield() {
    assert_eq!(Message::Choke.encode(), vec![0, 0, 0, 1, 0]);
    assert_eq!(Message::Bitfield(vec![0xaa]).encode(), vec![0, 0, 0, 2, 5, 0xaa]);
}

#[test]
fn decode_unknown_id_fails() {
    assert_eq!(decode(&[0, 0, 0, 1, 9]), Err(MessageError::UnknownMessage));
    assert_eq!(identify_message(42, &[]), Err(MessageError::UnknownMessage));
}

#[test]
fn decode_short_request_and_piece_fail() {
    assert_eq!(identify_message(6, &[0, 0, 1]), Err(MessageError::UnknownMessage));
    assert_eq!(identify_message(7, &[0, 0, 0, 1, 0, 0, 0]), Err(MessageError::UnknownMessage));
    assert_eq!(decode(&[0, 0, 0, 4, 6, 0, 0, 1]), Err(MessageError::UnknownMessage));
}

#[test]
fn decode_length_mismatch_is_conversion_error() {
    assert!(matches!(decode(&[0, 0, 0, 5, 0]), Err(MessageError::ConversionError(_))));
    assert!(matches!(decode(&[0, 0]), Err(MessageError::ConversionError(_))));
}

#[test]
fn identify_message_reads_fields() {
    assert_eq!(identify_message(0, &[]), Ok(Message::Choke));
    assert_eq!(identify_message(4, &[]), Ok(Message::Have));
    assert_eq!(identify_message(5, &[1, 2]), Ok(Message::Bitfield(vec![1, 2])));
    assert_eq!(identify_message(6, &[0, 0, 1, 0]), Ok(Message::Request(256)));
    assert_eq!(
        identify_message(7, &[0, 0, 0, 3, 0, 0, 0x40, 0, 5, 6]),
        Ok(Message::Piece(3, 16384, vec![5, 6]))
    );
    assert_eq!(identify_message(8, &[]), Ok(Message::Cancel));
}

#[test]
fn frame_length_reads_big_endian() {
    assert_eq!(frame_length(&[0, 0, 1, 2]), Ok(258));
    assert!(matches!(frame_length(&[1, 2, 3]), Err(MessageError::ConversionError(_))));
}

fn response_for(info_hash: &[u8]) -> Vec<u8> {
    let mut r = vec![19u8];
    r.extend_from_slice(b"BitTorrent protocol");
    r.extend_from_slice(&[0u8; 8]);
    r.extend_from_slice(info_hash);
    r.extend_from_slice(b"-XX0001-abcdefghijkl");
    r
}

#[test]
fn handshake_bytes_layout() {
    let id: Vec<u8> = (1..=20).collect();
    let h = Handshake::new(id.clone(), "plenty-of-fluid00001".to_string());
    let bytes = h.to_bytes();
    assert_eq!(bytes.len(), 68);
    assert_eq!(bytes[0], 19);
    assert_eq!(&bytes[1..20], b"BitTorrent protocol");
    assert_eq!(&bytes[20..28], &[0u8; 8]);
    assert_eq!(&bytes[28..48], id.as_slice());
    assert_eq!(&bytes[48..68], b"plenty-of-fluid00001");
}

#[test]
fn handshake_accepts_matching_content_id() {
    let id = [7u8; 20];
    assert_eq!(check_handshake(&response_for(&id), &id), Ok(()));
}

#[test]
fn handshake_rejects_every_single_bit_difference() {
    let id: Vec<u8> = (100..120).collect();
    for byte in 0..20 {
        for bit in 0..8 {
            let mut other = id.clone();
            other[byte] ^= 1 << bit;
            let r = check_handshake(&response_for(&other), &id);
            assert_eq!(r, Err(MessageError::HandshakeError("Invalid info hash".to_string())));
        }
    }
}

#[test]
fn handshake_rejects_truncated_response() {
    let id = [1u8; 20];
    let mut r = response_for(&id);
    r.truncate(60);
    assert_eq!(check_handshake(&r, &id), Err(MessageError::HandshakeError("Malformed handshake".to_string())));
    assert_eq!(check_handshake(&[], &id), Err(MessageError::HandshakeError("Malformed handshake".to_string())));
}

#[test]
fn config_values() {
    let c = Config::new();
    assert_eq!(c.hash_size, 20);
    assert_eq!(c.peer_size, 6);
    assert_eq!(c.default_pstr, "BitTorrent protocol");
    assert_eq!(c.bittorent_port, "6881");
    assert_eq!(c.tcp_port, 80);
    assert_eq!(c.array_size, 20);
}

#[test]
fn unmarshal_compact_peers() {
    let raw = vec![192, 168, 1, 2, 0x1a, 0xe1, 10, 0, 0, 1, 0, 80];
    let peers = unmarshal_peers(&raw).unwrap();
    assert_eq!(
        peers,
        vec![
            Peer { ip: 0xc0a8_0102, port: 6881 },
            Peer { ip: 0x0a00_0001, port: 80 }
        ]
    );
    assert_eq!(unmarshal_peers(&vec![]).unwrap(), vec![]);
}

#[test]
fn unmarshal_malformed_peer_list() {
    assert_eq!(unmarshal_peers(&vec![1, 2, 3, 4, 5]), Err("Received malformed peers".to_string()));
    assert!(unmarshal_peers(&vec![0; 13]).is_err());
}
