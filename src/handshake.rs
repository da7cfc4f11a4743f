//! The handshake frame, sent and checked when a connection opens.

use vstd::prelude::*;
use vstd::utf8::encode_utf8;
use crate::config::Config;
use crate::message::MessageError;

verus! {

/// The bytes of a handshake: the length of the protocol identifier, the
/// identifier, eight reserved zero bytes, the content id and the local peer id.
pub open spec fn handshake_spec(pstr: Seq<u8>, info_hash: Seq<u8>, peer_id: Seq<u8>) -> Seq<u8> {
    seq![pstr.len() as u8] + pstr + Seq::new(8, |i: int| 0u8) + info_hash + peer_id
}

/// A received handshake long enough for the layout that its first byte announces.
pub open spec fn handshake_well_formed(response: Seq<u8>) -> bool {
    response.len() >= 1 && response.len() >= 1 + response[0] + 48
}

/// The content id that a well-formed received handshake carries.
pub open spec fn handshake_info_hash(response: Seq<u8>) -> Seq<u8> {
    response.subrange(1 + response[0] + 8, 1 + response[0] + 28)
}

/// A received handshake that is well formed and names the expected content.
pub open spec fn handshake_accepted(response: Seq<u8>, expected: Seq<u8>) -> bool {
    handshake_well_formed(response) && handshake_info_hash(response) == expected
}

/// A handshake as this client sends it.
pub struct Handshake {
    pub pstr: String,
    pub info_hash: Vec<u8>,
    pub peer_id: String,
}

impl Handshake {
    /// The handshake for a content id and a local peer id, with the standard
    /// protocol identifier.
    pub fn new(info_hash: Vec<u8>, peer_id: String) -> (r: Handshake)
        ensures
            r.pstr@ == "BitTorrent protocol"@,
            r.info_hash@ == info_hash@,
            r.peer_id@ == peer_id@,
    {
        let configuration = Config::new();
        Handshake { pstr: configuration.default_pstr.to_owned(), info_hash, peer_id }
    }

    /// The bytes to send on the wire.
    pub fn to_bytes(&self) -> (r: Vec<u8>)
        ensures
            r@ == handshake_spec(encode_utf8(self.pstr@), self.info_hash@, encode_utf8(self.peer_id@)),
    {
        let pstr = self.pstr.as_str().as_bytes();
        let mut bytes: Vec<u8> = Vec::new();
        bytes.push(pstr.len() as u8);
        bytes.extend_from_slice(pstr);
        let mut reserved = vec![0u8; 8];
        bytes.append(&mut reserved);
        bytes.extend_from_slice(self.info_hash.as_slice());
        bytes.extend_from_slice(self.peer_id.as_str().as_bytes());
        assert(bytes@ =~= handshake_spec(
            encode_utf8(self.pstr@),
            self.info_hash@,
            encode_utf8(self.peer_id@),
        ));
        bytes
    }
}

/// Compares two byte strings.
pub fn bytes_equal(a: &[u8], b: &[u8]) -> (r: bool)
    ensures
        r == (a@ == b@),
{
    if a.len() != b.len() {
        return false;
    }
    let mut i: usize = 0;
    while i < a.len()
        invariant
            a@.len() == b@.len(),
            i <= a@.len(),
            a@.subrange(0, i as int) == b@.subrange(0, i as int),
        decreases a@.len() - i,
    {
        if a[i] != b[i] {
            assert(a@[i as int] != b@[i as int]);
            return false;
        }
        assert(a@.subrange(0, i + 1) =~= a@.subrange(0, i as int).push(a@[i as int]));
        assert(b@.subrange(0, i + 1) =~= b@.subrange(0, i as int).push(b@[i as int]));
        i = i + 1;
    }
    assert(a@ =~= a@.subrange(0, i as int));
    assert(b@ =~= b@.subrange(0, i as int));
    true
}

/// Checks a peer's handshake: it must be well formed and carry, byte for
/// byte, the content id that this side expects.
pub fn check_handshake(response: &[u8], expected_info_hash: &[u8]) -> (r: Result<(), MessageError>)
    ensures
        r is Ok <==> handshake_accepted(response@, expected_info_hash@),
        r matches Err(e) ==> (e matches MessageError::HandshakeError(reason) && reason@ == if handshake_well_formed(
            response@,
        ) {
            "Invalid info hash"@
        } else {
            "Malformed handshake"@
        }),
{
    if response.len() < 1 || response.len() - 1 < response[0] as usize + 48 {
        return Err(MessageError::HandshakeError("Malformed handshake".to_owned()));
    }
    let start = 1 + response[0] as usize + 8;
    let received = vstd::slice::slice_subrange(response, start, start + 20);
    if bytes_equal(received, expected_info_hash) {
        Ok(())
    } else {
        Err(MessageError::HandshakeError("Invalid info hash".to_owned()))
    }
}

/// A handshake whose content id differs from the expected one in any single
/// byte is refused.
pub proof fn lemma_handshake_rejects_other_content(response: Seq<u8>, expected: Seq<u8>, i: int)
    requires
        handshake_well_formed(response),
        0 <= i < 20,
        expected.len() == 20,
        handshake_info_hash(response)[i] != expected[i],
    ensures
        !handshake_accepted(response, expected),
{
}

} // verus!
