//! The announce query sent to a tracker.

use vstd::prelude::*;
use vstd::utf8::encode_utf8;
use crate::config::Config;
use crate::metadata::TorrentMetadata;
use crate::torrent_manager::push_char;

verus! {

/// The bytes that form encoding leaves as they are: `*`, `-`, `.`, `_`,
/// digits and ASCII letters.
pub open spec fn unchanged_byte(b: u8) -> bool {
    b == 42 || b == 45 || b == 46 || (48 <= b <= 57) || (65 <= b <= 90) || b == 95 || (97 <= b <= 122)
}

/// The uppercase hex digit of a value below sixteen: ASCII `0`-`9` from 48, `A`-`F` from 65.
pub open spec fn upper_hex_digit(n: u8) -> char {
    if n < 10 {
        (48u8 + n) as char
    } else {
        (55u8 + n) as char
    }
}

/// The form encoding of one byte: itself, `+` for a space, else `%` and two uppercase hex digits.
pub open spec fn encoded_byte(b: u8) -> Seq<char> {
    if unchanged_byte(b) {
        seq![b as char]
    } else if b == 32 {
        seq!['+']
    } else {
        seq!['%', upper_hex_digit(b / 16), upper_hex_digit(b % 16)]
    }
}

/// The `application/x-www-form-urlencoded` form of some bytes.
pub open spec fn form_encoded(b: Seq<u8>) -> Seq<char>
    decreases b.len(),
{
    if b.len() == 0 {
        Seq::empty()
    } else {
        form_encoded(b.drop_last()) + encoded_byte(b.last())
    }
}

/// The decimal digits of a natural number.
pub open spec fn decimal_nat(n: nat) -> Seq<char>
    decreases n,
{
    if n < 10 {
        seq![(48 + n) as char]
    } else {
        decimal_nat(n / 10).push((48 + n % 10) as char)
    }
}

/// The decimal form of an integer, with a leading `-` when negative.
pub open spec fn decimal(n: i64) -> Seq<char> {
    if n < 0 {
        seq!['-'] + decimal_nat((-n) as nat)
    } else {
        decimal_nat(n as nat)
    }
}

/// Relies on url's `form_urlencoded::byte_serialize`: each byte as `encoded_byte` gives it.
#[verifier::external_body]
fn form_encode(b: &[u8]) -> (r: String)
    ensures
        r@ == form_encoded(b@),
{
    url::form_urlencoded::byte_serialize(b).collect()
}

/// Relies on `ToString` for `i64`: the decimal form of the number.
#[verifier::external_body]
fn decimal_string(n: i64) -> (r: String)
    ensures
        r@ == decimal(n),
{
    n.to_string()
}

/// One `name=value` pair of a query, form encoded, after a `&` unless it is the first.
pub open spec fn query_pair(first: bool, name: Seq<u8>, value: Seq<u8>) -> Seq<char> {
    (if first {
        Seq::empty()
    } else {
        seq!['&']
    }) + form_encoded(name) + seq!['='] + form_encoded(value)
}

fn append_pair(s: &mut String, first: bool, name: &str, value: &[u8])
    ensures
        final(s)@ == old(s)@ + query_pair(first, encode_utf8(name@), value@),
{
    if !first {
        push_char(s, '&');
    }
    let n = form_encode(name.as_bytes());
    s.append(n.as_str());
    push_char(s, '=');
    let v = form_encode(value);
    s.append(v.as_str());
    assert(s@ =~= old(s)@ + query_pair(first, encode_utf8(name@), value@));
}

/// The tracker address of an announce string. One that starts with `s`
/// carries two leading characters and one trailing character around the address.
pub open spec fn announce_url(announce: Seq<char>) -> Seq<char> {
    if announce.len() > 0 && announce[0] == 's' {
        if announce.len() >= 3 {
            announce.subrange(2, announce.len() - 1)
        } else {
            Seq::empty()
        }
    } else {
        announce
    }
}

/// The parameters of an announce query, in the order sent.
pub open spec fn query_params(peer_id: Seq<char>, port: Seq<char>, left: i64, info_hash: Seq<u8>) -> Seq<char> {
    query_pair(true, encode_utf8("peer_id"@), encode_utf8(peer_id)) + query_pair(
        false,
        encode_utf8("port"@),
        encode_utf8(port),
    ) + query_pair(false, encode_utf8("uploaded"@), encode_utf8("0"@)) + query_pair(
        false,
        encode_utf8("downloaded"@),
        encode_utf8("0"@),
    ) + query_pair(false, encode_utf8("compact"@), encode_utf8("0"@)) + query_pair(
        false,
        encode_utf8("left"@),
        encode_utf8(decimal(left)),
    ) + query_pair(false, encode_utf8("info_hash"@), info_hash)
}

/// The announce query of a transfer: the tracker address, `?`, then the
/// form-encoded peer id, listening port, transfer counters, bytes left and
/// the raw content id.
pub fn build_tracker_query(metadata: &TorrentMetadata) -> (r: Result<String, String>)
    ensures
        r matches Ok(q) && q@ == announce_url(metadata.announce@) + seq!['?'] + query_params(
            metadata.peer_id@,
            "6881"@,
            metadata.info.length,
            metadata.info_hash@,
        ),
{
    let configuration = Config::new();
    let announce = metadata.announce.as_str();
    let len = announce.unicode_len();
    let mut query = if len > 0 && announce.get_char(0) == 's' {
        if len >= 3 {
            announce.substring_char(2, len - 1).to_owned()
        } else {
            String::new()
        }
    } else {
        announce.to_owned()
    };
    push_char(&mut query, '?');
    let ghost start = query@;
    append_pair(&mut query, true, "peer_id", metadata.peer_id.as_str().as_bytes());
    append_pair(&mut query, false, "port", configuration.bittorent_port.as_str().as_bytes());
    append_pair(&mut query, false, "uploaded", "0".as_bytes());
    append_pair(&mut query, false, "downloaded", "0".as_bytes());
    append_pair(&mut query, false, "compact", "0".as_bytes());
    let left = decimal_string(metadata.info.length);
    append_pair(&mut query, false, "left", left.as_str().as_bytes());
    append_pair(&mut query, false, "info_hash", metadata.info_hash.as_slice());
    assert(query@ =~= start + query_params(
        metadata.peer_id@,
        "6881"@,
        metadata.info.length,
        metadata.info_hash@,
    ));
    Ok(query)
}

} // verus!
