//! The wire codec: message frames to and from raw bytes.

use vstd::prelude::*;
use vstd::slice::slice_subrange;
use vstd::slice::slice_to_vec;
use byteorder::ByteOrder;

verus! {

/// The big-endian number held in the first four bytes of `b`.
pub open spec fn be_value(b: Seq<u8>) -> u32
    recommends
        b.len() >= 4,
{
    ((b[0] as u32) << 24u32) | ((b[1] as u32) << 16u32) | ((b[2] as u32) << 8u32) | (b[3] as u32)
}

/// The four bytes of `n`, most significant first.
pub open spec fn be_bytes(n: u32) -> Seq<u8> {
    seq![(n >> 24u32) as u8, (n >> 16u32) as u8, (n >> 8u32) as u8, n as u8]
}

/// Reading back the four bytes of a number gives the number.
pub proof fn lemma_be_round_trip(n: u32)
    ensures
        be_value(be_bytes(n)) == n,
{
    assert(((((n >> 24u32) as u8) as u32) << 24u32) | ((((n >> 16u32) as u8) as u32) << 16u32)
        | ((((n >> 8u32) as u8) as u32) << 8u32) | ((n as u8) as u32) == n) by (bit_vector);
}

/// Relies on byteorder's `BigEndian::read_u32`: the first four bytes, most significant first.
#[verifier::external_body]
pub(crate) fn read_be_u32(b: &[u8]) -> (r: u32)
    requires
        b@.len() >= 4,
    ensures
        r == be_value(b@),
{
    byteorder::BigEndian::read_u32(b)
}

/// The four bytes of `n`, most significant first.
fn write_be_u32(n: u32) -> (r: Vec<u8>)
    ensures
        r@ == be_bytes(n),
{
    let r = vec![(n >> 24u32) as u8, (n >> 16u32) as u8, (n >> 8u32) as u8, n as u8];
    assert(r@ =~= be_bytes(n));
    r
}

/// A message of the peer wire protocol.
#[derive(Debug, PartialEq)]
pub enum Message {
    Choke,
    Unchoke,
    Interested,
    NotInterested,
    Have,
    Bitfield(Vec<u8>),
    Request(u32),
    Piece(u32, u32, Vec<u8>),
    Cancel,
    KeepAlive,
}

/// The mathematical value of a [`Message`].
pub enum MessageModel {
    Choke,
    Unchoke,
    Interested,
    NotInterested,
    Have,
    Bitfield(Seq<u8>),
    Request(u32),
    Piece(u32, u32, Seq<u8>),
    Cancel,
    KeepAlive,
}

impl View for Message {
    type V = MessageModel;

    open spec fn view(&self) -> MessageModel {
        match self {
            Message::Choke => MessageModel::Choke,
            Message::Unchoke => MessageModel::Unchoke,
            Message::Interested => MessageModel::Interested,
            Message::NotInterested => MessageModel::NotInterested,
            Message::Have => MessageModel::Have,
            Message::Bitfield(b) => MessageModel::Bitfield(b@),
            Message::Request(i) => MessageModel::Request(*i),
            Message::Piece(i, begin, d) => MessageModel::Piece(*i, *begin, d@),
            Message::Cancel => MessageModel::Cancel,
            Message::KeepAlive => MessageModel::KeepAlive,
        }
    }
}

/// The id byte that starts the body of a message; a keep-alive has none.
pub open spec fn message_id(m: MessageModel) -> u8 {
    match m {
        MessageModel::Choke => 0,
        MessageModel::Unchoke => 1,
        MessageModel::Interested => 2,
        MessageModel::NotInterested => 3,
        MessageModel::Have => 4,
        MessageModel::Bitfield(_) => 5,
        MessageModel::Request(_) => 6,
        MessageModel::Piece(_, _, _) => 7,
        MessageModel::Cancel => 8,
        MessageModel::KeepAlive => 0,
    }
}

/// The bytes that follow the id byte.
pub open spec fn message_payload(m: MessageModel) -> Seq<u8> {
    match m {
        MessageModel::Bitfield(b) => b,
        MessageModel::Request(i) => be_bytes(i),
        MessageModel::Piece(i, begin, d) => be_bytes(i) + be_bytes(begin) + d,
        _ => Seq::empty(),
    }
}

/// A message whose frame length fits the four-byte length prefix.
pub open spec fn encodable(m: MessageModel) -> bool {
    1 + message_payload(m).len() <= u32::MAX
}

/// The frame of a message: a big-endian length prefix, then the id byte and the payload.
/// A keep-alive is a frame of length zero.
pub open spec fn encode_spec(m: MessageModel) -> Seq<u8> {
    if m is KeepAlive {
        be_bytes(0)
    } else {
        be_bytes((1 + message_payload(m).len()) as u32) + seq![message_id(m)] + message_payload(m)
    }
}

/// The message that an id byte and the bytes after it stand for, if any.
pub open spec fn identify_spec(id: u8, body: Seq<u8>) -> Option<MessageModel> {
    if id == 0 {
        Some(MessageModel::Choke)
    } else if id == 1 {
        Some(MessageModel::Unchoke)
    } else if id == 2 {
        Some(MessageModel::Interested)
    } else if id == 3 {
        Some(MessageModel::NotInterested)
    } else if id == 4 {
        Some(MessageModel::Have)
    } else if id == 5 {
        Some(MessageModel::Bitfield(body))
    } else if id == 6 {
        if body.len() >= 4 {
            Some(MessageModel::Request(be_value(body)))
        } else {
            None
        }
    } else if id == 7 {
        if body.len() >= 8 {
            Some(
                MessageModel::Piece(
                    be_value(body),
                    be_value(body.subrange(4, 8)),
                    body.subrange(8, body.len() as int),
                ),
            )
        } else {
            None
        }
    } else if id == 8 {
        Some(MessageModel::Cancel)
    } else {
        None
    }
}

/// A frame whose length prefix matches the number of bytes after it.
pub open spec fn frame_sized(frame: Seq<u8>) -> bool {
    frame.len() >= 4 && frame.len() - 4 == be_value(frame)
}

/// The message that a whole frame stands for, if any.
pub open spec fn decode_spec(frame: Seq<u8>) -> Option<MessageModel> {
    if !frame_sized(frame) {
        None
    } else if be_value(frame) == 0 {
        Some(MessageModel::KeepAlive)
    } else {
        identify_spec(frame[4], frame.subrange(5, frame.len() as int))
    }
}

/// Decoding the frame of a message gives the message back.
#[verifier::rlimit(40)]
pub proof fn lemma_decode_encode(m: MessageModel)
    requires
        encodable(m),
    ensures
        decode_spec(encode_spec(m)) == Some(m),
{
    let f = encode_spec(m);
    let p = message_payload(m);
    if m is KeepAlive {
        lemma_be_round_trip(0);
        assert(f.subrange(0, 4) =~= f);
    } else {
        let n = (1 + p.len()) as u32;
        lemma_be_round_trip(n);
        assert(f.subrange(0, 4) =~= be_bytes(n));
        assert(be_value(f) == be_value(be_bytes(n)));
        assert(f[4] == message_id(m));
        let body = f.subrange(5, f.len() as int);
        assert(body =~= p);
        match m {
            MessageModel::Request(i) => {
                lemma_be_round_trip(i);
                assert(be_value(body) == be_value(be_bytes(i)));
            },
            MessageModel::Piece(i, begin, d) => {
                lemma_be_round_trip(i);
                lemma_be_round_trip(begin);
                assert(be_value(body) == be_value(be_bytes(i)));
                assert(body.subrange(4, 8) =~= be_bytes(begin));
                assert(body.subrange(8, body.len() as int) =~= d);
            },
            _ => {},
        }
    }
}

/// What can go wrong while reading or handling a message.
#[derive(Debug, PartialEq)]
pub enum MessageError {
    UnknownMessage,
    UnhandledMessage(Message),
    FileIOError,
    ConversionError(String),
    HandshakeError(String),
    NonUnicodePath,
    MismatchedIndex,
    InvalidResponse,
    HashMismatch,
    IOError(String),
}

/// A message together with its id byte and its raw payload.
#[derive(Debug)]
pub struct MessagePayload {
    pub message_id: u8,
    pub message: Message,
    pub payload: Vec<u8>,
}

impl Message {
    /// The id byte of a message other than a keep-alive.
    fn id(&self) -> (r: u8)
        ensures
            r == message_id(self@),
    {
        match self {
            Message::Choke => 0,
            Message::Unchoke => 1,
            Message::Interested => 2,
            Message::NotInterested => 3,
            Message::Have => 4,
            Message::Bitfield(_) => 5,
            Message::Request(_) => 6,
            Message::Piece(_, _, _) => 7,
            Message::Cancel => 8,
            Message::KeepAlive => 0,
        }
    }

    fn payload(&self) -> (r: Vec<u8>)
        ensures
            r@ == message_payload(self@),
    {
        match self {
            Message::Bitfield(b) => slice_to_vec(b.as_slice()),
            Message::Request(i) => write_be_u32(*i),
            Message::Piece(i, begin, d) => {
                let mut r = write_be_u32(*i);
                let mut b = write_be_u32(*begin);
                r.append(&mut b);
                let mut data = slice_to_vec(d.as_slice());
                r.append(&mut data);
                r
            },
            _ => Vec::new(),
        }
    }

    /// The frame of this message: length prefix, id byte, payload.
    pub fn encode(&self) -> (r: Vec<u8>)
        requires
            encodable(self@),
        ensures
            r@ == encode_spec(self@),
    {
        match self {
            Message::KeepAlive => write_be_u32(0),
            _ => {
                let mut payload = self.payload();
                let mut r = write_be_u32((payload.len() + 1) as u32);
                r.push(self.id());
                r.append(&mut payload);
                r
            },
        }
    }
}

/// Tells which message an id byte and the bytes after it stand for.
pub fn identify_message(message_id: u8, message_body: &[u8]) -> (r: Result<Message, MessageError>)
    ensures
        match r {
            Ok(m) => identify_spec(message_id, message_body@) == Some(m@),
            Err(e) => identify_spec(message_id, message_body@) is None && e is UnknownMessage,
        },
{
    let len = message_body.len();
    match message_id {
        0 => Ok(Message::Choke),
        1 => Ok(Message::Unchoke),
        2 => Ok(Message::Interested),
        3 => Ok(Message::NotInterested),
        4 => Ok(Message::Have),
        5 => Ok(Message::Bitfield(slice_to_vec(message_body))),
        6 => {
            if len < 4 {
                Err(MessageError::UnknownMessage)
            } else {
                Ok(Message::Request(read_be_u32(message_body)))
            }
        },
        7 => {
            if len < 8 {
                return Err(MessageError::UnknownMessage);
            }
            let index = read_be_u32(message_body);
            let begin = read_be_u32(slice_subrange(message_body, 4, 8));
            let data = slice_to_vec(slice_subrange(message_body, 8, len));
            Ok(Message::Piece(index, begin, data))
        },
        8 => Ok(Message::Cancel),
        _ => Err(MessageError::UnknownMessage),
    }
}

/// The number of bytes that a frame's length prefix announces.
pub fn frame_length(prefix: &[u8]) -> (r: Result<u32, MessageError>)
    ensures
        match r {
            Ok(n) => prefix@.len() >= 4 && n == be_value(prefix@),
            Err(e) => prefix@.len() < 4 && e is ConversionError,
        },
{
    if prefix.len() < 4 {
        Err(MessageError::ConversionError("length prefix shorter than four bytes".to_owned()))
    } else {
        Ok(read_be_u32(prefix))
    }
}

/// Decodes one whole frame: length prefix, then id byte and payload.
/// A frame whose prefix does not match its length is a conversion error;
/// an unknown id or a payload too short for its message is an unknown message.
pub fn decode(frame: &[u8]) -> (r: Result<Message, MessageError>)
    ensures
        match r {
            Ok(m) => decode_spec(frame@) == Some(m@),
            Err(e) => decode_spec(frame@) is None && (if frame_sized(frame@) {
                e is UnknownMessage
            } else {
                e is ConversionError
            }),
        },
{
    let n = frame_length(frame)?;
    if (frame.len() - 4) as u64 != n as u64 {
        return Err(MessageError::ConversionError("frame length does not match its prefix".to_owned()));
    }
    if n == 0 {
        return Ok(Message::KeepAlive);
    }
    identify_message(frame[4], slice_subrange(frame, 5, frame.len()))
}

} // verus!
