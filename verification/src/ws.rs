//! WebSocket message framing and the opening-handshake computation.
//!
//! The framing itself is pure byte logic and verified; the handshake
//! accept key leans on an outside SHA-1 and base64 through trusted
//! wrappers, and everything after those calls is verified over the
//! names given to their results.

use vstd::prelude::*;
use vstd::string::StringSliceAdditionalSpecFns;

use crate::bytes::be16;
use crate::bytes::be64;
use crate::bytes::ByteWriter;

verus! {

/// The payload kind of an outgoing message.
#[derive(Debug, Clone, Copy, PartialEq, Eq, Structural)]
pub enum MessageDataType {
    Continue,
    Text,
    Binary,
}

impl MessageDataType {
    /// The opcode of the kind.
    pub open spec fn spec_code(self) -> u8 {
        match self {
            MessageDataType::Continue => 0,
            MessageDataType::Text => 1,
            MessageDataType::Binary => 2,
        }
    }

    pub fn code(&self) -> (r: u8)
        ensures
            r == self.spec_code(),
    {
        match self {
            MessageDataType::Continue => 0,
            MessageDataType::Text => 1,
            MessageDataType::Binary => 2,
        }
    }
}

/// How much of a frame has arrived.
#[derive(Debug, Clone, Copy, PartialEq, Eq, Structural)]
pub enum MessageLen {
    /// The whole frame spans this many bytes.
    Len(usize),
    /// This many more bytes are needed to finish the length field.
    MissingBytes(usize),
    /// Too few bytes to even read the length field's form.
    TooShort,
}

/// A whole single-frame message: the final bit and opcode, the length
/// in its shortest form, then the payload.
pub open spec fn spec_frame(msg: Seq<u8>, code: u8) -> Seq<u8> {
    if msg.len() <= 125 {
        seq![(128 + code) as u8, msg.len() as u8] + msg
    } else if msg.len() <= 65535 {
        seq![(128 + code) as u8, 126u8, (msg.len() / 0x100) as u8, (msg.len() % 0x100) as u8] + msg
    } else {
        seq![(128 + code) as u8, 127u8] + ByteWriter::be64_bytes(msg.len() as u64) + msg
    }
}

/// Frames one message for sending, with the length in its shortest
/// form.
pub fn encode_frame(message: &[u8], msg_type: MessageDataType) -> (r: Vec<u8>)
    requires
        message@.len() <= u64::MAX,
    ensures
        r@ == spec_frame(message@, msg_type.spec_code()),
{
    let mut w = ByteWriter::new();
    let len = message.len();
    if len <= 125 {
        w.write_byte(128 + msg_type.code());
        w.write_byte(len as u8);
        w.write_bytes(message);
        proof {
            assert(w.bytes() =~= spec_frame(message@, msg_type.spec_code()));
        }
    } else if len <= 65535 {
        w.write_byte(128 + msg_type.code());
        w.write_byte(126);
        w.write_be_u16(len as u16);
        w.write_bytes(message);
        proof {
            assert(w.bytes() =~= spec_frame(message@, msg_type.spec_code()));
        }
    } else {
        w.write_byte(128 + msg_type.code());
        w.write_byte(127);
        w.write_be_u64(len as u64);
        w.write_bytes(message);
        proof {
            assert(w.bytes() =~= spec_frame(message@, msg_type.spec_code()));
        }
    }
    w.finish()
}

/// A ping control frame.
pub fn ping_frame() -> (r: Vec<u8>)
    ensures
        r@ == seq![0b1000_1001u8, 1u8, 95u8],
{
    let mut v: Vec<u8> = Vec::new();
    v.push(0b1000_1001);
    v.push(1);
    v.push(95);
    proof {
        assert(v@ =~= seq![0b1000_1001u8, 1u8, 95u8]);
    }
    v
}

/// A pong control frame echoing the ping's payload.
pub fn pong_frame(data: &[u8]) -> (r: Vec<u8>)
    requires
        data@.len() <= 125,
    ensures
        r@ == seq![0b1000_1000u8, data@.len() as u8] + data@,
{
    let mut w = ByteWriter::new();
    w.write_byte(0b1000_1000);
    w.write_byte(data.len() as u8);
    w.write_bytes(data);
    proof {
        assert(w.bytes() =~= seq![0b1000_1000u8, data@.len() as u8] + data@);
    }
    w.finish()
}

/// The total frame length a partial header announces: short lengths
/// are in the second byte, longer ones in the following two or eight
/// bytes; header and mask bytes are counted in.
pub open spec fn spec_payload_len(data: Seq<u8>) -> MessageLen {
    if data.len() < 3 {
        MessageLen::TooShort
    } else {
        let len = (data[1] % 128) as u8;
        if len == 126 {
            if data.len() < 4 {
                MessageLen::MissingBytes((4 - data.len()) as usize)
            } else {
                MessageLen::Len((be16(data[2], data[3]) + 8) as usize)
            }
        } else if len == 127 {
            if data.len() < 10 {
                MessageLen::MissingBytes((10 - data.len()) as usize)
            } else {
                MessageLen::Len((((be64(data.subrange(2, 10)) + 14) % 0x1_0000_0000_0000_0000)
                    as usize))
            }
        } else {
            MessageLen::Len((len + 6) as usize)
        }
    }
}

/// Reads the total frame length off a partial frame.
pub fn get_payloadlen(data: &[u8]) -> (r: MessageLen)
    requires
        data@.len() <= usize::MAX - 14,
    ensures
        r == spec_payload_len(data@),
{
    if data.len() < 3 {
        return MessageLen::TooShort;
    }
    let len = data[1] % 128;
    if len == 126 {
        if data.len() < 4 {
            return MessageLen::MissingBytes(4 - data.len());
        }
        let n = data[2] as usize * 0x100 + data[3] as usize;
        MessageLen::Len(n + 8)
    } else if len == 127 {
        if data.len() < 10 {
            return MessageLen::MissingBytes(10 - data.len());
        }
        let n: u64 = ((((((data[2] as u64 * 0x100 + data[3] as u64) * 0x100 + data[4] as u64)
            * 0x100 + data[5] as u64) * 0x100 + data[6] as u64) * 0x100 + data[7] as u64) * 0x100
            + data[8] as u64) * 0x100 + data[9] as u64;
        proof {
            let s = data@.subrange(2, 10);
            assert(s[0] == data@[2]);
            assert(s[1] == data@[3]);
            assert(s[2] == data@[4]);
            assert(s[3] == data@[5]);
            assert(s[4] == data@[6]);
            assert(s[5] == data@[7]);
            assert(s[6] == data@[8]);
            assert(s[7] == data@[9]);
        }
        let total: u64 = match n.checked_add(14) {
            Some(t) => t,
            None => {
                proof {
                    assert((n + 14) % 0x1_0000_0000_0000_0000 == n + 14 - 0x1_0000_0000_0000_0000);
                }
                (n - (u64::MAX - 13))
            },
        };
        proof {
            if n + 14 <= u64::MAX {
                assert((n + 14) % 0x1_0000_0000_0000_0000 == n + 14);
            }
        }
        #[verifier::truncate]
        let tu = total as usize;
        MessageLen::Len(tu)
    } else {
        MessageLen::Len(len as usize + 6)
    }
}

/// The name this library gives to the 20-byte SHA-1 digest of a byte
/// run.
pub uninterp spec fn sha1_of(data: Seq<u8>) -> Seq<u8>;

/// Relies on `sha1_smol::Sha1` (`update`, then `digest().bytes()`):
/// the 160-bit (20-byte) digest is a function of the input bytes
/// alone.
#[verifier::external_body]
fn sha1_digest(data: &[u8]) -> (r: Vec<u8>)
    ensures
        r@ == sha1_of(data@),
        r@.len() == 20,
{
    let mut sha = sha1_smol::Sha1::new();
    sha.update(data);
    sha.digest().bytes().to_vec()
}

/// The name this library gives to the standard-alphabet, padded
/// base64 encoding of a byte run.
pub uninterp spec fn base64_of(data: Seq<u8>) -> Seq<u8>;

/// Relies on base64's `STANDARD` engine `encode`: the standard
/// alphabet with padding, a function of the input bytes alone; the
/// padded output holds four characters for every started triple.
#[verifier::external_body]
fn base64_encode(data: &[u8]) -> (r: Vec<u8>)
    ensures
        r@ == base64_of(data@),
        r@.len() == 4 * ((data@.len() + 2) / 3),
{
    base64::Engine::encode(&base64::engine::general_purpose::STANDARD, data).into_bytes()
}

/// The GUID the WebSocket handshake appends to the client key.
pub open spec fn spec_ws_guid() -> Seq<char> {
    "258EAFA5-E914-47DA-95CA-C5AB0DC85B11"@
}

/// The accept key of the opening handshake: the client key with the
/// protocol GUID appended, hashed with SHA-1 and base64-encoded.
pub open spec fn spec_accept_key(key: Seq<u8>) -> Seq<u8> {
    base64_of(sha1_of(key + "258EAFA5-E914-47DA-95CA-C5AB0DC85B11".spec_bytes()))
}

/// Computes the handshake accept key for a client key.
pub fn websocket_accept_key(key: &[u8]) -> (r: Vec<u8>)
    ensures
        r@ == spec_accept_key(key@),
{
    let mut w = ByteWriter::new();
    w.write_bytes(key);
    w.write_string("258EAFA5-E914-47DA-95CA-C5AB0DC85B11");
    let joined = w.finish();
    let digest = sha1_digest(joined.as_slice());
    base64_encode(digest.as_slice())
}

/// The full `101 Switching Protocols` response for a client key.
pub fn websocket_handshake_response(key: &[u8]) -> (r: Vec<u8>)
    ensures
        r@ == "HTTP/1.1 101 Switching Protocols\r\nConnection: Upgrade\r\nUpgrade: websocket\r\nSec-WebSocket-Accept: ".spec_bytes()
            + spec_accept_key(key@) + "\r\n\r\n".spec_bytes(),
{
    let mut w = ByteWriter::new();
    w.write_string(
        "HTTP/1.1 101 Switching Protocols\r\nConnection: Upgrade\r\nUpgrade: websocket\r\nSec-WebSocket-Accept: ",
    );
    let accept = websocket_accept_key(key);
    w.write_bytes(accept.as_slice());
    w.write_string("\r\n\r\n");
    w.finish()
}

} // verus!
