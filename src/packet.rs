use vstd::prelude::*;
use vstd::slice::{slice_subrange, slice_to_vec};
use vstd::utf8::{
    decode_utf8, encode_utf8, encode_utf8_decode_utf8, encode_utf8_valid_utf8, valid_utf8,
};

use crate::error::{DecodeError, RconError};

verus! {

/// Smallest accepted frame size: id, type and the two pad bytes.
pub const MIN_PACKET_SIZE: i32 = 10;

/// Largest frame size the server sends; a frame of exactly this size may be
/// followed by continuation frames.
pub const MAX_PACKET_SIZE: i32 = 4106;

/// Largest payload, in bytes, that a client may send.
pub const MAX_CLIENT_PAYLOAD_SIZE: usize = 1446;

/// The four little-endian bytes of the two's-complement form of `v`.
pub open spec fn le_bytes(v: i32) -> Seq<u8> {
    let u = v as u32;
    seq![(u & 0xff) as u8, ((u >> 8) & 0xff) as u8, ((u >> 16) & 0xff) as u8, ((u >> 24) & 0xff) as u8]
}

/// The 32-bit signed integer whose little-endian bytes are `b0 .. b3`.
pub open spec fn le_value(b0: u8, b1: u8, b2: u8, b3: u8) -> i32 {
    ((b0 as u32) | ((b1 as u32) << 8) | ((b2 as u32) << 16) | ((b3 as u32) << 24)) as i32
}

/// The integer that the first four bytes of `b` encode.
pub open spec fn from_le(b: Seq<u8>) -> i32 {
    le_value(b[0], b[1], b[2], b[3])
}

/// Reading back the bytes of a value gives the value.
pub proof fn lemma_from_le_bytes(v: i32)
    ensures
        from_le(le_bytes(v)) == v,
{
    let u = v as u32;
    assert(le_value((u & 0xff) as u8, ((u >> 8) & 0xff) as u8, ((u >> 16) & 0xff) as u8, ((u >> 24) & 0xff) as u8) == v) by (bit_vector)
        requires
            u == v as u32,
    ;
}

fn push_le(out: &mut Vec<u8>, v: i32)
    ensures
        final(out)@ == old(out)@ + le_bytes(v),
{
    let ghost start = out@;
    #[verifier::truncate]
    let u = v as u32;
    out.push(#[verifier::truncate] ((u & 0xff) as u8));
    out.push(#[verifier::truncate] (((u >> 8) & 0xff) as u8));
    out.push(#[verifier::truncate] (((u >> 16) & 0xff) as u8));
    out.push(#[verifier::truncate] (((u >> 24) & 0xff) as u8));
    assert(out@ =~= start + le_bytes(v));
}

/// The kinds of a packet as they travel on the wire.
#[derive(Debug, Clone, Copy, PartialEq, Eq, Structural)]
pub enum PacketType {
    Authentication,
    Command,
    Response,
}

impl PacketType {
    /// The tag that stands for this kind on the wire.
    pub open spec fn code_spec(self) -> i32 {
        match self {
            PacketType::Authentication => 3,
            PacketType::Command => 2,
            PacketType::Response => 0,
        }
    }

    /// The wire tag of this kind.
    pub fn code(&self) -> (r: i32)
        ensures
            r == self.code_spec(),
    {
        match self {
            PacketType::Authentication => 3,
            PacketType::Command => 2,
            PacketType::Response => 0,
        }
    }

    /// The kind that a received tag stands for; the server never sends an
    /// authentication request, so only responses and commands are known.
    pub open spec fn from_code_spec(code: i32) -> Option<PacketType> {
        if code == 0 {
            Some(PacketType::Response)
        } else if code == 2 {
            Some(PacketType::Command)
        } else {
            None
        }
    }

    /// Maps a received tag to its kind.
    pub fn from_code(code: i32) -> (r: Result<PacketType, RconError>)
        ensures
            r is Ok <==> PacketType::from_code_spec(code) is Some,
            r is Ok ==> r->Ok_0 == PacketType::from_code_spec(code)->Some_0,
            r is Err ==> r->Err_0 == RconError::Decode(DecodeError::BadType(code)),
    {
        if code == 0 {
            Ok(PacketType::Response)
        } else if code == 2 {
            Ok(PacketType::Command)
        } else {
            Err(RconError::Decode(DecodeError::BadType(code)))
        }
    }
}

/// Number of bytes that the UTF-8 form of `s` takes.
pub open spec fn byte_len(s: Seq<char>) -> nat {
    encode_utf8(s).len()
}

/// Everything of a frame that follows its size field.
pub open spec fn body_spec(id: i32, kind: PacketType, payload: Seq<char>) -> Seq<u8> {
    le_bytes(id) + le_bytes(kind.code_spec()) + encode_utf8(payload) + seq![0u8, 0u8]
}

/// A whole frame: the size of the body, then the body.
pub open spec fn frame_spec(id: i32, kind: PacketType, payload: Seq<char>) -> Seq<u8> {
    le_bytes(body_spec(id, kind, payload).len() as i32) + body_spec(id, kind, payload)
}

/// What a received frame body holds: id, kind and text, or why it is
/// malformed. The checks come in this order: length, type tag, UTF-8,
/// padding.
pub open spec fn decode_spec(b: Seq<u8>) -> Result<(i32, PacketType, Seq<char>), DecodeError> {
    if b.len() < MIN_PACKET_SIZE {
        Err(DecodeError::TooShort(b.len() as usize))
    } else {
        let code = from_le(b.subrange(4, 8));
        match PacketType::from_code_spec(code) {
            None => Err(DecodeError::BadType(code)),
            Some(kind) => {
                let payload = b.subrange(8, b.len() - 2);
                if !valid_utf8(payload) {
                    Err(DecodeError::BadUtf8)
                } else if b[b.len() - 2] != 0 || b[b.len() - 1] != 0 {
                    Err(DecodeError::MissingPadding)
                } else {
                    Ok((from_le(b), kind, decode_utf8(payload)))
                }
            },
        }
    }
}

/// One packet of the protocol.
pub struct RconPacket {
    pub id: i32,
    pub packet_type: PacketType,
    pub payload: String,
}

impl RconPacket {
    /// The fields of the packet as plain values.
    pub open spec fn parts(&self) -> (i32, PacketType, Seq<char>) {
        (self.id, self.packet_type, self.payload@)
    }

    /// A packet that may be sent: non-negative id, payload within the limit.
    pub open spec fn sendable(&self) -> bool {
        self.id >= 0 && byte_len(self.payload@) <= MAX_CLIENT_PAYLOAD_SIZE
    }

    /// The authentication request that carries `password`.
    pub fn authentication(id: i32, password: String) -> (r: Result<Self, RconError>)
        ensures
            r == RconPacket::new_spec(id, PacketType::Authentication, password),
    {
        Self::new(id, PacketType::Authentication, password)
    }

    /// A console command.
    pub fn command(id: i32, payload: String) -> (r: Result<Self, RconError>)
        ensures
            r == RconPacket::new_spec(id, PacketType::Command, payload),
    {
        Self::new(id, PacketType::Command, payload)
    }

    /// The empty response-type packet that marks the end of a fragmented reply.
    pub fn check(id: i32) -> (r: Result<Self, RconError>)
        ensures
            id < 0 ==> r == Err::<Self, _>(RconError::InvalidId(id)),
            id >= 0 ==> r is Ok && r->Ok_0.parts() == (id, PacketType::Response, Seq::<char>::empty()),
            r is Ok ==> r->Ok_0.sendable(),
    {
        Self::new(id, PacketType::Response, String::new())
    }

    /// Outbound validation: the id must not be negative, the payload must fit.
    pub open spec fn new_spec(id: i32, kind: PacketType, payload: String) -> Result<Self, RconError> {
        if id < 0 {
            Err(RconError::InvalidId(id))
        } else if byte_len(payload@) > MAX_CLIENT_PAYLOAD_SIZE {
            Err(RconError::PayloadTooBig(MAX_CLIENT_PAYLOAD_SIZE, byte_len(payload@) as usize))
        } else {
            Ok(RconPacket { id, packet_type: kind, payload })
        }
    }

    /// Builds an outbound packet after checking its id and payload size.
    pub fn new(id: i32, kind: PacketType, payload: String) -> (r: Result<Self, RconError>)
        ensures
            r == RconPacket::new_spec(id, kind, payload),
            r is Ok ==> r->Ok_0.sendable(),
    {
        if id < 0 {
            Err(RconError::InvalidId(id))
        } else {
            let len = payload.as_str().as_bytes().len();
            if len > MAX_CLIENT_PAYLOAD_SIZE {
                Err(RconError::PayloadTooBig(MAX_CLIENT_PAYLOAD_SIZE, len))
            } else {
                Ok(RconPacket { id, packet_type: kind, payload })
            }
        }
    }

    /// The frame that carries this packet.
    pub fn encode(self) -> (r: Vec<u8>)
        requires
            self.sendable(),
        ensures
            r@ == frame_spec(self.id, self.packet_type, self.payload@),
    {
        let text = self.payload.as_str().as_bytes();
        let mut body: Vec<u8> = Vec::new();
        push_le(&mut body, self.id);
        push_le(&mut body, self.packet_type.code());
        let mut copied = slice_to_vec(text);
        body.append(&mut copied);
        body.push(0);
        body.push(0);
        assert(body@ =~= body_spec(self.id, self.packet_type, self.payload@));
        let size = body.len() as i32;
        let mut frame: Vec<u8> = Vec::new();
        push_le(&mut frame, size);
        frame.append(&mut body);
        frame
    }

    /// Decodes a frame body (everything after the size field).
    pub fn decode(bytes: Vec<u8>) -> (r: Result<Self, RconError>)
        ensures
            bytes@.len() < MIN_PACKET_SIZE ==> r == Err::<Self, _>(
                RconError::Decode(DecodeError::TooShort(bytes@.len() as usize)),
            ),
            r is Ok <==> decode_spec(bytes@) is Ok,
            r is Ok ==> decode_spec(bytes@) == Ok::<_, DecodeError>(r->Ok_0.parts()),
            r is Err ==> r->Err_0 == RconError::Decode(decode_spec(bytes@)->Err_0),
    {
        let n = bytes.len();
        if n < MIN_PACKET_SIZE as usize {
            return Err(RconError::Decode(DecodeError::TooShort(n)));
        }
        let id = read_le(bytes.as_slice(), 0);
        let code = read_le(bytes.as_slice(), 4);
        let kind = PacketType::from_code(code)?;
        let text = slice_to_vec(slice_subrange(bytes.as_slice(), 8, n - 2));
        let payload = match string_from_utf8(text) {
            Some(s) => s,
            None => return Err(RconError::Decode(DecodeError::BadUtf8)),
        };
        if bytes[n - 2] != 0 || bytes[n - 1] != 0 {
            Err(RconError::Decode(DecodeError::MissingPadding))
        } else {
            Ok(RconPacket { id, packet_type: kind, payload })
        }
    }
}

/// The integer held in `b[at .. at + 4]`, least significant byte first.
fn read_le(b: &[u8], at: usize) -> (r: i32)
    requires
        at + 4 <= b@.len(),
    ensures
        r == from_le(b@.subrange(at as int, at + 4)),
{
    #[verifier::truncate]
    let v = ((b[at] as u32) | ((b[at + 1] as u32) << 8) | ((b[at + 2] as u32) << 16) | ((b[at + 3] as u32) << 24)) as i32;
    v
}

/// Relies on `String::from_utf8`: it accepts exactly the valid UTF-8 byte
/// sequences and keeps the characters they encode.
#[verifier::external_body]
fn string_from_utf8(bytes: Vec<u8>) -> (r: Option<String>)
    ensures
        r is Some <==> valid_utf8(bytes@),
        r is Some ==> r->Some_0@ == decode_utf8(bytes@),
{
    String::from_utf8(bytes).ok()
}

/// What a size field announces: the size itself when it lies within
/// `[MIN_PACKET_SIZE, MAX_PACKET_SIZE]`, else a decoding error.
pub open spec fn size_spec(prefix: Seq<u8>) -> Result<i32, RconError> {
    let v = from_le(prefix);
    if MIN_PACKET_SIZE <= v <= MAX_PACKET_SIZE {
        Ok(v)
    } else {
        Err(RconError::Decode(DecodeError::BadSize(v)))
    }
}

/// Reads the size field of a frame and checks it, before any of the body is
/// read.
pub fn decode_size(prefix: [u8; 4]) -> (r: Result<i32, RconError>)
    ensures
        r == size_spec(prefix@),
        r is Ok ==> MIN_PACKET_SIZE <= r->Ok_0 <= MAX_PACKET_SIZE,
{
    let size = read_le(&prefix, 0);
    assert(prefix@.subrange(0, 4) =~= prefix@);
    if MIN_PACKET_SIZE <= size && size <= MAX_PACKET_SIZE {
        Ok(size)
    } else {
        Err(RconError::Decode(DecodeError::BadSize(size)))
    }
}

/// Encoding then decoding gives back the fields: the size field of an encoded
/// frame announces exactly the rest of the frame and lies within the accepted
/// range, and that rest decodes to the id, kind and text that were encoded.
/// The decoder accepts only the kinds a server sends, so an authentication
/// request is left out.
pub proof fn lemma_round_trip(id: i32, kind: PacketType, payload: Seq<char>)
    requires
        id >= 0,
        byte_len(payload) <= MAX_CLIENT_PAYLOAD_SIZE,
        kind != PacketType::Authentication,
    ensures
        ({
            let frame = frame_spec(id, kind, payload);
            &&& size_spec(frame.subrange(0, 4)) == Ok::<i32, RconError>((frame.len() - 4) as i32)
            &&& decode_spec(frame.subrange(4, frame.len() as int)) == Ok::<_, DecodeError>(
                (id, kind, payload),
            )
        }),
{
    let text = encode_utf8(payload);
    let body = body_spec(id, kind, payload);
    let frame = frame_spec(id, kind, payload);
    let n = body.len();
    lemma_from_le_bytes(id);
    lemma_from_le_bytes(kind.code_spec());
    lemma_from_le_bytes(n as i32);
    encode_utf8_valid_utf8(payload);
    encode_utf8_decode_utf8(payload);
    assert(frame.subrange(0, 4) =~= le_bytes(n as i32));
    assert(frame.subrange(4, frame.len() as int) =~= body);
    assert(body.subrange(0, 4) =~= le_bytes(id));
    assert(body.subrange(4, 8) =~= le_bytes(kind.code_spec()));
    assert(body.subrange(8, n - 2) =~= text);
    assert(from_le(body) == from_le(body.subrange(0, 4)));
}

} // verus!
