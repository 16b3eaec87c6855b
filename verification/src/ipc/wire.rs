//! The wire format of the local protocol: a four-byte little-endian tag, a
//! four-byte little-endian payload length, then the payload.

use bytes::Buf;
use bytes::BufMut;
use bytes::BytesMut;
use vstd::prelude::*;

verus! {

/// Declares `bytes::BytesMut`, a growable buffer of bytes, so that it can
/// stand in signatures. What a buffer holds is named by [`buffer_bytes`].
#[verifier::external_type_specification]
#[verifier::external_body]
pub struct ExBytesMut(BytesMut);

/// The bytes that a buffer holds, first to last.
pub uninterp spec fn buffer_bytes(buf: BytesMut) -> Seq<u8>;

/// The four bytes of a 32-bit signed integer in two's complement, least
/// significant first: the base-256 digits of `n`, or of `n + 2^32` where
/// `n` is negative.
pub open spec fn le_bytes(n: i32) -> Seq<u8> {
    let u: int = if n < 0 {
        n + 0x1_0000_0000
    } else {
        n as int
    };
    let q1 = u / 0x100;
    let q2 = q1 / 0x100;
    let q3 = q2 / 0x100;
    seq![(u % 0x100) as u8, (q1 % 0x100) as u8, (q2 % 0x100) as u8, (q3 % 0x100) as u8]
}

/// The 32-bit signed integer that the first four bytes of `bytes` stand
/// for, least significant first.
pub open spec fn le_value(bytes: Seq<u8>) -> i32
    recommends
        bytes.len() >= 4,
{
    let u: int = bytes[0] + 0x100 * bytes[1] + 0x1_0000 * bytes[2] + 0x100_0000 * bytes[3];
    if u >= 0x8000_0000 {
        (u - 0x1_0000_0000) as i32
    } else {
        u as i32
    }
}

/// Reading back the bytes of an integer gives the integer.
pub proof fn lemma_le_value_of_bytes(n: i32)
    ensures
        le_bytes(n).len() == 4,
        le_value(le_bytes(n)) == n,
{
}

/// An empty buffer.
///
/// Trusted: calls `bytes::BytesMut::new`, which returns a buffer of
/// length 0 and does not allocate.
#[verifier::external_body]
fn new_buffer() -> (buf: BytesMut)
    ensures
        buffer_bytes(buf) == Seq::<u8>::empty(),
{
    BytesMut::new()
}

/// The number of bytes in a buffer.
///
/// Trusted: calls `bytes::BytesMut::len`.
#[verifier::external_body]
fn buffer_len(buf: &BytesMut) -> (len: usize)
    ensures
        len == buffer_bytes(*buf).len(),
{
    buf.len()
}

/// Appends the four little-endian bytes of `n`.
///
/// Trusted: calls `bytes::BufMut::put_i32_le` on a `BytesMut`, which
/// appends `n.to_le_bytes()` and grows the buffer as needed. It panics
/// where the new length would pass `isize::MAX`; `requires` leaves that
/// out.
#[verifier::external_body]
fn put_i32_le(buf: &mut BytesMut, n: i32)
    requires
        buffer_bytes(*old(buf)).len() + 4 <= isize::MAX,
    ensures
        buffer_bytes(*final(buf)) == buffer_bytes(*old(buf)) + le_bytes(n),
{
    buf.put_i32_le(n)
}

/// Appends the bytes of `src`.
///
/// Trusted: calls `bytes::BufMut::put_slice` on a `BytesMut`, which
/// extends the buffer by the slice. It panics where the new length would
/// pass `isize::MAX`; `requires` leaves that out.
#[verifier::external_body]
fn put_slice(buf: &mut BytesMut, src: &[u8])
    requires
        buffer_bytes(*old(buf)).len() + src@.len() <= isize::MAX,
    ensures
        buffer_bytes(*final(buf)) == buffer_bytes(*old(buf)) + src@,
{
    buf.put_slice(src)
}

/// Takes a little-endian 32-bit signed integer off the front.
///
/// Trusted: calls `bytes::Buf::get_i32_le` on a `BytesMut`, which reads
/// the first four bytes with `i32::from_le_bytes` and advances past them.
/// It panics on a buffer of fewer than four bytes; `requires` leaves that
/// out.
#[verifier::external_body]
fn get_i32_le(buf: &mut BytesMut) -> (n: i32)
    requires
        buffer_bytes(*old(buf)).len() >= 4,
    ensures
        n == le_value(buffer_bytes(*old(buf))),
        buffer_bytes(*final(buf)) == buffer_bytes(*old(buf)).skip(4),
{
    buf.get_i32_le()
}

/// Splits the first `at` bytes off a buffer.
///
/// Trusted: calls `bytes::BytesMut::split_to`, after which the buffer
/// holds what was at `[at, len)` and the result what was at `[0, at)`. It
/// panics where `at` is past the length; `requires` leaves that out.
#[verifier::external_body]
fn split_to(buf: &mut BytesMut, at: usize) -> (head: BytesMut)
    requires
        at <= buffer_bytes(*old(buf)).len(),
    ensures
        buffer_bytes(head) == buffer_bytes(*old(buf)).take(at as int),
        buffer_bytes(*final(buf)) == buffer_bytes(*old(buf)).skip(at as int),
{
    buf.split_to(at)
}

/// The five kinds of message. Each has a tag on the wire.
#[derive(Debug, Clone, Copy, PartialEq, Eq, Structural)]
pub enum MessageKind {
    Handshake,
    Frame,
    Close,
    Ping,
    Pong,
}

impl MessageKind {
    /// The tag of the kind: 0 to 4, in the order of the variants.
    pub open spec fn spec_tag(self) -> i32 {
        match self {
            MessageKind::Handshake => 0,
            MessageKind::Frame => 1,
            MessageKind::Close => 2,
            MessageKind::Ping => 3,
            MessageKind::Pong => 4,
        }
    }

    /// The kind that a tag stands for, if any.
    pub open spec fn of_tag(tag: i32) -> Option<MessageKind> {
        if tag == 0 {
            Some(MessageKind::Handshake)
        } else if tag == 1 {
            Some(MessageKind::Frame)
        } else if tag == 2 {
            Some(MessageKind::Close)
        } else if tag == 3 {
            Some(MessageKind::Ping)
        } else if tag == 4 {
            Some(MessageKind::Pong)
        } else {
            None
        }
    }

    /// The tag of the kind.
    #[verifier::when_used_as_spec(spec_tag)]
    pub fn tag(self) -> (tag: i32)
        ensures
            tag == self.spec_tag(),
    {
        match self {
            MessageKind::Handshake => 0,
            MessageKind::Frame => 1,
            MessageKind::Close => 2,
            MessageKind::Ping => 3,
            MessageKind::Pong => 4,
        }
    }

    /// The kind that a tag stands for; `None` for any tag but 0 to 4.
    pub fn from_tag(tag: i32) -> (kind: Option<MessageKind>)
        ensures
            kind == Self::of_tag(tag),
    {
        if tag == 0 {
            Some(MessageKind::Handshake)
        } else if tag == 1 {
            Some(MessageKind::Frame)
        } else if tag == 2 {
            Some(MessageKind::Close)
        } else if tag == 3 {
            Some(MessageKind::Ping)
        } else if tag == 4 {
            Some(MessageKind::Pong)
        } else {
            None
        }
    }
}

/// Why a message could not be framed.
#[derive(Debug, Clone, Copy, PartialEq, Eq, Structural)]
pub enum EncodeError {
    /// The payload is longer than the length field can say, or than a
    /// buffer on this machine can hold behind the header.
    PayloadTooLarge,
}

/// Whether a payload of `len` bytes can be framed: its length fits the
/// signed 32-bit length field, and header and payload together fit a
/// buffer.
pub open spec fn fits_frame(len: nat) -> bool {
    len <= i32::MAX && len + 8 <= isize::MAX
}

/// The bytes of a frame: tag, payload length, payload.
pub open spec fn frame_bytes(kind: MessageKind, payload: Seq<u8>) -> Seq<u8> {
    le_bytes(kind.spec_tag()) + le_bytes(payload.len() as i32) + payload
}

/// Frames a payload: the tag of `kind` and the payload's length, each as
/// four little-endian bytes, then the payload.
///
/// Fails where the payload is too long for the length field or for a
/// buffer on this machine, and only there.
pub fn encode_frame(kind: MessageKind, payload: &[u8]) -> (res: Result<BytesMut, EncodeError>)
    ensures
        res is Ok <==> fits_frame(payload@.len()),
        res matches Ok(buf) ==> buffer_bytes(buf) == frame_bytes(kind, payload@),
        res matches Err(e) ==> e == EncodeError::PayloadTooLarge,
{
    let len = payload.len();
    if len > 0x7fff_ffff || len > (isize::MAX as usize) - 8 {
        return Err(EncodeError::PayloadTooLarge);
    }
    let mut buf = new_buffer();
    put_i32_le(&mut buf, kind.tag());
    put_i32_le(&mut buf, len as i32);
    put_slice(&mut buf, payload);
    Ok(buf)
}

/// What the eight bytes in front of a payload say.
#[derive(Debug, Clone, Copy, PartialEq, Eq, Structural)]
pub struct FrameHeader {
    pub kind: MessageKind,
    pub length: usize,
}

/// Why a frame could not be decoded.
#[derive(Debug, Clone, Copy, PartialEq, Eq, Structural)]
pub enum DecodeError {
    /// Fewer bytes than the header takes, or than its length field asks
    /// for.
    Truncated,
    /// The tag stands for no message kind.
    InvalidMessageType(i32),
    /// The length field is negative.
    InvalidLength(i32),
    /// The payload is not JSON of the shape that the tag implies.
    InvalidPayload,
}

/// The header at the front of `bytes`. The tag is looked at before the
/// length.
pub open spec fn parse_header(bytes: Seq<u8>) -> Result<FrameHeader, DecodeError> {
    if bytes.len() < 8 {
        Err(DecodeError::Truncated)
    } else {
        let tag = le_value(bytes);
        let length = le_value(bytes.skip(4));
        match MessageKind::of_tag(tag) {
            None => Err(DecodeError::InvalidMessageType(tag)),
            Some(kind) => if length < 0 {
                Err(DecodeError::InvalidLength(length))
            } else {
                Ok(FrameHeader { kind, length: length as usize })
            },
        }
    }
}

/// Reads the header of a frame off the front of `buf`.
///
/// A buffer of fewer than eight bytes is left as it is; from any other the
/// first eight bytes are taken, whether they make a header or not.
pub fn decode_header(buf: &mut BytesMut) -> (res: Result<FrameHeader, DecodeError>)
    ensures
        res == parse_header(buffer_bytes(*old(buf))),
        buffer_bytes(*final(buf)) == if buffer_bytes(*old(buf)).len() < 8 {
            buffer_bytes(*old(buf))
        } else {
            buffer_bytes(*old(buf)).skip(8)
        },
{
    if buffer_len(buf) < 8 {
        return Err(DecodeError::Truncated);
    }
    let tag = get_i32_le(buf);
    let length = get_i32_le(buf);
    proof {
        assert(buffer_bytes(*old(buf)).skip(4).skip(4) =~= buffer_bytes(*old(buf)).skip(8));
    }
    match MessageKind::from_tag(tag) {
        None => Err(DecodeError::InvalidMessageType(tag)),
        Some(kind) => if length < 0 {
            Err(DecodeError::InvalidLength(length))
        } else {
            Ok(FrameHeader { kind, length: length as usize })
        },
    }
}

/// The kind and the payload of the frame at the front of `bytes`.
pub open spec fn parse_frame(bytes: Seq<u8>) -> Result<(MessageKind, Seq<u8>), DecodeError> {
    match parse_header(bytes) {
        Err(e) => Err(e),
        Ok(header) => if bytes.len() - 8 < header.length {
            Err(DecodeError::Truncated)
        } else {
            Ok((header.kind, bytes.subrange(8, 8 + header.length)))
        },
    }
}

/// What is left of `bytes` once the frame at its front has been decoded,
/// or the attempt has failed: a buffer too short for a header is left
/// whole, a header is taken off even if it is refused or its payload is
/// short, and a payload is taken off with its header.
pub open spec fn after_frame(bytes: Seq<u8>) -> Seq<u8> {
    if bytes.len() < 8 {
        bytes
    } else {
        match parse_frame(bytes) {
            Ok((_, payload)) => bytes.skip(8 + payload.len() as int),
            Err(_) => bytes.skip(8),
        }
    }
}

/// Takes one frame off the front of `buf`: its kind and its payload.
pub fn decode_frame(buf: &mut BytesMut) -> (res: Result<(MessageKind, BytesMut), DecodeError>)
    ensures
        match res {
            Ok((kind, payload)) => parse_frame(buffer_bytes(*old(buf))) == Ok::<
                (MessageKind, Seq<u8>),
                DecodeError,
            >((kind, buffer_bytes(payload))),
            Err(e) => parse_frame(buffer_bytes(*old(buf))) == Err::<
                (MessageKind, Seq<u8>),
                DecodeError,
            >(e),
        },
        buffer_bytes(*final(buf)) == after_frame(buffer_bytes(*old(buf))),
{
    let header = match decode_header(buf) {
        Ok(header) => header,
        Err(e) => {
            return Err(e);
        },
    };
    if buffer_len(buf) < header.length {
        return Err(DecodeError::Truncated);
    }
    let payload = split_to(buf, header.length);
    proof {
        let bytes = buffer_bytes(*old(buf));
        assert(bytes.skip(8).take(header.length as int) =~= bytes.subrange(
            8,
            8 + header.length,
        ));
        assert(bytes.skip(8).skip(header.length as int) =~= bytes.skip(8 + header.length));
    }
    Ok((header.kind, payload))
}

/// The header of a frame says the kind and the payload length that the
/// frame was made with.
pub proof fn lemma_header_round_trip(kind: MessageKind, payload: Seq<u8>)
    requires
        fits_frame(payload.len()),
    ensures
        parse_header(frame_bytes(kind, payload)) == Ok::<FrameHeader, DecodeError>(
            FrameHeader { kind, length: payload.len() as usize },
        ),
{
    let bytes = frame_bytes(kind, payload);
    let length = payload.len() as i32;
    lemma_le_value_of_bytes(kind.spec_tag());
    lemma_le_value_of_bytes(length);
    assert(bytes.skip(4) =~= le_bytes(length) + payload);
    assert(le_value(bytes) == le_value(le_bytes(kind.spec_tag())));
    assert(le_value(bytes.skip(4)) == le_value(le_bytes(length)));
}

/// Decoding a frame gives back the kind and the payload it was made with,
/// and nothing is left over.
pub proof fn lemma_frame_round_trip(kind: MessageKind, payload: Seq<u8>)
    requires
        fits_frame(payload.len()),
    ensures
        parse_frame(frame_bytes(kind, payload)) == Ok::<(MessageKind, Seq<u8>), DecodeError>(
            (kind, payload),
        ),
        after_frame(frame_bytes(kind, payload)) == Seq::<u8>::empty(),
{
    let bytes = frame_bytes(kind, payload);
    lemma_header_round_trip(kind, payload);
    lemma_le_value_of_bytes(kind.spec_tag());
    lemma_le_value_of_bytes(payload.len() as i32);
    assert(bytes.subrange(8, 8 + payload.len() as int) =~= payload);
    assert(bytes.skip(8 + payload.len() as int) =~= Seq::<u8>::empty());
}

} // verus!
