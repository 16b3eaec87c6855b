//! The messages of the local protocol.

use crate::ipc::wire::{
    buffer_bytes, encode_frame, fits_frame, frame_bytes, lemma_frame_round_trip, parse_frame,
    DecodeError, EncodeError, MessageKind,
};
use crate::json::{clone_opt_value, clone_value};
use crate::structs::{clone_opt_string, opt_text, IpcPartialActivity, IpcPartialActivityView};
use bytes::BytesMut;
use serde_json::Value;
use vstd::prelude::*;

verus! {

/// Why a connection is closed.
#[derive(Debug, Clone, Copy, PartialEq, Eq, Structural)]
pub enum CloseCodes {
    Normal,
    Unsupported,
    Abnormal,
    InvalidClientID,
    InvalidVersion,
}

impl CloseCodes {
    /// The number that stands for the code on the wire.
    pub open spec fn spec_code(self) -> int {
        match self {
            CloseCodes::Normal => 1000,
            CloseCodes::Unsupported => 1003,
            CloseCodes::Abnormal => 1006,
            CloseCodes::InvalidClientID => 4000,
            CloseCodes::InvalidVersion => 4004,
        }
    }

    /// The code that a number stands for, if any.
    pub open spec fn of_code(code: int) -> Option<CloseCodes> {
        if code == 1000 {
            Some(CloseCodes::Normal)
        } else if code == 1003 {
            Some(CloseCodes::Unsupported)
        } else if code == 1006 {
            Some(CloseCodes::Abnormal)
        } else if code == 4000 {
            Some(CloseCodes::InvalidClientID)
        } else if code == 4004 {
            Some(CloseCodes::InvalidVersion)
        } else {
            None
        }
    }

    /// The number that stands for the code on the wire.
    pub fn code(&self) -> (code: u16)
        ensures
            code == self.spec_code(),
    {
        match self {
            CloseCodes::Normal => 1000,
            CloseCodes::Unsupported => 1003,
            CloseCodes::Abnormal => 1006,
            CloseCodes::InvalidClientID => 4000,
            CloseCodes::InvalidVersion => 4004,
        }
    }

    /// The code that a number stands for; `None` for a number that stands
    /// for none.
    pub fn from_code(code: i64) -> (res: Option<CloseCodes>)
        ensures
            res == Self::of_code(code as int),
    {
        if code == 1000 {
            Some(CloseCodes::Normal)
        } else if code == 1003 {
            Some(CloseCodes::Unsupported)
        } else if code == 1006 {
            Some(CloseCodes::Abnormal)
        } else if code == 4000 {
            Some(CloseCodes::InvalidClientID)
        } else if code == 4004 {
            Some(CloseCodes::InvalidVersion)
        } else {
            None
        }
    }
}

/// Each code is found again from its number.
pub proof fn lemma_close_code_round_trip(code: CloseCodes)
    ensures
        CloseCodes::of_code(code.spec_code()) == Some(code),
{
}

/// The first message of a session: the protocol version and the
/// application's client id.
#[derive(Debug, PartialEq, Eq)]
pub struct HandshakeMessage {
    pub version: i32,
    pub client_id: String,
}

/// What a [`HandshakeMessage`] stands for in contracts: the same value with its
/// strings and lists as sequences.
pub struct HandshakeMessageView {
    pub version: i32,
    pub client_id: Seq<char>,
}

impl View for HandshakeMessage {
    type V = HandshakeMessageView;

    open spec fn view(&self) -> HandshakeMessageView {
        HandshakeMessageView { version: self.version, client_id: self.client_id@ }
    }
}

impl Clone for HandshakeMessage {
    fn clone(&self) -> (res: Self)
        ensures
            res@ == self@,
    {
        HandshakeMessage { version: self.version, client_id: self.client_id.clone() }
    }
}

/// The last message of a session, from either side.
#[derive(Debug, PartialEq, Eq)]
pub struct CloseMessage {
    pub code: CloseCodes,
    pub message: String,
}

/// What a [`CloseMessage`] stands for in contracts: the same value with its
/// strings and lists as sequences.
pub struct CloseMessageView {
    pub code: CloseCodes,
    pub message: Seq<char>,
}

impl View for CloseMessage {
    type V = CloseMessageView;

    open spec fn view(&self) -> CloseMessageView {
        CloseMessageView { code: self.code, message: self.message@ }
    }
}

impl Clone for CloseMessage {
    fn clone(&self) -> (res: Self)
        ensures
            res@ == self@,
    {
        CloseMessage { code: self.code, message: self.message.clone() }
    }
}

impl CloseMessage {
    /// A close with the given code and an empty message.
    pub open spec fn bare(code: CloseCodes) -> CloseMessageView {
        CloseMessageView { code, message: Seq::empty() }
    }

    /// A close with the given code and an empty message.
    pub fn with_code(code: CloseCodes) -> (close: CloseMessage)
        ensures
            close@ == Self::bare(code),
    {
        CloseMessage { code, message: String::new() }
    }
}

/// The arguments of an activity frame.
#[derive(Debug, PartialEq, Eq)]
pub struct IpcFrameArgs {
    pub activity: IpcPartialActivity,
    pub pid: usize,
}

/// What a [`IpcFrameArgs`] stands for in contracts: the same value with its
/// strings and lists as sequences.
pub struct IpcFrameArgsView {
    pub activity: IpcPartialActivityView,
    pub pid: usize,
}

impl View for IpcFrameArgs {
    type V = IpcFrameArgsView;

    open spec fn view(&self) -> IpcFrameArgsView {
        IpcFrameArgsView { activity: self.activity@, pid: self.pid }
    }
}

impl Clone for IpcFrameArgs {
    fn clone(&self) -> (res: Self)
        ensures
            res@ == self@,
    {
        IpcFrameArgs { activity: self.activity.clone(), pid: self.pid }
    }
}

/// The view of optional frame arguments.
pub open spec fn opt_args_view(o: Option<IpcFrameArgs>) -> Option<IpcFrameArgsView> {
    match o {
        Some(a) => Some(a@),
        None => None,
    }
}

/// A command or an event of the local protocol.
#[derive(Debug, PartialEq, Eq)]
pub struct IpcFrame {
    pub args: Option<IpcFrameArgs>,
    pub data: Option<Value>,
    pub cmd: String,
    pub evt: Option<String>,
    pub nonce: String,
}

/// What a [`IpcFrame`] stands for in contracts: the same value with its
/// strings and lists as sequences.
pub struct IpcFrameView {
    pub args: Option<IpcFrameArgsView>,
    pub data: Option<Value>,
    pub cmd: Seq<char>,
    pub evt: Option<Seq<char>>,
    pub nonce: Seq<char>,
}

impl View for IpcFrame {
    type V = IpcFrameView;

    open spec fn view(&self) -> IpcFrameView {
        IpcFrameView {
            args: opt_args_view(self.args),
            data: self.data,
            cmd: self.cmd@,
            evt: opt_text(self.evt),
            nonce: self.nonce@,
        }
    }
}

impl Clone for IpcFrame {
    fn clone(&self) -> (res: Self)
        ensures
            res@ == self@,
    {
        IpcFrame {
            args: match &self.args {
                Some(a) => Some(a.clone()),
                None => None,
            },
            data: clone_opt_value(&self.data),
            cmd: self.cmd.clone(),
            evt: clone_opt_string(&self.evt),
            nonce: self.nonce.clone(),
        }
    }
}

/// A message of the local protocol, one variant for each kind.
#[derive(Debug, PartialEq, Eq)]
pub enum IpcMessage {
    Handshake(HandshakeMessage),
    Frame(IpcFrame),
    Close(CloseMessage),
    Ping(Value),
    Pong(Value),
}

/// What a [`IpcMessage`] stands for in contracts: the same value with its
/// strings and lists as sequences.
pub enum IpcMessageView {
    Handshake(HandshakeMessageView),
    Frame(IpcFrameView),
    Close(CloseMessageView),
    Ping(Value),
    Pong(Value),
}

impl View for IpcMessage {
    type V = IpcMessageView;

    open spec fn view(&self) -> IpcMessageView {
        match self {
            IpcMessage::Handshake(h) => IpcMessageView::Handshake(h@),
            IpcMessage::Frame(f) => IpcMessageView::Frame(f@),
            IpcMessage::Close(c) => IpcMessageView::Close(c@),
            IpcMessage::Ping(v) => IpcMessageView::Ping(*v),
            IpcMessage::Pong(v) => IpcMessageView::Pong(*v),
        }
    }
}

impl Clone for IpcMessage {
    fn clone(&self) -> (res: Self)
        ensures
            res@ == self@,
    {
        match self {
            IpcMessage::Handshake(h) => IpcMessage::Handshake(h.clone()),
            IpcMessage::Frame(f) => IpcMessage::Frame(f.clone()),
            IpcMessage::Close(c) => IpcMessage::Close(c.clone()),
            IpcMessage::Ping(v) => IpcMessage::Ping(clone_value(v)),
            IpcMessage::Pong(v) => IpcMessage::Pong(clone_value(v)),
        }
    }
}

impl IpcMessageView {
    /// The kind of the message, which decides its tag on the wire.
    pub open spec fn kind(self) -> MessageKind {
        match self {
            IpcMessageView::Handshake(_) => MessageKind::Handshake,
            IpcMessageView::Frame(_) => MessageKind::Frame,
            IpcMessageView::Close(_) => MessageKind::Close,
            IpcMessageView::Ping(_) => MessageKind::Ping,
            IpcMessageView::Pong(_) => MessageKind::Pong,
        }
    }

    /// The payload of the message, as its JSON text is parsed.
    pub open spec fn payload(self) -> ParsedPayloadView {
        match self {
            IpcMessageView::Handshake(h) => ParsedPayloadView::Handshake(h),
            IpcMessageView::Frame(f) => ParsedPayloadView::Frame(f),
            IpcMessageView::Close(c) => ParsedPayloadView::Close(c),
            IpcMessageView::Ping(v) => ParsedPayloadView::Json(v),
            IpcMessageView::Pong(v) => ParsedPayloadView::Json(v),
        }
    }
}

/// What the JSON text of a payload was parsed into: one of the three
/// structured shapes, or a free-form document.
#[derive(Debug, PartialEq, Eq)]
pub enum ParsedPayload {
    Handshake(HandshakeMessage),
    Frame(IpcFrame),
    Close(CloseMessage),
    Json(Value),
}

/// What a [`ParsedPayload`] stands for in contracts: the same value with its
/// strings and lists as sequences.
pub enum ParsedPayloadView {
    Handshake(HandshakeMessageView),
    Frame(IpcFrameView),
    Close(CloseMessageView),
    Json(Value),
}

impl View for ParsedPayload {
    type V = ParsedPayloadView;

    open spec fn view(&self) -> ParsedPayloadView {
        match self {
            ParsedPayload::Handshake(h) => ParsedPayloadView::Handshake(h@),
            ParsedPayload::Frame(f) => ParsedPayloadView::Frame(f@),
            ParsedPayload::Close(c) => ParsedPayloadView::Close(c@),
            ParsedPayload::Json(v) => ParsedPayloadView::Json(*v),
        }
    }
}

/// The view of an optional parsed payload.
pub open spec fn opt_payload_view(o: Option<ParsedPayload>) -> Option<ParsedPayloadView> {
    match o {
        Some(p) => Some(p@),
        None => None,
    }
}

/// The message that a frame of the given kind decodes to, where `payload`
/// is what its JSON text was parsed into, or `None` if that failed.
///
/// A close frame is never refused: where its payload is not a structured
/// close, the message is a normal close with an empty text. Every other
/// kind needs a payload of its own shape.
pub open spec fn assemble(kind: MessageKind, payload: Option<ParsedPayloadView>) -> Result<
    IpcMessageView,
    DecodeError,
> {
    match kind {
        MessageKind::Handshake => match payload {
            Some(ParsedPayloadView::Handshake(h)) => Ok(IpcMessageView::Handshake(h)),
            _ => Err(DecodeError::InvalidPayload),
        },
        MessageKind::Frame => match payload {
            Some(ParsedPayloadView::Frame(f)) => Ok(IpcMessageView::Frame(f)),
            _ => Err(DecodeError::InvalidPayload),
        },
        MessageKind::Close => match payload {
            Some(ParsedPayloadView::Close(c)) => Ok(IpcMessageView::Close(c)),
            _ => Ok(IpcMessageView::Close(CloseMessage::bare(CloseCodes::Normal))),
        },
        MessageKind::Ping => match payload {
            Some(ParsedPayloadView::Json(v)) => Ok(IpcMessageView::Ping(v)),
            _ => Err(DecodeError::InvalidPayload),
        },
        MessageKind::Pong => match payload {
            Some(ParsedPayloadView::Json(v)) => Ok(IpcMessageView::Pong(v)),
            _ => Err(DecodeError::InvalidPayload),
        },
    }
}

/// The view of a decoding result.
pub open spec fn decoded_view(res: Result<IpcMessage, DecodeError>) -> Result<
    IpcMessageView,
    DecodeError,
> {
    match res {
        Ok(m) => Ok(m@),
        Err(e) => Err(e),
    }
}

impl IpcMessage {
    /// The kind of the message.
    pub fn kind(&self) -> (kind: MessageKind)
        ensures
            kind == self@.kind(),
    {
        match self {
            IpcMessage::Handshake(_) => MessageKind::Handshake,
            IpcMessage::Frame(_) => MessageKind::Frame,
            IpcMessage::Close(_) => MessageKind::Close,
            IpcMessage::Ping(_) => MessageKind::Ping,
            IpcMessage::Pong(_) => MessageKind::Pong,
        }
    }

    /// Frames the message for the wire. `payload` is the JSON text of the
    /// message's payload; the tag is that of the message's kind.
    ///
    /// Fails where the payload is too long for the length field or for a
    /// buffer on this machine, and only there.
    pub fn try_encode(&self, payload: &[u8]) -> (res: Result<BytesMut, EncodeError>)
        ensures
            res is Ok <==> fits_frame(payload@.len()),
            res matches Ok(buf) ==> buffer_bytes(buf) == frame_bytes(
                self@.kind(),
                payload@,
            ),
            res matches Err(e) ==> e == EncodeError::PayloadTooLarge,
    {
        encode_frame(self.kind(), payload)
    }

    /// Makes the message of a frame from the kind in its header and from
    /// what its payload was parsed into (`None` where the payload is not
    /// JSON of any shape the caller tried).
    pub fn try_decode(kind: MessageKind, payload: Option<ParsedPayload>) -> (res: Result<
        IpcMessage,
        DecodeError,
    >)
        ensures
            decoded_view(res) == assemble(kind, opt_payload_view(payload)),
    {
        match kind {
            MessageKind::Handshake => match payload {
                Some(ParsedPayload::Handshake(h)) => Ok(IpcMessage::Handshake(h)),
                _ => Err(DecodeError::InvalidPayload),
            },
            MessageKind::Frame => match payload {
                Some(ParsedPayload::Frame(f)) => Ok(IpcMessage::Frame(f)),
                _ => Err(DecodeError::InvalidPayload),
            },
            MessageKind::Close => match payload {
                Some(ParsedPayload::Close(c)) => Ok(IpcMessage::Close(c)),
                _ => Ok(IpcMessage::Close(CloseMessage::with_code(CloseCodes::Normal))),
            },
            MessageKind::Ping => match payload {
                Some(ParsedPayload::Json(v)) => Ok(IpcMessage::Ping(v)),
                _ => Err(DecodeError::InvalidPayload),
            },
            MessageKind::Pong => match payload {
                Some(ParsedPayload::Json(v)) => Ok(IpcMessage::Pong(v)),
                _ => Err(DecodeError::InvalidPayload),
            },
        }
    }
}

/// The bytes of a message on the wire, where `print` gives the JSON text
/// of a payload: the frame of the message's kind around the text of its
/// payload.
pub open spec fn encoded(
    print: spec_fn(ParsedPayloadView) -> Seq<u8>,
    message: IpcMessageView,
) -> Seq<u8> {
    frame_bytes(message.kind(), print(message.payload()))
}

/// The message that the frame at the front of `bytes` stands for, where
/// `parse` reads the JSON text of a payload as the shape that a kind
/// implies, or says that it cannot.
pub open spec fn decoded(
    parse: spec_fn(MessageKind, Seq<u8>) -> Option<ParsedPayloadView>,
    bytes: Seq<u8>,
) -> Result<IpcMessageView, DecodeError> {
    match parse_frame(bytes) {
        Ok((kind, text)) => assemble(kind, parse(kind, text)),
        Err(e) => Err(e),
    }
}

/// Round trip: decoding what was encoded gives back the message, for
/// every kind of message. This holds of every message whose payload is
/// read back from its own JSON text as it was, and whose text is not too
/// long for a frame.
pub proof fn lemma_decode_encode_round_trip(
    print: spec_fn(ParsedPayloadView) -> Seq<u8>,
    parse: spec_fn(MessageKind, Seq<u8>) -> Option<ParsedPayloadView>,
    message: IpcMessageView,
)
    requires
        fits_frame(print(message.payload()).len()),
        parse(message.kind(), print(message.payload())) == Some(message.payload()),
    ensures
        decoded(parse, encoded(print, message)) == Ok::<IpcMessageView, DecodeError>(message),
{
    lemma_frame_round_trip(message.kind(), print(message.payload()));
}

/// A close is never lost to a bad payload: whatever the text of a close
/// frame is read as, the frame decodes to a close, and to the normal close
/// with an empty text where the text is not a structured close.
pub proof fn lemma_close_is_tolerant(
    parse: spec_fn(MessageKind, Seq<u8>) -> Option<ParsedPayloadView>,
    text: Seq<u8>,
)
    requires
        fits_frame(text.len()),
    ensures
        decoded(parse, frame_bytes(MessageKind::Close, text)) matches Ok(
            IpcMessageView::Close(close),
        ) && (!(parse(MessageKind::Close, text) matches Some(ParsedPayloadView::Close(_)))
            ==> close == CloseMessage::bare(CloseCodes::Normal)),
{
    lemma_frame_round_trip(MessageKind::Close, text);
}

/// What the relay tells a session's handler to do.
#[derive(Debug, PartialEq, Eq)]
pub enum IpcCommand {
    /// Write this frame to the connection.
    Frame(IpcFrame),
    /// Write a normal close and end the session.
    Close,
}

/// What a [`IpcCommand`] stands for in contracts: the same value with its
/// strings and lists as sequences.
pub enum IpcCommandView {
    Frame(IpcFrameView),
    Close,
}

impl View for IpcCommand {
    type V = IpcCommandView;

    open spec fn view(&self) -> IpcCommandView {
        match self {
            IpcCommand::Frame(f) => IpcCommandView::Frame(f@),
            IpcCommand::Close => IpcCommandView::Close,
        }
    }
}

impl Clone for IpcCommand {
    fn clone(&self) -> (res: Self)
        ensures
            res@ == self@,
    {
        match self {
            IpcCommand::Frame(f) => IpcCommand::Frame(f.clone()),
            IpcCommand::Close => IpcCommand::Close,
        }
    }
}

impl IpcCommandView {
    /// The message that carries out the command: the frame itself, or a
    /// normal close with an empty text.
    pub open spec fn message(self) -> IpcMessageView {
        match self {
            IpcCommandView::Frame(f) => IpcMessageView::Frame(f),
            IpcCommandView::Close => IpcMessageView::Close(CloseMessage::bare(CloseCodes::Normal)),
        }
    }
}

impl IpcCommand {
    /// The message to write for the command.
    pub fn message(&self) -> (message: IpcMessage)
        ensures
            message@ == self@.message(),
    {
        match self {
            IpcCommand::Frame(f) => IpcMessage::Frame(f.clone()),
            IpcCommand::Close => IpcMessage::Close(CloseMessage::with_code(CloseCodes::Normal)),
        }
    }

    /// Frames the command's message for the wire. `payload` is the JSON
    /// text of that message's payload.
    ///
    /// Fails where the payload is too long for the length field or for a
    /// buffer on this machine, and only there.
    pub fn try_encode(&self, payload: &[u8]) -> (res: Result<BytesMut, EncodeError>)
        ensures
            res is Ok <==> fits_frame(payload@.len()),
            res matches Ok(buf) ==> buffer_bytes(buf) == frame_bytes(
                self@.message().kind(),
                payload@,
            ),
            res matches Err(e) ==> e == EncodeError::PayloadTooLarge,
    {
        let kind = match self {
            IpcCommand::Frame(_) => MessageKind::Frame,
            IpcCommand::Close => MessageKind::Close,
        };
        encode_frame(kind, payload)
    }
}

} // verus!
