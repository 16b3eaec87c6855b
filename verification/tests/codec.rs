use arrpc_rs::ipc::structs::{
    CloseCodes, CloseMessage, HandshakeMessage, IpcCommand, IpcFrame, IpcMessage, ParsedPayload,
};
use arrpc_rs::ipc::wire::{
    decode_frame, decode_header, encode_frame, DecodeError, EncodeError, FrameHeader, MessageKind,
};
use bytes::BytesMut;
use serde_json::Value;

fn buffer(bytes: &[u8]) -> BytesMut {
    BytesMut::from(bytes)
}

fn frame(cmd: &str, nonce: &str) -> IpcFrame {
    IpcFrame { args: None, data: None, cmd: cmd.to_string(), evt: None, nonce: nonce.to_string() }
}

#[test]
fn tags_are_zero_to_four_in_order() {
    assert_eq!(MessageKind::Handshake.tag(), 0);
    assert_eq!(MessageKind::Frame.tag(), 1);
    assert_eq!(MessageKind::Close.tag(), 2);
    assert_eq!(MessageKind::Ping.tag(), 3);
    assert_eq!(MessageKind::Pong.tag(), 4);
    assert_eq!(MessageKind::from_tag(0), Some(MessageKind::Handshake));
    assert_eq!(MessageKind::from_tag(1), Some(MessageKind::Frame));
    assert_eq!(MessageKind::from_tag(2), Some(MessageKind::Close));
    assert_eq!(MessageKind::from_tag(3), Some(MessageKind::Ping));
    assert_eq!(MessageKind::from_tag(4), Some(MessageKind::Pong));
    assert_eq!(MessageKind::from_tag(5), None);
    assert_eq!(MessageKind::from_tag(-1), None);
    assert_eq!(MessageKind::from_tag(i32::MAX), None);
}

#[test]
fn frame_is_tag_then_length_then_payload() {
    let payload = b"{\"a\":1}".to_vec();
    let frame = encode_frame(MessageKind::Ping, &payload).unwrap();
    let mut expected = vec![3u8, 0, 0, 0, 7, 0, 0, 0];
    expected.extend_from_slice(&payload);
    assert_eq!(&frame[..], &expected[..]);
}

#[test]
fn frame_of_an_empty_payload_is_the_header() {
    let frame = encode_frame(MessageKind::Handshake, &[]).unwrap();
    assert_eq!(&frame[..], &[0u8, 0, 0, 0, 0, 0, 0, 0][..]);
}

#[test]
fn length_is_little_endian() {
    let payload = vec![b' '; 300];
    let frame = encode_frame(MessageKind::Frame, &payload).unwrap();
    assert_eq!(&frame[..8], &[1u8, 0, 0, 0, 44, 1, 0, 0][..]);
    assert_eq!(frame.len(), 308);
    let payload = vec![b' '; 0x01_02_03];
    let frame = encode_frame(MessageKind::Pong, &payload).unwrap();
    assert_eq!(&frame[..8], &[4u8, 0, 0, 0, 3, 2, 1, 0][..]);
}

#[test]
fn frame_round_trip_for_every_kind() {
    let kinds = [
        MessageKind::Handshake,
        MessageKind::Frame,
        MessageKind::Close,
        MessageKind::Ping,
        MessageKind::Pong,
    ];
    for kind in kinds {
        let payload = format!("{{\"kind\":{}}}", kind.tag()).into_bytes();
        let mut frame = encode_frame(kind, &payload).unwrap();
        let (decoded, body) = decode_frame(&mut frame).unwrap();
        assert_eq!(decoded, kind);
        assert_eq!(&body[..], &payload[..]);
        assert!(frame.is_empty());
    }
}

#[test]
fn header_is_read_off_the_front() {
    let mut buf = buffer(&[2, 0, 0, 0, 5, 0, 0, 0, b'h', b'e', b'l', b'l', b'o']);
    let header = decode_header(&mut buf).unwrap();
    assert_eq!(header, FrameHeader { kind: MessageKind::Close, length: 5 });
    assert_eq!(&buf[..], b"hello");
}

#[test]
fn header_with_the_largest_length() {
    let mut buf = buffer(&[3, 0, 0, 0, 0xff, 0xff, 0xff, 0x7f]);
    let header = decode_header(&mut buf).unwrap();
    assert_eq!(header, FrameHeader { kind: MessageKind::Ping, length: 0x7fff_ffff });
    assert!(buf.is_empty());
}

#[test]
fn short_header_is_truncated_and_left_alone() {
    for len in 0..8usize {
        let bytes = vec![0u8; len];
        let mut buf = buffer(&bytes);
        assert_eq!(decode_header(&mut buf), Err(DecodeError::Truncated));
        assert_eq!(buf.len(), len);
    }
}

#[test]
fn unknown_tag_is_refused() {
    let mut buf = buffer(&[5, 0, 0, 0, 0, 0, 0, 0]);
    assert_eq!(decode_header(&mut buf), Err(DecodeError::InvalidMessageType(5)));
    assert!(buf.is_empty());
    let mut buf = buffer(&[0xff, 0xff, 0xff, 0xff, 0, 0, 0, 0]);
    assert_eq!(decode_header(&mut buf), Err(DecodeError::InvalidMessageType(-1)));
    let mut buf = buffer(&[0, 1, 0, 0, 0, 0, 0, 0]);
    assert_eq!(decode_header(&mut buf), Err(DecodeError::InvalidMessageType(256)));
}

#[test]
fn negative_length_is_refused() {
    let mut buf = buffer(&[1, 0, 0, 0, 0xfe, 0xff, 0xff, 0xff]);
    assert_eq!(decode_header(&mut buf), Err(DecodeError::InvalidLength(-2)));
    let mut buf = buffer(&[1, 0, 0, 0, 0, 0, 0, 0x80]);
    assert_eq!(decode_header(&mut buf), Err(DecodeError::InvalidLength(i32::MIN)));
}

#[test]
fn unknown_tag_is_reported_before_a_negative_length() {
    let mut buf = buffer(&[9, 0, 0, 0, 0xff, 0xff, 0xff, 0xff]);
    assert_eq!(decode_header(&mut buf), Err(DecodeError::InvalidMessageType(9)));
}

#[test]
fn short_payload_is_truncated() {
    let mut buf = buffer(&[3, 0, 0, 0, 4, 0, 0, 0, b'n', b'u', b'l']);
    assert_eq!(decode_frame(&mut buf).err(), Some(DecodeError::Truncated));
    assert_eq!(&buf[..], b"nul");
}

#[test]
fn frames_are_taken_one_at_a_time() {
    let mut buf = encode_frame(MessageKind::Ping, b"1").unwrap();
    buf.extend_from_slice(&encode_frame(MessageKind::Pong, b"22").unwrap());
    let (kind, body) = decode_frame(&mut buf).unwrap();
    assert_eq!((kind, &body[..]), (MessageKind::Ping, &b"1"[..]));
    let (kind, body) = decode_frame(&mut buf).unwrap();
    assert_eq!((kind, &body[..]), (MessageKind::Pong, &b"22"[..]));
    assert_eq!(decode_frame(&mut buf).err(), Some(DecodeError::Truncated));
}

#[test]
fn each_kind_takes_a_payload_of_its_own_shape() {
    let handshake = HandshakeMessage { version: 1, client_id: "abc".to_string() };
    assert_eq!(
        IpcMessage::try_decode(
            MessageKind::Handshake,
            Some(ParsedPayload::Handshake(handshake.clone()))
        ),
        Ok(IpcMessage::Handshake(handshake))
    );
    assert_eq!(
        IpcMessage::try_decode(
            MessageKind::Frame,
            Some(ParsedPayload::Frame(frame("SET_ACTIVITY", "n")))
        ),
        Ok(IpcMessage::Frame(frame("SET_ACTIVITY", "n")))
    );
    let close = CloseMessage { code: CloseCodes::Abnormal, message: "bye".to_string() };
    assert_eq!(
        IpcMessage::try_decode(MessageKind::Close, Some(ParsedPayload::Close(close.clone()))),
        Ok(IpcMessage::Close(close))
    );
    assert_eq!(
        IpcMessage::try_decode(MessageKind::Ping, Some(ParsedPayload::Json(Value::from(7)))),
        Ok(IpcMessage::Ping(Value::from(7)))
    );
    assert_eq!(
        IpcMessage::try_decode(MessageKind::Pong, Some(ParsedPayload::Json(Value::Null))),
        Ok(IpcMessage::Pong(Value::Null))
    );
}

#[test]
fn close_with_a_bad_payload_is_a_normal_close() {
    let normal = IpcMessage::Close(CloseMessage { code: CloseCodes::Normal, message: String::new() });
    assert_eq!(IpcMessage::try_decode(MessageKind::Close, None), Ok(normal.clone()));
    assert_eq!(
        IpcMessage::try_decode(MessageKind::Close, Some(ParsedPayload::Json(Value::from("x")))),
        Ok(normal)
    );
}

#[test]
fn other_kinds_fail_on_a_bad_payload() {
    for kind in [MessageKind::Handshake, MessageKind::Frame, MessageKind::Ping, MessageKind::Pong] {
        assert_eq!(IpcMessage::try_decode(kind, None), Err(DecodeError::InvalidPayload));
    }
    assert_eq!(
        IpcMessage::try_decode(MessageKind::Handshake, Some(ParsedPayload::Json(Value::Null))),
        Err(DecodeError::InvalidPayload)
    );
    assert_eq!(
        IpcMessage::try_decode(
            MessageKind::Ping,
            Some(ParsedPayload::Frame(frame("SET_ACTIVITY", "n")))
        ),
        Err(DecodeError::InvalidPayload)
    );
    assert_eq!(
        IpcMessage::try_decode(
            MessageKind::Frame,
            Some(ParsedPayload::Handshake(HandshakeMessage {
                version: 1,
                client_id: "abc".to_string()
            }))
        ),
        Err(DecodeError::InvalidPayload)
    );
}

#[test]
fn message_is_framed_under_the_tag_of_its_kind() {
    let messages = [
        (IpcMessage::Handshake(HandshakeMessage { version: 1, client_id: "a".to_string() }), 0u8),
        (IpcMessage::Frame(frame("SET_ACTIVITY", "n")), 1),
        (IpcMessage::Close(CloseMessage::with_code(CloseCodes::Normal)), 2),
        (IpcMessage::Ping(Value::from(1)), 3),
        (IpcMessage::Pong(Value::from(1)), 4),
    ];
    for (message, tag) in messages {
        let encoded = message.try_encode(b"{}").unwrap();
        assert_eq!(&encoded[..], &[tag, 0, 0, 0, 2, 0, 0, 0, b'{', b'}'][..]);
        assert_eq!(message.kind().tag(), tag as i32);
    }
}

#[test]
fn message_round_trip_for_every_kind() {
    let payloads = [
        ParsedPayload::Handshake(HandshakeMessage { version: 1, client_id: "abc".to_string() }),
        ParsedPayload::Frame(frame("SET_ACTIVITY", "n1")),
        ParsedPayload::Close(CloseMessage {
            code: CloseCodes::InvalidVersion,
            message: "no".to_string(),
        }),
        ParsedPayload::Json(serde_json::from_str::<Value>("{\"a\":[1,2,{\"b\":null}]}").unwrap()),
        ParsedPayload::Json(Value::from("pong")),
    ];
    let kinds = [
        MessageKind::Handshake,
        MessageKind::Frame,
        MessageKind::Close,
        MessageKind::Ping,
        MessageKind::Pong,
    ];
    for (payload, kind) in payloads.into_iter().zip(kinds) {
        let text = format!("{:?}", payload).into_bytes();
        let message = IpcMessage::try_decode(kind, Some(payload)).unwrap();
        let mut frame = message.try_encode(&text).unwrap();
        let (decoded, body) = decode_frame(&mut frame).unwrap();
        assert_eq!(decoded, message.kind());
        assert_eq!(&body[..], &text[..]);
        let again = match message.clone() {
            IpcMessage::Handshake(h) => ParsedPayload::Handshake(h),
            IpcMessage::Frame(f) => ParsedPayload::Frame(f),
            IpcMessage::Close(c) => ParsedPayload::Close(c),
            IpcMessage::Ping(v) => ParsedPayload::Json(v),
            IpcMessage::Pong(v) => ParsedPayload::Json(v),
        };
        assert_eq!(IpcMessage::try_decode(decoded, Some(again)), Ok(message));
    }
}

#[test]
fn close_codes_have_their_numbers() {
    let codes = [
        (CloseCodes::Normal, 1000u16),
        (CloseCodes::Unsupported, 1003),
        (CloseCodes::Abnormal, 1006),
        (CloseCodes::InvalidClientID, 4000),
        (CloseCodes::InvalidVersion, 4004),
    ];
    for (code, number) in codes {
        assert_eq!(code.code(), number);
        assert_eq!(CloseCodes::from_code(number as i64), Some(code));
    }
    assert_eq!(CloseCodes::from_code(0), None);
    assert_eq!(CloseCodes::from_code(1001), None);
    assert_eq!(CloseCodes::from_code(-1000), None);
    assert_eq!(CloseCodes::from_code(1000 + 65536), None);
}

#[test]
fn close_command_is_a_normal_close() {
    assert_eq!(
        IpcCommand::Close.message(),
        IpcMessage::Close(CloseMessage { code: CloseCodes::Normal, message: String::new() })
    );
    let encoded = IpcCommand::Close.try_encode(b"{}").unwrap();
    assert_eq!(&encoded[..4], &[2u8, 0, 0, 0][..]);
}

#[test]
fn frame_command_is_its_frame() {
    let command = IpcCommand::Frame(frame("DISPATCH", ""));
    assert_eq!(command.message(), IpcMessage::Frame(frame("DISPATCH", "")));
    let encoded = command.try_encode(b"[]").unwrap();
    assert_eq!(&encoded[..], &[1u8, 0, 0, 0, 2, 0, 0, 0, b'[', b']'][..]);
}

#[test]
fn clones_are_equal() {
    let message = IpcMessage::Ping(serde_json::from_str::<Value>("{\"k\":[true,1.5,\"s\"]}").unwrap());
    assert_eq!(message.clone(), message);
    let command = IpcCommand::Frame(IpcFrame {
        args: None,
        data: Some(Value::from(3)),
        cmd: "DISPATCH".to_string(),
        evt: Some("READY".to_string()),
        nonce: String::new(),
    });
    assert_eq!(command.clone(), command);
}

#[test]
fn payload_longer_than_the_length_field_can_say_is_refused() {
    let payload = vec![0u8; 0x8000_0000];
    assert_eq!(
        encode_frame(MessageKind::Ping, &payload).err(),
        Some(EncodeError::PayloadTooLarge)
    );
    let message = IpcMessage::Ping(Value::Null);
    assert_eq!(message.try_encode(&payload).err(), Some(EncodeError::PayloadTooLarge));
    assert_eq!(IpcCommand::Close.try_encode(&payload).err(), Some(EncodeError::PayloadTooLarge));
}

#[test]
fn ping_round_trip_through_its_json_text() {
    let documents = [
        "null",
        "true",
        "17",
        "-3",
        "\"text with \\\"quotes\\\" and \\u00e9\"",
        "[1,[2,[3,[]]],{}]",
        "{\"nonce\":\"n1\",\"nested\":{\"list\":[null,false,\"x\"]}}",
    ];
    for document in documents {
        let value = serde_json::from_str::<Value>(document).unwrap();
        for (message, kind) in [
            (IpcMessage::Ping(value.clone()), MessageKind::Ping),
            (IpcMessage::Pong(value.clone()), MessageKind::Pong),
        ] {
            let text = serde_json::to_vec(&value).unwrap();
            let mut frame = message.try_encode(&text).unwrap();
            assert_eq!(frame.len(), 8 + text.len());
            let (decoded, body) = decode_frame(&mut frame).unwrap();
            assert_eq!(decoded, kind);
            let parsed = serde_json::from_slice::<Value>(&body).ok().map(ParsedPayload::Json);
            assert_eq!(IpcMessage::try_decode(decoded, parsed), Ok(message));
        }
    }
}

#[test]
fn ping_with_text_that_is_not_json_is_refused() {
    let mut frame = encode_frame(MessageKind::Ping, b"{not json").unwrap();
    let (kind, body) = decode_frame(&mut frame).unwrap();
    let parsed = serde_json::from_slice::<Value>(&body).ok().map(ParsedPayload::Json);
    assert_eq!(IpcMessage::try_decode(kind, parsed), Err(DecodeError::InvalidPayload));
}

#[test]
fn refused_header_is_taken_off_the_buffer() {
    let mut buf = buffer(&[7, 0, 0, 0, 1, 0, 0, 0, b'x', b'y']);
    assert_eq!(decode_frame(&mut buf).err(), Some(DecodeError::InvalidMessageType(7)));
    assert_eq!(&buf[..], b"xy");
    let mut buf = buffer(&[1, 2, 3]);
    assert_eq!(decode_frame(&mut buf).err(), Some(DecodeError::Truncated));
    assert_eq!(&buf[..], &[1u8, 2, 3][..]);
}
