use ephemeral_chat::error::{ChatError, IoError, IoErrorKind};
use ephemeral_chat::io::{io_result, Outcome};
use ephemeral_chat::json;
use ephemeral_chat::payload::{read_kind, write_message, Fields};
use ephemeral_chat::wire::{
    checked_frame, decode_message, encode_message, frame_payload, payload_len, read_frame,
    read_header, read_message, received, take_payload, write_frame, FrameRead,
    MessageType, WireMessage, MAX_PAYLOAD_BYTES,
};

/// Frames a text by hand.
fn framed(payload: &str) -> Vec<u8> {
    let mut data = (payload.len() as u32).to_be_bytes().to_vec();
    data.extend_from_slice(payload.as_bytes());
    data
}

fn header_of(frame: &[u8]) -> [u8; 4] {
    [frame[0], frame[1], frame[2], frame[3]]
}

fn decode_fault(payload: &str) -> String {
    decode_message(&framed(payload)).unwrap_err().message()
}

// ---- encode / decode round-trip ----

#[test]
fn roundtrip_chat() {
    let msg = WireMessage::chat("alice", "hello world");
    let encoded = encode_message(&msg).unwrap();
    let decoded = decode_message(&encoded).unwrap();
    assert_eq!(decoded.kind, MessageType::Chat);
    assert_eq!(decoded.name, "alice");
    assert_eq!(decoded.text, "hello world");
}

#[test]
fn roundtrip_system() {
    let msg = WireMessage::system("peer joined");
    let encoded = encode_message(&msg).unwrap();
    let decoded = decode_message(&encoded).unwrap();
    assert_eq!(decoded.kind, MessageType::System);
    assert_eq!(decoded.text, "peer joined");
}

#[test]
fn roundtrip_ping_pong() {
    let ping = WireMessage::ping();
    let pong = WireMessage::pong();
    assert_eq!(decode_message(&encode_message(&ping).unwrap()).unwrap().kind, MessageType::Ping);
    assert_eq!(decode_message(&encode_message(&pong).unwrap()).unwrap().kind, MessageType::Pong);
}

#[test]
fn roundtrip_unicode() {
    let msg = WireMessage::chat("🌍", "你好世界 🎉");
    let encoded = encode_message(&msg).unwrap();
    let decoded = decode_message(&encoded).unwrap();
    assert_eq!(decoded.name, "🌍");
    assert_eq!(decoded.text, "你好世界 🎉");
}

#[test]
fn header_is_big_endian() {
    let msg = WireMessage::chat("a", "x");
    let encoded = encode_message(&msg).unwrap();
    let payload = br#"{"type":"chat","name":"a","text":"x"}"#;
    let expected_len = (payload.len() as u32).to_be_bytes();
    assert_eq!(&encoded[..4], &expected_len);
    assert_eq!(&encoded[..4], &[0, 0, 0, 37]);
    assert_eq!(&encoded[4..], payload);
}

#[test]
fn payload_is_a_json_object() {
    let written = write_message(&WireMessage::chat("a\"b\\", "é\n\t\r\u{8}\u{c}\u{0}\u{1f}\u{7f}/"));
    assert_eq!(
        written,
        "{\"type\":\"chat\",\"name\":\"a\\\"b\\\\\",\"text\":\"é\\n\\t\\r\\b\\f\\u0000\\u001f\u{7f}/\"}"
    );
    let value: serde_json::Value = serde_json::from_str(&written).unwrap();
    assert_eq!(value.as_object().unwrap().len(), 3);
    assert_eq!(
        write_message(&WireMessage::system("s")),
        "{\"type\":\"system\",\"name\":\"\",\"text\":\"s\"}"
    );
    assert_eq!(write_message(&WireMessage::ping()), "{\"type\":\"ping\",\"name\":\"\",\"text\":\"\"}");
}

#[test]
fn every_message_comes_back() {
    let texts = ["", "x", "\u{0}\u{7f}", "\"\\/\u{8}", "é🎉", "{\"type\":\"ping\"}", "\r\n "];
    for name in texts {
        for text in texts {
            for kind in [
                MessageType::Chat,
                MessageType::System,
                MessageType::Ping,
                MessageType::Pong,
            ] {
                let m = WireMessage { kind, name: name.to_string(), text: text.to_string() };
                let mut data = encode_message(&m).unwrap();
                let frame = data.clone();
                data.extend_from_slice(b"what follows");
                for bytes in [&data, &frame] {
                    let back = decode_message(bytes).unwrap();
                    assert_eq!(back.kind, kind);
                    assert_eq!(back.name, name);
                    assert_eq!(back.text, text);
                }
                match received(header_of(&frame), Ok(frame[4..].to_vec())) {
                    FrameRead::Message(back) => assert_eq!(back.text, text),
                    _ => panic!("expected a message"),
                }
            }
        }
    }
}

#[test]
fn frames_follow_each_other_on_a_stream() {
    let mut stream = frame_payload(b"first").unwrap();
    stream.extend_from_slice(&frame_payload(b"second!").unwrap());
    assert_eq!(take_payload(&stream).unwrap(), b"first");
    assert_eq!(take_payload(&stream[9..]).unwrap(), b"second!");
}

#[test]
fn header_of_a_long_payload() {
    let frame = frame_payload(&vec![b'x'; 16384]).unwrap();
    assert_eq!(&frame[..4], &[0, 0, 0x40, 0]);
    assert_eq!(frame.len(), 16388);
    assert_eq!(take_payload(&frame).unwrap().len(), 16384);
    assert!(matches!(
        frame_payload(&vec![b'x'; 16385]),
        Err(ChatError::OversizedMessage { size: 16385, limit: 16384 })
    ));
}

// ---- error cases ----

#[test]
fn oversized_encode_rejected() {
    let big = "x".repeat(MAX_PAYLOAD_BYTES + 1);
    let msg = WireMessage::chat("a", &big);
    let err = encode_message(&msg).unwrap_err();
    assert!(matches!(err, ChatError::OversizedMessage { .. }));
}

#[test]
fn oversized_decode_rejected() {
    let big_len = (MAX_PAYLOAD_BYTES as u32 + 1).to_be_bytes();
    let err = decode_message(&big_len).unwrap_err();
    assert!(matches!(err, ChatError::OversizedMessage { .. }));
    assert_eq!(err.message(), "message too large: 16385 bytes (limit 16384)");
}

#[test]
fn short_data_rejected() {
    let err = decode_message(&[1, 2]).unwrap_err();
    assert!(matches!(err, ChatError::Wire(_)));
    assert_eq!(err.message(), "wire protocol error: payload too short for header");
}

#[test]
fn malformed_json_rejected() {
    let payload = b"not json";
    let len = (payload.len() as u32).to_be_bytes();
    let mut data = len.to_vec();
    data.extend_from_slice(payload);
    let err = decode_message(&data).unwrap_err();
    assert!(matches!(err, ChatError::Wire(_)));
    assert!(err.message().starts_with("wire protocol error: json decode failed: "));
}

#[test]
fn truncated_payload_rejected() {
    let payload = encode_message(&WireMessage::chat("a", "hello")).unwrap()[4..].to_vec();
    let len = (payload.len() as u32).to_be_bytes();
    let mut data = len.to_vec();
    data.extend_from_slice(&payload[..5]); // truncated
    let err = decode_message(&data).unwrap_err();
    assert!(matches!(err, ChatError::Wire(_)));
    assert_eq!(err.message(), "wire protocol error: truncated payload");
}

#[test]
fn zero_length_rejected() {
    let len = 0u32.to_be_bytes();
    let err = decode_message(&len).unwrap_err();
    assert!(matches!(err, ChatError::Wire(_)));
    assert_eq!(err.message(), "wire protocol error: zero-length payload");
}

#[test]
fn every_prefix_of_a_frame_is_refused() {
    let frame = encode_message(&WireMessage::chat("a", "hello")).unwrap();
    for n in 0..frame.len() {
        assert!(matches!(decode_message(&frame[..n]), Err(ChatError::Wire(_))));
    }
    assert!(decode_message(&frame).is_ok());
}

// ---- reading in two halves ----

#[test]
fn read_frame_complete() {
    let msg = WireMessage::chat("bob", "async test");
    let encoded = encode_message(&msg).unwrap();
    let header: [u8; 4] = [encoded[0], encoded[1], encoded[2], encoded[3]];
    let len = read_header(Ok(header)).unwrap();
    assert_eq!(len, encoded.len() - 4);
    let frame = read_frame(header, Ok(encoded[4..].to_vec())).unwrap();
    assert_eq!(frame, encoded);
    let decoded = decode_message(&frame).unwrap();
    assert_eq!(decoded.name, "bob");
    assert_eq!(decoded.text, "async test");
}

#[test]
fn read_message_gives_the_message() {
    let frame = encode_message(&WireMessage::chat("bob", "hi")).unwrap();
    let m = read_message(header_of(&frame), Ok(frame[4..].to_vec())).unwrap();
    assert_eq!(m.kind, MessageType::Chat);
    assert_eq!(m.name, "bob");
    assert_eq!(m.text, "hi");
}

#[test]
fn frames_hold_json() {
    let header: [u8; 4] = [0, 0, 0, 8];
    assert_eq!(
        read_frame(header, Ok(b"not json".to_vec())).unwrap_err().message(),
        "wire protocol error: payload is not valid JSON"
    );
    assert!(matches!(
        read_message(header, Ok(b"not json".to_vec())),
        Err(ChatError::Wire(_))
    ));
    assert!(matches!(received(header, Ok(b"not json".to_vec())), FrameRead::Broken(_)));
    assert!(matches!(received(header, Err("eof".to_string())), FrameRead::Broken(_)));
    // Any JSON is a frame, whether or not it is a message.
    let list: [u8; 4] = [0, 0, 0, 3];
    assert_eq!(read_frame(list, Ok(b"[1]".to_vec())).unwrap(), b"\x00\x00\x00\x03[1]");
    assert!(matches!(received(list, Ok(b"[1]".to_vec())), FrameRead::Malformed(_)));
    assert_eq!(checked_frame(list, &b"[1]".to_vec(), true).unwrap(), b"\x00\x00\x00\x03[1]");
    assert_eq!(
        checked_frame(list, &b"[1]".to_vec(), false).unwrap_err().message(),
        "wire protocol error: payload is not valid JSON"
    );
    assert_eq!(
        checked_frame(list, &vec![0xC3, 0x28], false).unwrap_err().message(),
        "wire protocol error: payload is not valid UTF-8"
    );
}

#[test]
fn payloads_that_are_no_message_are_named() {
    let prefix = "wire protocol error: json decode failed: ";
    let check = |payload: &str, fault: &str| {
        assert_eq!(decode_fault(payload), format!("{prefix}{fault}"));
    };
    let variants = "expected one of `chat`, `system`, `ping`, `pong`";
    check("\"chat\"", "invalid type, expected struct WireMessage");
    check("1", "invalid type, expected struct WireMessage");
    check("{}", "missing field `type`");
    check("{\"name\":\"a\"}", "missing field `type`");
    check("{\"type\":1}", "expected value");
    check("{\"type\":\"shout\"}", &format!("unknown variant `shout`, {variants}"));
    check("{\"type\":\"Chat\"}", &format!("unknown variant `Chat`, {variants}"));
    check("{\"type\":{\"shout\":null}}", &format!("unknown variant `shout`, {variants}"));
    check("{\"type\":{\"chat\":1}}", "invalid type, expected unit");
    check("{\"type\":{\"chat\":null,\"chat\":null}}", "expected value");
    check("{\"type\":{}}", "expected value");
    check("{\"type\":\"chat\",\"name\":null}", "invalid type, expected a string");
    check("{\"type\":\"chat\",\"text\":[]}", "invalid type, expected a string");
    check("{\"type\":\"chat\",\"type\":\"chat\"}", "duplicate field `type`");
    check("{\"name\":\"\",\"type\":\"chat\",\"name\":\"\"}", "duplicate field `name`");
    check("{\"text\":\"\",\"text\":\"\",\"type\":\"chat\"}", "duplicate field `text`");
    check("[]", "invalid length 0, expected struct WireMessage with 3 elements");
    check("[1]", "expected value");
    check("[\"chat\",1]", "invalid type, expected a string");
    check("[\"chat\",\"a\",\"b\",\"c\"]", "expected `,` or `]`");
    // What is no JSON at all is described by its reader.
    check("not json", "expected ident at line 1 column 2");
    check("{\"type\"", "EOF while parsing an object at line 1 column 7");
    check("{\"type\":\"chat\"} x", "trailing characters at line 1 column 17");
    check("{\"type\":\"chat\",}", "key must be a string at line 1 column 16");
}

#[test]
fn messages_are_read_in_other_forms() {
    let read = |payload: &str| {
        let m = decode_message(&framed(payload)).unwrap();
        (m.kind, m.name, m.text)
    };
    let chat = |name: &str, text: &str| (MessageType::Chat, name.to_string(), text.to_string());
    // The values of a message in a list.
    assert_eq!(read("[\"chat\",\"a\",\"b\"]"), chat("a", "b"));
    assert_eq!(read(" [ \"chat\" , \"a\" ] "), chat("a", ""));
    assert_eq!(read("[\"chat\"]"), chat("", ""));
    // A type in an object of its own.
    assert_eq!(read("{\"type\":{\"chat\":null}}"), chat("", ""));
    assert_eq!(read("{\"type\" : { \"chat\" : null } , \"text\" : \"x\"}"), chat("", "x"));
    assert_eq!(read("[{\"chat\":null},\"a\"]"), chat("a", ""));
    // Members in any order, with others among them, which may occur twice.
    assert_eq!(
        read("{\"x\":[1,{\"a\":1e999}],\"text\":\"b\",\"x\":null,\"name\":\"a\",\"type\":\"chat\",\"y\":-0.5}"),
        chat("a", "b")
    );
    // Names and texts may be escaped.
    assert_eq!(read("{\"t\\u0079pe\":\"ch\\u0061t\",\"text\":\"\\ud83c\\udf89\\/\"}"), chat("", "🎉/"));
}

#[test]
fn absent_fields_are_empty() {
    let m = decode_message(&framed("{\"type\":\"pong\"}")).unwrap();
    assert_eq!(m.kind, MessageType::Pong);
    assert_eq!(m.name, "");
    assert_eq!(m.text, "");
    // Other members do not matter, nor does white space.
    let m = decode_message(&framed(" { \"x\": {}, \"text\": \"\\u00e9\", \"type\": \"chat\" } ")).unwrap();
    assert_eq!(m.kind, MessageType::Chat);
    assert_eq!(m.text, "é");
}

#[test]
fn members_become_a_message() {
    let mut fields = Fields::new();
    assert_eq!(Fields::new().complete().unwrap_err(), "missing field `type`");
    fields.kind = Some(MessageType::Pong);
    fields.text = Some("hi".to_string());
    let m = fields.complete().unwrap();
    assert_eq!(m.kind, MessageType::Pong);
    assert_eq!(m.name, "");
    assert_eq!(m.text, "hi");
    assert_eq!(read_kind("system"), Ok(MessageType::System));
    assert_eq!(
        read_kind("").unwrap_err(),
        "unknown variant ``, expected one of `chat`, `system`, `ping`, `pong`"
    );
}

#[test]
fn json_is_read_piece_by_piece() {
    let (text, rest) = json::read_text(b" \"a\\nb\": 1").unwrap();
    assert_eq!(text, "a\nb");
    assert_eq!(rest, b": 1");
    assert!(json::read_text(b" 1").is_none());
    assert!(json::read_text(b"\"a").is_none());
    assert!(json::read_text(b"").is_none());
    assert_eq!(json::skip_value(b" {\"a\":[1]} ,").unwrap(), b" ,");
    assert_eq!(json::skip_value(b"12,3").unwrap(), b",3");
    assert!(json::skip_value(b"x").is_none());
    assert_eq!(json::eat(b"\r\n\t :x", json::COLON).unwrap(), b"x");
    assert!(json::eat(b" ;", json::COLON).is_none());
    assert!(json::eat(b"  ", json::COLON).is_none());
    assert_eq!(json::eat_null(b" null}").unwrap(), b"}");
    assert!(json::eat_null(b"nul").is_none());
    assert!(json::at_end(b" \n"));
    assert!(!json::at_end(b" x"));
}

#[test]
fn read_failures_are_named() {
    let text = |r: Result<usize, ChatError>| r.unwrap_err().message();
    assert_eq!(
        text(read_header(Err("eof".to_string()))),
        "wire protocol error: header read failed: eof"
    );
    assert_eq!(text(read_header(Ok([0, 0, 0, 0]))), "wire protocol error: zero-length payload");
    assert_eq!(
        text(payload_len([0xFF, 0xFF, 0xFF, 0xFF])),
        "message too large: 4294967295 bytes (limit 16384)"
    );
    let header: [u8; 4] = [0, 0, 0, 2];
    assert_eq!(
        read_frame(header, Err("reset".to_string())).unwrap_err().message(),
        "wire protocol error: payload read failed: reset"
    );
    assert_eq!(
        read_frame(header, Ok(vec![0xC3, 0x28])).unwrap_err().message(),
        "wire protocol error: payload is not valid UTF-8"
    );
    assert!(read_message(header, Ok(vec![0xC3, 0x28])).is_err());
}

#[test]
fn write_frame_roundtrip() {
    let msg = WireMessage::chat("alice", "hello");
    let encoded = encode_message(&msg).unwrap();

    // The bytes as they come out at the other end.
    let mut stream: Vec<u8> = Vec::new();
    stream.extend_from_slice(&encoded);
    write_frame(Outcome::Done(()), Outcome::Done(())).unwrap();

    let header: [u8; 4] = [stream[0], stream[1], stream[2], stream[3]];
    let len = read_header(Ok(header)).unwrap();
    let frame = read_frame(header, Ok(stream[4..4 + len].to_vec())).unwrap();
    let decoded = decode_message(&frame).unwrap();
    assert_eq!(decoded.name, "alice");
    assert_eq!(decoded.text, "hello");
}

#[test]
fn write_failures_are_named() {
    let failed = || Outcome::Failed("broken pipe".to_string());
    let text = |w, f| write_frame(w, f).unwrap_err().message();
    assert_eq!(text(Outcome::TimedOut, Outcome::Done(())), "connection failed: write timed out");
    assert_eq!(text(failed(), Outcome::Done(())), "connection failed: write failed: broken pipe");
    assert_eq!(text(Outcome::Done(()), Outcome::TimedOut), "connection failed: flush timed out");
    assert_eq!(text(Outcome::Done(()), failed()), "connection failed: flush failed: broken pipe");
    // The first failure decides.
    assert_eq!(text(Outcome::TimedOut, failed()), "connection failed: write timed out");
}

#[test]
fn outcomes_become_results() {
    assert_eq!(io_result(Outcome::Done(7), "late", "bad: ").unwrap(), 7);
    let late: Outcome<u8> = Outcome::TimedOut;
    assert_eq!(io_result(late, "late", "bad: ").unwrap_err().message(), "connection failed: late");
    let bad: Outcome<u8> = Outcome::Failed("x".to_string());
    assert_eq!(io_result(bad, "late", "bad: ").unwrap_err().message(), "connection failed: bad: x");
}

#[test]
fn error_texts() {
    let texts = vec![
        (ChatError::InvalidInvite("x".into()), "invite code invalid: x"),
        (ChatError::InviteExpired { timestamp: 1700000000 }, "invite expired (issued at 1700000000)"),
        (ChatError::NonceReused, "nonce already used"),
        (ChatError::OnionService("x".into()), "onion service error: x"),
        (ChatError::Connection("x".into()), "connection failed: x"),
        (ChatError::ChannelClosed, "broadcast channel closed"),
        (ChatError::Wire("x".into()), "wire protocol error: x"),
        (
            ChatError::OversizedMessage { size: 20000, limit: 16384 },
            "message too large: 20000 bytes (limit 16384)",
        ),
        (
            ChatError::Io(IoError { kind: IoErrorKind::BrokenPipe, message: "x".into() }),
            "I/O error: x",
        ),
        (ChatError::PeerNotFound("x".into()), "peer not found: x"),
        (ChatError::ShuttingDown, "shutdown in progress"),
    ];
    for (e, text) in texts {
        assert_eq!(e.message(), text);
        assert_eq!(e.clone().message(), text);
    }
}

#[test]
fn copies_keep_the_kind() {
    for kind in [IoErrorKind::InvalidInput, IoErrorKind::TimedOut, IoErrorKind::Other] {
        let e = ChatError::Io(IoError { kind, message: "x".into() });
        match e.clone() {
            ChatError::Io(copy) => {
                assert_eq!(copy.kind, kind);
                assert_eq!(copy.message, "x");
            }
            other => panic!("expected an I/O error, got {other:?}"),
        }
    }
}
