//! The wire protocol: exact bytes, round trips, chunking, and refusals.

use bytes::{BufMut, BytesMut};
use nix_capsule::client::SHUTDOWN_EXIT;
use nix_capsule::protocol::{
    Body, DecodeError, EncodeError, ErrorMsg, Exit, Frame, FrameCodec, FrameType, Message, Request,
    SignalMsg, VersionMsg, CURRENT_VERSION, MAX_PAYLOAD,
};
use serde_json::Value;

fn text_at(value: &Value, key: &str) -> Result<String, String> {
    match value.get(key).and_then(Value::as_str) {
        Some(text) => Ok(text.to_owned()),
        None => Err(format!("missing text `{key}`")),
    }
}

fn texts_at(value: &Value, key: &str) -> Result<Vec<String>, String> {
    let items = match value.get(key).and_then(Value::as_array) {
        Some(items) => items,
        None => return Err(format!("missing list `{key}`")),
    };
    let mut out = Vec::new();
    for item in items {
        match item.as_str() {
            Some(text) => out.push(text.to_owned()),
            None => return Err(format!("no text in `{key}`")),
        }
    }
    Ok(out)
}

fn byte_at(value: &Value, key: &str) -> Result<Option<u8>, String> {
    match value.get(key) {
        None => Ok(None),
        Some(Value::Null) => Ok(None),
        Some(number) => match number.as_u64() {
            Some(n) if n <= 255 => Ok(Some(n as u8)),
            _ => Err(format!("no byte at `{key}`")),
        },
    }
}

fn read_body(frame: &Frame) -> Result<Body, String> {
    let raw = matches!(
        frame.frame_type,
        FrameType::Stdin
            | FrameType::Stdout
            | FrameType::Stderr
            | FrameType::ServerStopping
            | FrameType::RequestVersion
    );
    if raw {
        return Ok(Body::Raw);
    }
    let value: Value = serde_json::from_slice(&frame.payload).map_err(|err| err.to_string())?;
    match frame.frame_type {
        FrameType::Request => Ok(Body::Request(Request {
            command: text_at(&value, "command")?,
            args: texts_at(&value, "args")?,
            cwd: text_at(&value, "cwd")?,
            env: texts_at(&value, "env")?,
        })),
        FrameType::Exit => Ok(Body::Exit(Exit {
            code: byte_at(&value, "code")?,
            signal: byte_at(&value, "signal")?,
        })),
        FrameType::Error => Ok(Body::Error(ErrorMsg { message: text_at(&value, "message")? })),
        FrameType::Signal => match byte_at(&value, "signal")? {
            Some(signal) => Ok(Body::Signal(SignalMsg { signal })),
            None => Err("missing byte `signal`".to_owned()),
        },
        _ => Ok(Body::Version(VersionMsg { version: text_at(&value, "version")? })),
    }
}

fn from_frame(frame: Frame) -> Result<Message, DecodeError> {
    let body = read_body(&frame);
    Message::from_frame(frame, body)
}

fn encoded(msg: &Message) -> Vec<u8> {
    let mut dst = BytesMut::new();
    FrameCodec.encode(msg.clone().into_frame().unwrap(), &mut dst).unwrap();
    dst.to_vec()
}

fn decode_frame(bytes: &[u8]) -> Result<Option<Frame>, DecodeError> {
    let mut src = BytesMut::from(bytes);
    FrameCodec.decode(&mut src)
}

fn decoded(bytes: &[u8]) -> Message {
    from_frame(decode_frame(bytes).unwrap().expect("a complete frame")).unwrap()
}

fn round_trip(msg: Message) -> Message {
    decoded(&encoded(&msg))
}

fn framed(tag: u8, payload: &[u8]) -> Vec<u8> {
    let mut out = Vec::with_capacity(5 + payload.len());
    out.push(tag);
    out.extend_from_slice(&(payload.len() as u32).to_be_bytes());
    out.extend_from_slice(payload);
    out
}

fn feed_in_chunks(bytes: &[u8], chunk: usize) -> Result<Vec<Message>, DecodeError> {
    let mut codec = FrameCodec;
    let mut src = BytesMut::new();
    let mut out = Vec::new();
    for piece in bytes.chunks(chunk.max(1)) {
        src.extend_from_slice(piece);
        while let Some(frame) = codec.decode(&mut src)? {
            out.push(from_frame(frame).unwrap());
        }
    }
    Ok(out)
}

fn sample_messages() -> Vec<Message> {
    vec![
        Message::Request(Request {
            command: "cargo \"q\" \\ \u{1} é".to_owned(),
            args: vec!["test".to_owned(), "".to_owned(), "--release\n".to_owned()],
            cwd: "/tmp/project".to_owned(),
            env: vec!["FOO=bar".to_owned(), "EMPTY=".to_owned()],
        }),
        Message::Stdin(vec![0, 255, 1, 254]),
        Message::Stdin(Vec::new()),
        Message::Stdout(b"out".to_vec()),
        Message::Stderr(vec![7; 300]),
        Message::Exit(Exit { code: Some(255), signal: None }),
        Message::Exit(Exit { code: None, signal: Some(9) }),
        Message::Exit(Exit { code: None, signal: None }),
        Message::Error(ErrorMsg { message: "boom \u{1f4a5}".to_owned() }),
        Message::ServerStopping,
        Message::Version(VersionMsg { version: "9.9.9".to_owned() }),
        Message::Signal(SignalMsg { signal: 15 }),
        Message::RequestVersion,
        Message::ServerVersion(VersionMsg { version: CURRENT_VERSION.to_owned() }),
    ]
}

// -------------------------------------------------------------------- bytes

#[test]
fn encodes_the_documented_wire_bytes() {
    let request = Message::Request(Request {
        command: "sh".to_owned(),
        args: vec![],
        cwd: "/".to_owned(),
        env: vec![],
    });
    assert_eq!(
        encoded(&request),
        framed(0x01, br#"{"command":"sh","args":[],"cwd":"/","env":[]}"#)
    );
    assert_eq!(encoded(&Message::Stdin(vec![0xde, 0xad])), b"\x02\x00\x00\x00\x02\xde\xad".to_vec());
    assert_eq!(encoded(&Message::Stdout(b"out".to_vec())), b"\x03\x00\x00\x00\x03out".to_vec());
    assert_eq!(encoded(&Message::Stderr(Vec::new())), b"\x04\x00\x00\x00\x00".to_vec());
    assert_eq!(
        encoded(&Message::Error(ErrorMsg { message: "boom".to_owned() })),
        b"\x06\x00\x00\x00\x12{\"message\":\"boom\"}".to_vec()
    );
    assert_eq!(encoded(&Message::ServerStopping), b"\x07\x00\x00\x00\x00".to_vec());
    assert_eq!(
        encoded(&Message::Version(VersionMsg { version: CURRENT_VERSION.to_owned() })),
        framed(0x08, format!("{{\"version\":\"{CURRENT_VERSION}\"}}").as_bytes())
    );
    assert_eq!(
        encoded(&Message::Signal(SignalMsg { signal: 15 })),
        b"\x09\x00\x00\x00\x0d{\"signal\":15}".to_vec()
    );
    assert_eq!(encoded(&Message::RequestVersion), b"\x0a\x00\x00\x00\x00".to_vec());
    assert_eq!(
        encoded(&Message::ServerVersion(VersionMsg { version: "1".to_owned() })),
        framed(0x0b, br#"{"version":"1"}"#)
    );
}

#[test]
fn request_payload_escapes_like_the_json_library() {
    let request = Message::Request(Request {
        command: "a\"b".to_owned(),
        args: vec!["x\ny".to_owned(), "é".to_owned()],
        cwd: "/".to_owned(),
        env: vec!["K=\\".to_owned()],
    });
    assert_eq!(
        encoded(&request),
        framed(
            0x01,
            "{\"command\":\"a\\\"b\",\"args\":[\"x\\ny\",\"é\"],\"cwd\":\"/\",\"env\":[\"K=\\\\\"]}"
                .as_bytes()
        )
    );
}

#[test]
fn encode_exit_emits_only_set_field() {
    let exit = |code, signal| encoded(&Message::Exit(Exit { code, signal }));
    assert_eq!(exit(Some(7), None), framed(0x05, br#"{"code":7}"#));
    assert_eq!(exit(None, Some(9)), framed(0x05, br#"{"signal":9}"#));
    assert_eq!(exit(None, None), framed(0x05, b"{}"));
}

#[test]
fn encode_exit_with_both_fields_set_is_rejected() {
    let frame = Message::Exit(Exit { code: Some(1), signal: Some(9) }).into_frame();
    assert!(
        matches!(frame, Err(EncodeError::InvalidExit)),
        "both set must not encode, got {frame:?}"
    );
    assert_eq!(
        EncodeError::InvalidExit.message(),
        "both `code` and `signal` set in `Exit` frame"
    );
}

#[test]
fn decode_exit_with_both_fields_set_is_rejected() {
    let wire = framed(0x05, br#"{"code":1,"signal":9}"#);
    let mut codec = FrameCodec;
    let mut src = BytesMut::from(wire.as_slice());
    let frame = codec.decode(&mut src).unwrap().expect("framing succeeds");
    assert!(
        matches!(from_frame(frame), Err(DecodeError::InvalidExit)),
        "both set must not decode"
    );
}

#[test]
fn decode_server_stopping_with_non_empty_payload_is_rejected() {
    let wire = framed(0x07, b"junk");
    let mut codec = FrameCodec;
    let mut src = BytesMut::from(wire.as_slice());
    let frame = codec.decode(&mut src).unwrap().expect("framing succeeds");
    match from_frame(frame) {
        Err(DecodeError::NonEmptyServerStopping(4)) => {}
        other => panic!("expected NonEmptyServerStopping(4), got {other:?}"),
    }
}

#[test]
fn decode_request_version_with_non_empty_payload_is_rejected() {
    match from_frame(decode_frame(&framed(0x0a, b"x")).unwrap().unwrap()) {
        Err(DecodeError::NonEmptyRequestVersion(1)) => {}
        other => panic!("expected NonEmptyRequestVersion(1), got {other:?}"),
    }
}

#[test]
fn unknown_tag_bytes_reject_decoding() {
    for rejected in [0x00u8, 0x0c, 0x7f, 0xff] {
        match decode_frame(&framed(rejected, b"x")) {
            Err(DecodeError::UnknownFrameType(tag)) => assert_eq!(tag, rejected),
            other => panic!("tag {rejected:#x}: expected UnknownFrameType, got {other:?}"),
        }
    }
}

#[test]
fn malformed_struct_payloads_fail_decoding_without_panicking() {
    for tag in [
        FrameType::Request,
        FrameType::Exit,
        FrameType::Error,
        FrameType::Version,
        FrameType::Signal,
        FrameType::ServerVersion,
    ] {
        let frame = decode_frame(&framed(tag.to_byte(), b"{not json"))
            .unwrap()
            .expect("framing tolerates a junk payload");
        assert!(matches!(from_frame(frame), Err(DecodeError::Json { .. })));
    }
}

#[test]
fn encoder_rejects_oversized_payloads() {
    let mut codec = FrameCodec;
    let mut dst = BytesMut::new();
    let frame = Message::Stdin(vec![0; MAX_PAYLOAD + 1]).into_frame().unwrap();
    match codec.encode(frame, &mut dst) {
        Err(EncodeError::PayloadTooLarge(n)) => assert_eq!(n, MAX_PAYLOAD + 1),
        other => panic!("expected PayloadTooLarge, got {other:?}"),
    }
    assert_eq!(dst.len(), 0, "a refused frame leaves the buffer alone");
}

#[test]
fn declared_length_of_exactly_16_mib_is_accepted() {
    let payload = vec![0xa5; MAX_PAYLOAD];
    let wire = framed(0x03, &payload);
    assert!(
        decoded(&wire) == Message::Stdout(payload),
        "a full 16 MiB payload must decode"
    );
}

#[test]
fn declared_length_above_16_mib_is_rejected_at_header_time() {
    let mut codec = FrameCodec;
    let mut src = BytesMut::new();
    src.put_u8(0x03);
    src.put_u32(MAX_PAYLOAD as u32 + 1);

    match codec.decode(&mut src) {
        Err(DecodeError::PayloadTooLarge(n)) => assert_eq!(n, MAX_PAYLOAD + 1),
        other => panic!("expected PayloadTooLarge, got {other:?}"),
    }
}

// -------------------------------------------------------------- round trips

#[test]
fn encoded_message_decodes_unchanged() {
    for msg in sample_messages() {
        assert_eq!(round_trip(msg.clone()), msg);
    }
}

#[test]
fn sequence_of_frames_survives_any_chunking() {
    let msgs = sample_messages();
    let mut wire: Vec<u8> = Vec::new();
    for msg in &msgs {
        wire.extend_from_slice(&encoded(msg));
    }
    for chunk in [1usize, 2, 3, 4, 5, 6, 7, 11, 64, 200, 100_000] {
        assert_eq!(
            feed_in_chunks(&wire, chunk).unwrap(),
            msgs,
            "chunk size {chunk} broke framing boundaries"
        );
    }
}

#[test]
fn lengths_above_cap_fail_before_buffering_regardless_of_tag_or_body() {
    for tag in 0x01u8..=0x0b {
        for declared in [MAX_PAYLOAD as u32 + 1, 0x0200_0000, u32::MAX] {
            for buffered in [0usize, 1, 48] {
                let mut src = BytesMut::new();
                src.put_u8(tag);
                src.put_u32(declared);
                src.extend_from_slice(&vec![0xa5; buffered]);
                match FrameCodec.decode(&mut src) {
                    Err(DecodeError::PayloadTooLarge(n)) => assert_eq!(n, declared as usize),
                    other => panic!("expected PayloadTooLarge, got {other:?}"),
                }
            }
        }
    }
}

#[test]
fn strict_prefix_of_frame_yields_no_frame() {
    for msg in sample_messages() {
        let wire = encoded(&msg);
        let mut src = BytesMut::new();
        for piece in &wire[..wire.len() - 1] {
            src.put_u8(*piece);
            assert!(
                FrameCodec.decode(&mut src).unwrap().is_none(),
                "a {}-byte prefix produced a frame",
                src.len()
            );
        }
    }
}

#[test]
fn decoding_leaves_the_bytes_after_the_frame() {
    let mut src = BytesMut::from(b"\x03\x00\x00\x00\x01A\x04\x00".as_slice());
    let frame = FrameCodec.decode(&mut src).unwrap().unwrap();
    assert_eq!(frame.frame_type, FrameType::Stdout);
    assert_eq!(frame.payload, b"A".to_vec());
    assert_eq!(&src[..], b"\x04\x00".as_slice());
}

#[test]
fn frame_type_to_byte_is_discriminant() {
    assert_eq!(FrameType::Request.to_byte(), 0x01);
    assert_eq!(FrameType::Stdin.to_byte(), 0x02);
    assert_eq!(FrameType::Stdout.to_byte(), 0x03);
    assert_eq!(FrameType::Stderr.to_byte(), 0x04);
    assert_eq!(FrameType::Exit.to_byte(), 0x05);
    assert_eq!(FrameType::Error.to_byte(), 0x06);
    assert_eq!(FrameType::ServerStopping.to_byte(), 0x07);
    assert_eq!(FrameType::Version.to_byte(), 0x08);
}

#[test]
fn every_tag_reads_back_as_its_type() {
    for tag in 0x01u8..=0x0b {
        assert_eq!(FrameType::from_u8(tag).unwrap().to_byte(), tag);
    }
    assert_eq!(FrameType::from_u8(0x00), None);
    assert_eq!(FrameType::from_u8(0x0c), None);
    assert_eq!(FrameType::from_u8(0xFF), None);
}

#[test]
fn current_version_matches_cargo_pkg_version() {
    assert_eq!(CURRENT_VERSION, "0.1.0");
}

#[test]
fn sigterm_exit_is_143() {
    assert_eq!(SHUTDOWN_EXIT, 143);
}

#[test]
fn codec_decodes_empty_payload_binary_variant() {
    let frame = round_trip(Message::Stdin(Vec::new()));
    assert!(matches!(frame, Message::Stdin(b) if b.is_empty()));
}

#[test]
fn codec_decodes_one_byte_payload() {
    let frame = round_trip(Message::Stdout(vec![42]));
    assert!(matches!(frame, Message::Stdout(b) if b == vec![42]));
}

#[test]
fn codec_decodes_8kb_payload() {
    let payload = (0..8192).map(|i| (i % 256) as u8).collect::<Vec<_>>();
    let frame = round_trip(Message::Stderr(payload.clone()));
    assert!(matches!(frame, Message::Stderr(b) if b == payload));
}

#[test]
fn codec_decodes_large_payload() {
    let payload = vec![7u8; 100_000];
    let frame = round_trip(Message::Stdin(payload.clone()));
    assert!(matches!(frame, Message::Stdin(b) if b == payload));
}

#[test]
fn codec_returns_none_when_header_missing() {
    assert!(matches!(decode_frame(&[]), Ok(None)));
    assert!(matches!(decode_frame(&[0x01, 0x00, 0x00, 0x00]), Ok(None)));
}

#[test]
fn codec_returns_none_when_payload_incomplete() {
    let bytes = [0x02, 0x00, 0x00, 0x00, 0x05, b'h', b'e', b'l'];
    assert!(matches!(decode_frame(&bytes), Ok(None)));
}

#[test]
fn message_from_frame_rejects_invalid_json_on_request() {
    let frame = Frame { frame_type: FrameType::Request, payload: b"not json".to_vec() };
    let result = from_frame(frame);
    assert!(matches!(result, Err(DecodeError::Json { .. })));
}

#[test]
fn request_round_trips() {
    let original = Message::Request(Request {
        command: "cargo".into(),
        args: vec!["test".into(), "--release".into()],
        cwd: "/tmp/project".into(),
        env: vec!["FOO=bar".into()],
    });
    match round_trip(original) {
        Message::Request(r) => {
            assert_eq!(r.command, "cargo");
            assert_eq!(r.args, vec!["test", "--release"]);
            assert_eq!(r.cwd, "/tmp/project");
            assert_eq!(r.env, vec!["FOO=bar"]);
        }
        _ => panic!("expected Request, got something else"),
    }
}

#[test]
fn exit_round_trips() {
    let rt = round_trip(Message::Exit(Exit { code: Some(42), signal: None }));
    assert!(matches!(rt, Message::Exit(e) if e.code == Some(42) && e.signal.is_none()));
}

#[test]
fn message_frame_type_matches_variant() {
    let request = Request {
        command: String::new(),
        args: Vec::new(),
        cwd: String::new(),
        env: Vec::new(),
    };
    assert_eq!(Message::Request(request).frame_type(), FrameType::Request);
    assert_eq!(Message::Stdin(vec![]).frame_type(), FrameType::Stdin);
    assert_eq!(Message::Stdout(vec![]).frame_type(), FrameType::Stdout);
    assert_eq!(Message::Stderr(vec![]).frame_type(), FrameType::Stderr);
    let exit = Exit { code: Some(0), signal: None };
    assert_eq!(Message::Exit(exit).frame_type(), FrameType::Exit);
    let error = ErrorMsg { message: String::new() };
    assert_eq!(Message::Error(error).frame_type(), FrameType::Error);
    assert_eq!(Message::ServerStopping.frame_type(), FrameType::ServerStopping);
    let version = VersionMsg { version: String::new() };
    assert_eq!(Message::Version(version).frame_type(), FrameType::Version);
}

#[test]
fn version_round_trips() {
    let original = Message::Version(VersionMsg { version: "9.9.9".to_owned() });
    let rt = round_trip(original);
    assert!(matches!(rt, Message::Version(v) if v.version == "9.9.9"));
}

#[test]
fn stdin_round_trips_binary_garbage() {
    let payload = vec![0x00, 0xFF, 0x01, 0xFE];
    let rt = round_trip(Message::Stdin(payload.clone()));
    assert!(matches!(rt, Message::Stdin(b) if b == payload));
}

#[test]
fn frame_types_follow_the_variant() {
    for (msg, tag) in sample_messages().iter().zip([
        0x01u8, 0x02, 0x02, 0x03, 0x04, 0x05, 0x05, 0x05, 0x06, 0x07, 0x08, 0x09, 0x0a, 0x0b,
    ]) {
        assert_eq!(msg.frame_type().to_byte(), tag);
    }
}

#[test]
fn wire_errors_say_what_is_wrong() {
    assert_eq!(DecodeError::UnknownFrameType(0x0c).message(), "unknown frame tag: `0xc`");
    assert_eq!(
        EncodeError::PayloadTooLarge(16_777_217).message(),
        "frame payload above the 16 MiB cap: 16777217 bytes"
    );
    assert_eq!(EncodeError::Write { source: "broken pipe".to_owned() }.message(), "broken pipe");
    for (err, part) in [
        (DecodeError::PayloadTooLarge(16_777_217), "16777217"),
        (DecodeError::Json { source: "bad".to_owned() }, "bad"),
        (DecodeError::NonEmptyServerStopping(4), "4"),
        (DecodeError::NonEmptyRequestVersion(5), "5"),
        (DecodeError::InvalidExit, "`code`"),
        (DecodeError::Read { source: "gone".to_owned() }, "gone"),
    ] {
        assert!(err.message().contains(part), "message={}", err.message());
    }
}
