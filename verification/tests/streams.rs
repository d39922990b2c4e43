//! Stream frames and the length-prefixed frames that carry them.
use clawshake::codec::{payload_length, read_framed, write_framed, FrameRead};
use clawshake::json::Json;
use clawshake::stream::StreamFrame;

fn json(text: &str) -> Json {
    Json::from_text(text).unwrap()
}

#[test]
fn chunk_round_trip() {
    let frame = StreamFrame::Chunk {
        request_id: "req-1".into(),
        data: json(r#"{"content": "hello"}"#),
    };
    let bytes = frame.to_bytes();
    let parsed = StreamFrame::from_bytes(&bytes).unwrap();
    assert_eq!(frame, parsed);
}

#[test]
fn done_round_trip() {
    let frame = StreamFrame::done_with_meta("req-2", json(r#"{"tokens": 42}"#));
    let bytes = frame.to_bytes();
    let parsed = StreamFrame::from_bytes(&bytes).unwrap();
    assert_eq!(frame, parsed);
}

#[test]
fn error_round_trip() {
    let frame = StreamFrame::error("req-3", "something went wrong", Some(-32600));
    let bytes = frame.to_bytes();
    let parsed = StreamFrame::from_bytes(&bytes).unwrap();
    assert_eq!(frame, parsed);
}

#[test]
fn done_without_meta_omits_field() {
    let frame = StreamFrame::done("req-4");
    let json_str = frame.to_json().to_text();
    assert!(!json_str.contains("meta"));
}

#[test]
fn request_id_accessor() {
    let chunk = StreamFrame::request("r1", json("{}"));
    assert_eq!(chunk.request_id(), "r1");

    let done = StreamFrame::done("r2");
    assert_eq!(done.request_id(), "r2");

    let error = StreamFrame::error("r3", "oops", None);
    assert_eq!(error.request_id(), "r3");
}

#[test]
fn serde_tag_format() {
    let frame = StreamFrame::request("r1", json(r#"{"key": "val"}"#));
    let v = frame.to_json();
    assert_eq!(v.str_at("type"), Some("chunk"));
    assert_eq!(v.str_at("request_id"), Some("r1"));

    let done = StreamFrame::done("r2");
    let v = done.to_json();
    assert_eq!(v.str_at("type"), Some("done"));

    let err = StreamFrame::error("r3", "fail", Some(500));
    let v = err.to_json();
    assert_eq!(v.str_at("type"), Some("error"));
    assert_eq!(v.u64_at("code"), Some(500));
}

#[test]
fn other_values_are_no_stream_frames() {
    assert!(StreamFrame::from_bytes(b"{}").is_none());
    assert!(StreamFrame::from_bytes(br#"{"type":"chunk","request_id":"r"}"#).is_none());
    assert!(StreamFrame::from_bytes(br#"{"type":"whole","request_id":"r"}"#).is_none());
    assert!(StreamFrame::from_bytes(br#"{"type":"error","request_id":"r","message":"m","code":2147483648}"#).is_none());
}

#[test]
fn frames_carry_their_length() {
    assert_eq!(write_framed(b"abc"), b"\0\0\0\x03abc");
    assert_eq!(write_framed(&[7; 258])[..4], [0, 0, 1, 2]);
    match read_framed(b"\0\0\0\x03abcde") {
        FrameRead::Whole { payload, used } => {
            assert_eq!(payload, b"abc");
            assert_eq!(used, 7);
        }
        _ => panic!("the frame is whole"),
    }
    assert!(matches!(read_framed(b"\0\0\0"), FrameRead::More));
    assert!(matches!(read_framed(b"\0\0\0\x03ab"), FrameRead::More));
}

#[test]
fn long_payloads_are_refused() {
    let most: u32 = 16 * 1024 * 1024;
    assert_eq!(payload_length(&most.to_be_bytes()), Ok(most));
    assert_eq!(
        payload_length(&(most + 1).to_be_bytes()),
        Err("payload too large: 16777217 bytes".to_string())
    );
    assert!(matches!(read_framed(&u32::MAX.to_be_bytes()), FrameRead::TooLarge(_)));
}

#[test]
fn frames_may_be_written_by_position() {
    let done = StreamFrame::from_bytes(br#"["done","r"]"#).unwrap();
    assert_eq!(done.to_json().to_text(), r#"{"request_id":"r","type":"done"}"#);
    let error = StreamFrame::from_bytes(br#"["error","r","m",-3]"#).unwrap();
    assert_eq!(error.to_json().to_text(), r#"{"code":-3,"message":"m","request_id":"r","type":"error"}"#);
    assert!(StreamFrame::from_bytes(br#"["chunk","r",null]"#).is_some());
    assert!(StreamFrame::from_bytes(br#"["chunk","r"]"#).is_none());
    assert!(StreamFrame::from_bytes(br#"["done","r",1,2]"#).is_none());
    assert!(StreamFrame::from_bytes(b"[]").is_none());
}
