use spoticry::network::handler::{classify_frame, hello, malformed, supported_ops, Frame, FrameAction, Session};
use spoticry::network::protocol::{ErrorCode, Response, StreamChunk};
use spoticry::network::stream::{pump_step, PumpAction, PumpEvent, PumpState};

fn send(a: PumpAction) -> (StreamChunk, bool) {
    match a {
        PumpAction::Send { chunk, last } => (chunk, last),
        PumpAction::Stop => panic!("expected a chunk"),
    }
}

#[test]
fn stream_chunk_new_fills_fields() {
    let c = StreamChunk::new("str-1".into(), 7, "QQ==".into(), false);
    assert_eq!(c.msg_type, "STREAM_CHUNK");
    assert_eq!(c.stream_id, "str-1");
    assert_eq!(c.seq, 7);
    assert_eq!(c.payload_b64, "QQ==");
    assert!(!c.eof);
}

#[test]
fn pump_sends_base64_chunks_then_eof() {
    let mut st = PumpState::new("str-ab".into());
    let (c, last) = send(pump_step(&mut st, PumpEvent::Read(b"Man".to_vec())));
    assert_eq!((c.seq, c.payload_b64.as_str(), c.eof, last), (0, "TWFu", false, false));
    let (c, _) = send(pump_step(&mut st, PumpEvent::Read(b"Ma".to_vec())));
    assert_eq!((c.seq, c.payload_b64.as_str()), (1, "TWE="));
    let (c, _) = send(pump_step(&mut st, PumpEvent::Read(b"M".to_vec())));
    assert_eq!((c.seq, c.payload_b64.as_str()), (2, "TQ=="));
    let (c, _) = send(pump_step(&mut st, PumpEvent::Read(vec![0xff, 0x00, 0x10, 0xfe])));
    assert_eq!(c.payload_b64, "/wAQ/g==");
    let (c, last) = send(pump_step(&mut st, PumpEvent::Read(vec![])));
    assert_eq!((c.seq, c.payload_b64.as_str(), c.eof, last), (4, "", true, true));
    assert_eq!(c.stream_id, "str-ab");
}

#[test]
fn pump_stops_on_cancel_and_saturates() {
    let mut st = PumpState::new("s".into());
    assert!(matches!(pump_step(&mut st, PumpEvent::Cancelled), PumpAction::Stop));
    assert_eq!(st.seq, 0);
    st.seq = u64::MAX;
    let (c, _) = send(pump_step(&mut st, PumpEvent::Read(vec![1])));
    assert_eq!(c.seq, u64::MAX);
    assert_eq!(st.seq, u64::MAX);
}

#[test]
fn payload_length_is_four_per_three_bytes() {
    for n in 0..20usize {
        let mut st = PumpState::new("s".into());
        let bytes = vec![7u8; n];
        let (c, _) = send(pump_step(&mut st, PumpEvent::Read(bytes)));
        assert_eq!(c.payload_b64.len(), 4 * ((n + 2) / 3));
    }
}

#[test]
fn hello_checks_the_version() {
    let ack = hello("1.0").unwrap();
    assert_eq!(ack.server_version, "1.0");
    assert!(ack.session_id.starts_with("sess-"));
    assert_eq!(ack.session_id.len(), 13);
    assert_eq!(ack.supported_ops.len(), 15);
    assert_eq!(ack.supported_ops, supported_ops());
    let e = hello("2.0").unwrap_err();
    assert_eq!(e.code, ErrorCode::VersionMismatch);
    assert_eq!(e.message, "Server speaks 1.0, client sent 2.0");
}

#[test]
fn session_allows_one_stream_at_a_time() {
    let mut s = Session::new();
    assert!(s.may_play().is_ok());
    s.started("str-1".into());
    let e = s.may_play().unwrap_err();
    assert_eq!((e.code, e.message.as_str()), (ErrorCode::AlreadyPlaying, "Client already has an active stream"));
    s.stopped("str-2");
    assert!(s.may_play().is_err());
    s.stopped("str-1");
    assert!(s.may_play().is_ok());
    s.started("str-3".into());
    assert_eq!(s.closed(), Some("str-3".to_string()));
    assert_eq!(s.closed(), None);
}

fn refused(a: FrameAction) -> Response {
    match a {
        FrameAction::Refuse(r) => r,
        other => panic!("expected a refusal, got {other:?}"),
    }
}

#[test]
fn frames_are_classified() {
    assert!(matches!(classify_frame(Frame::Text("{}".into())), FrameAction::Request(t) if t == "{}"));
    assert!(matches!(classify_frame(Frame::Binary("{\"a\":1}".as_bytes().to_vec())), FrameAction::Request(t) if t == "{\"a\":1}"));
    assert!(matches!(classify_frame(Frame::Binary("ñ".as_bytes().to_vec())), FrameAction::Request(t) if t == "ñ"));
    let r = refused(classify_frame(Frame::Binary(vec![0xc3, 0x28])));
    assert_eq!(r.id, "");
    assert_eq!(r.resp_type, "ERROR");
    assert_eq!(r.status, "error");
    let e = r.error.unwrap();
    assert_eq!((e.code, e.message.as_str()), (ErrorCode::InvalidRequest, "Binary frames must be UTF-8 JSON"));
    assert!(matches!(classify_frame(Frame::Ping(vec![1, 2])), FrameAction::Pong(p) if p == vec![1, 2]));
    assert!(matches!(classify_frame(Frame::Close), FrameAction::End));
    assert!(matches!(classify_frame(Frame::Other), FrameAction::Skip));
}

#[test]
fn responses() {
    let mut obj = serde_json::Map::new();
    obj.insert("ts".to_string(), serde_json::Value::from(1));
    let ok = Response::ok("r1".into(), "PING", serde_json::Value::Object(obj));
    assert_eq!((ok.id.as_str(), ok.resp_type.as_str(), ok.status), ("r1", "PING", "ok"));
    assert!(ok.error.is_none());
    assert_eq!(ok.data.unwrap()["ts"], 1);
    let err = Response::err("r2".into(), "GET_SONG", ErrorCode::NotFound, "Song x not found".into());
    assert_eq!(err.status, "error");
    assert!(err.data.is_none());
    assert_eq!(err.error.unwrap().code, ErrorCode::NotFound);
    let m = malformed(None, "eof");
    assert_eq!(m.id, "");
    assert_eq!(m.error.unwrap().message, "Malformed JSON or missing type: eof");
    let m = malformed(Some("req-7".into()), "unknown variant `NOPE`");
    assert_eq!((m.id.as_str(), m.resp_type.as_str(), m.status), ("req-7", "ERROR", "error"));
    let e = m.error.unwrap();
    assert_eq!(e.code, ErrorCode::InvalidRequest);
    assert_eq!(e.message, "Malformed JSON or missing type: unknown variant `NOPE`");
}
