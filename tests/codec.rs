use bioma_sse::event::{build_frame, parse_sse_event, SseEvent, SystemMessageType};
use bioma_sse::frame::parse_fields;
use bioma_sse::stream::SseDecoder;

fn msg(text: &str) -> serde_json::Value {
    serde_json::from_str(text).unwrap()
}

#[test]
fn transport_frame_round_trip() {
    let m = msg(r#"{"jsonrpc":"2.0","id":1,"result":"ok"}"#);
    let frame = SseEvent::new_transport(m.clone()).to_sse_event().unwrap();
    assert_eq!(
        String::from_utf8(frame.clone()).unwrap(),
        "event: message\ndata: {\"id\":1,\"jsonrpc\":\"2.0\",\"result\":\"ok\"}\n\n"
    );
    let parsed = parse_sse_event(&frame);
    assert_eq!(parsed.event_type.as_deref(), Some("message"));
    let back: serde_json::Value = serde_json::from_str(parsed.data.as_deref().unwrap()).unwrap();
    assert_eq!(back, m);
    assert_eq!(parsed.parse_json_rpc().unwrap(), Some(m));
}

#[test]
fn custom_event_type_round_trip() {
    let m = msg(r#"{"text":"line one\nline two\r"}"#);
    let frame = SseEvent::_transport_with_event_type(m.clone(), "notice".to_string())
        .to_sse_event()
        .unwrap();
    let parsed = parse_sse_event(&frame);
    assert_eq!(parsed.event_type.as_deref(), Some("notice"));
    assert_eq!(parsed.parse_json_rpc().unwrap(), Some(m));
}

#[test]
fn endpoint_and_shutdown_frames() {
    let e = SseEvent::endpoint("http://127.0.0.1:9100/message/x".to_string());
    assert_eq!(
        e.to_sse_event().unwrap(),
        b"event: endpoint\ndata: http://127.0.0.1:9100/message/x\n\n".to_vec()
    );
    let s = SseEvent::shutdown("bye".to_string());
    assert_eq!(s.to_sse_event().unwrap(), b"event: shutdown\ndata: bye\n\n".to_vec());
}

#[test]
fn duplicate_lines_keep_the_last() {
    let frame = b"event: a\ndata: one\nevent: b\ndata: two\n\n";
    let parsed = parse_sse_event(frame);
    assert_eq!(parsed.event_type.as_deref(), Some("b"));
    assert_eq!(parsed.data.as_deref(), Some("two"));
}

#[test]
fn unknown_lines_are_skipped_and_crlf_is_trimmed() {
    let frame = b"id: 7\r\nevent: message\r\nretry: 10\ndata: {}\r\n\r\n";
    let parsed = parse_sse_event(frame);
    assert_eq!(parsed.event_type.as_deref(), Some("message"));
    assert_eq!(parsed.data.as_deref(), Some("{}"));
}

#[test]
fn empty_frame_has_no_fields() {
    assert_eq!(parse_fields(b"\n\n"), (None, None));
    let parsed = parse_sse_event(b"");
    assert!(parsed.event_type.is_none() && parsed.data.is_none());
    assert_eq!(parsed.parse_json_rpc().unwrap(), None);
}

#[test]
fn field_ranges_point_into_the_frame() {
    let frame = b"event: ping\ndata: 42\n\n";
    assert_eq!(parse_fields(frame), (Some((7, 11)), Some((18, 20))));
}

#[test]
fn malformed_json_data_is_an_error() {
    let parsed = parse_sse_event(b"event: message\ndata: not-json\n\n");
    assert!(parsed.parse_json_rpc().is_err());
}

#[test]
fn system_message_from_frame() {
    let parsed = parse_sse_event(b"event: endpoint\ndata: http://h/message/1\n\n");
    match parsed.parse_system_message().unwrap() {
        Some(SystemMessageType::Endpoint(u)) => assert_eq!(u, "http://h/message/1"),
        other => panic!("unexpected {:?}", other),
    }
    let parsed = parse_sse_event(b"event: shutdown\ndata: done\n\n");
    match parsed.parse_system_message().unwrap() {
        Some(SystemMessageType::Shutdown { reason }) => assert_eq!(reason, "done"),
        other => panic!("unexpected {:?}", other),
    }
    let parsed = parse_sse_event(b"event: message\ndata: {}\n\n");
    assert!(parsed.parse_system_message().unwrap().is_none());
}

fn all_frames(chunks: &[&[u8]]) -> (Vec<Vec<u8>>, SseDecoder) {
    let mut d = SseDecoder::new();
    let mut out = Vec::new();
    for c in chunks {
        out.extend(d.feed(c));
    }
    (out, d)
}

#[test]
fn decoder_gives_the_same_frames_for_any_split() {
    let whole: &[u8] = b"event: endpoint\ndata: http://a/message/b\n\nevent: message\ndata: {\"k\":\"\xc3\xa9\"}\n\nevent: x\n";
    let (reference, _) = all_frames(&[whole]);
    assert_eq!(reference.len(), 2);
    for i in 0..=whole.len() {
        for j in i..=whole.len() {
            let (got, _) = all_frames(&[&whole[..i], &whole[i..j], &whole[j..]]);
            assert_eq!(got, reference, "split at {} and {}", i, j);
        }
    }
    let bytewise: Vec<&[u8]> = whole.chunks(1).collect();
    let (got, _) = all_frames(&bytewise);
    assert_eq!(got, reference);
}

#[test]
fn decoder_keeps_a_partial_frame() {
    let mut d = SseDecoder::new();
    assert!(d.feed(b"event: message\n").is_empty());
    assert!(d.feed(b"data: {}\n").is_empty());
    let frames = d.feed(b"\nevent: shutdown\ndata: x\n\n");
    assert_eq!(frames.len(), 2);
    assert_eq!(frames[0], b"event: message\ndata: {}\n\n".to_vec());
    assert_eq!(frames[1], b"event: shutdown\ndata: x\n\n".to_vec());
}

#[test]
fn frame_from_field_bytes() {
    let f = build_frame(b"message", b"{\"a\":1}");
    assert_eq!(f, b"event: message\ndata: {\"a\":1}\n\n".to_vec());
    assert_eq!(build_frame(b"", b""), b"event: \ndata: \n\n".to_vec());
}
