use bioma_sse::client::{check_status, ClientState, ReaderStep, RetryPolicy};
use bioma_sse::client_id::ClientId;
use bioma_sse::event::{parse_sse_event, SseError, SseEvent, SseMetadata, SystemMessageType};
use bioma_sse::server::{
    endpoint_url, inbound_message, opening_frame, route, shutdown_event, ClientRegistry, HttpMethod, Route,
};

const ID_TEXT: &str = "67e55044-10b1-426f-9247-bb680e5fe0c8";

fn id() -> ClientId {
    ClientId::parse(ID_TEXT).unwrap()
}

#[test]
fn client_id_text_round_trip() {
    assert_eq!(id().to_text(), ID_TEXT);
    assert_eq!(id().0, 0x67e55044_10b1_426f_9247_bb680e5fe0c8);
    assert!(ClientId::parse("not-a-uuid").is_none());
}

#[test]
fn endpoint_frame_comes_first_with_the_client_url() {
    let url = endpoint_url("127.0.0.1:9100", id());
    assert_eq!(url, format!("http://127.0.0.1:9100/message/{}", ID_TEXT));
    let frame = opening_frame("127.0.0.1:9100", id());
    let parsed = parse_sse_event(&frame);
    assert_eq!(parsed.event_type.as_deref(), Some("endpoint"));
    let data = parsed.data.unwrap();
    let tail = data.strip_prefix("http://127.0.0.1:9100/message/").unwrap();
    assert_eq!(ClientId::parse(tail), Some(id()));
}

#[test]
fn basic_echo_reaches_the_client_sink() {
    let mut state = ClientState::new();
    let opening = opening_frame("127.0.0.1:9100", id());
    assert!(matches!(state.handle_frame(&opening), ReaderStep::Continue));
    assert_eq!(
        state.message_url_for_send().unwrap(),
        format!("http://127.0.0.1:9100/message/{}", ID_TEXT)
    );
    let m: serde_json::Value = serde_json::from_str(r#"{"jsonrpc":"2.0","id":1,"result":"ok"}"#).unwrap();
    let frame = SseEvent::new_transport(m.clone()).to_sse_event().unwrap();
    match state.handle_frame(&frame) {
        ReaderStep::Deliver(got) => assert_eq!(got, m),
        other => panic!("unexpected {:?}", other),
    }
}

#[test]
fn send_before_endpoint_is_refused() {
    let state = ClientState::new();
    assert_eq!(state.message_url_for_send(), Err(SseError::EndpointNotAdvertised));
}

#[test]
fn later_endpoint_replaces_earlier() {
    let mut state = ClientState::new();
    state.handle_frame(b"event: endpoint\ndata: http://a/message/1\n\n");
    state.handle_frame(b"event: endpoint\ndata: http://b/message/2\n\n");
    assert_eq!(state.message_url_for_send().unwrap(), "http://b/message/2");
}

#[test]
fn reader_steps_for_other_frames() {
    let mut state = ClientState::new();
    assert!(matches!(state.handle_frame(b"event: shutdown\ndata: Server is shutting down\n\n"), ReaderStep::Finish));
    assert!(matches!(state.handle_frame(b"event: shutdown\n\n"), ReaderStep::Finish));
    assert!(matches!(state.handle_frame(b"event: message\ndata: not-json\n\n"), ReaderStep::Continue));
    assert!(matches!(state.handle_frame(b"event: other\ndata: {}\n\n"), ReaderStep::Continue));
    assert!(matches!(state.handle_frame(b"event: endpoint\n\n"), ReaderStep::Continue));
    assert!(state.message_url_for_send().is_err());
}

#[test]
fn post_routes() {
    let path = format!("/message/{}", ID_TEXT);
    assert_eq!(route(HttpMethod::Post, &path), Route::Message(id()));
    assert_eq!(route(HttpMethod::Post, "/message/not-a-uuid"), Route::BadRequest);
    assert_eq!(route(HttpMethod::Post, "/elsewhere"), Route::NotFound);
    assert_eq!(route(HttpMethod::Post, "/message/"), Route::BadRequest);
    assert_eq!(route(HttpMethod::Get, "/"), Route::Stream);
    assert_eq!(route(HttpMethod::Get, "/x"), Route::NotFound);
    assert_eq!(route(HttpMethod::Other, "/"), Route::NotFound);
}

#[test]
fn posted_body_becomes_a_message() {
    let body = br#"{"jsonrpc":"2.0","id":2,"method":"ping"}"#;
    let got = inbound_message(id(), body).unwrap();
    assert_eq!(got.client_id, id());
    assert_eq!(got.message, serde_json::from_slice::<serde_json::Value>(body).unwrap());
}

#[test]
fn malformed_post_body_gives_nothing() {
    assert!(inbound_message(id(), b"not-json").is_none());
}

#[test]
fn registry_targets_one_client() {
    let a = ClientId(1);
    let b = ClientId(2);
    let mut reg: ClientRegistry<&'static str> = ClientRegistry::new();
    assert!(reg.register(a, "stream a"));
    assert!(reg.register(b, "stream b"));
    assert!(!reg.register(a, "again"));
    assert_eq!(reg.len(), 2);
    assert_eq!(*reg.sender_for(a).unwrap(), "stream a");
    assert_eq!(*reg.sender_for(b).unwrap(), "stream b");
    assert_eq!(reg.sender_for(ClientId(3)), Err(SseError::UnknownClient(ClientId(3))));
    assert_eq!(reg.remove(b), Some("stream b"));
    assert_eq!(reg.remove(b), None);
}

#[test]
fn close_drains_every_client_once() {
    let mut reg: ClientRegistry<u32> = ClientRegistry::new();
    reg.register(ClientId(10), 1);
    reg.register(ClientId(20), 2);
    let drained = reg.drain();
    assert_eq!(drained.len(), 2);
    assert_eq!(drained.get(&10), Some(&1));
    assert_eq!(drained.get(&20), Some(&2));
    assert_eq!(reg.len(), 0);
    let frame = shutdown_event().to_sse_event().unwrap();
    assert_eq!(frame, b"event: shutdown\ndata: Server is shutting down\n\n".to_vec());
    match shutdown_event() {
        SseEvent::System(SystemMessageType::Shutdown { reason }) => assert_eq!(reason, "Server is shutting down"),
        other => panic!("unexpected {:?}", other),
    }
}

#[test]
fn metadata_needs_a_client_id() {
    assert_eq!(SseMetadata::from_client_id_text(ID_TEXT).unwrap().client_id, id());
    assert_eq!(SseMetadata::from_client_id_text("nope").unwrap_err(), SseError::InvalidMetadata);
}

#[test]
fn retry_stops_after_the_limit_with_the_last_error() {
    let mut p = RetryPolicy::new(3);
    let mut attempts = 0;
    while p.begin_attempt() {
        attempts += 1;
        p.record_failure(SseError::Connection(format!("attempt {}", attempts)));
    }
    assert_eq!(attempts, 3);
    assert_eq!(p.final_error(), SseError::Connection("attempt 3".to_string()));
    let mut none = RetryPolicy::new(0);
    assert!(!none.begin_attempt());
    assert_eq!(none.final_error(), SseError::ConnectFailed);
}

#[test]
fn status_codes() {
    assert_eq!(check_status(200), Ok(()));
    assert_eq!(check_status(299), Ok(()));
    assert_eq!(check_status(404), Err(SseError::HttpStatus(404)));
    assert_eq!(check_status(199), Err(SseError::HttpStatus(199)));
}

#[test]
fn metadata_envelope_names_the_target() {
    let ok: serde_json::Value = serde_json::from_str(&format!(r#"{{"client_id":"{}"}}"#, ID_TEXT)).unwrap();
    assert_eq!(SseMetadata::from_value(&ok).unwrap().client_id, id());
    let missing: serde_json::Value = serde_json::from_str(r#"{"other":1}"#).unwrap();
    assert_eq!(SseMetadata::from_value(&missing).unwrap_err(), SseError::InvalidMetadata);
    let not_text: serde_json::Value = serde_json::from_str(r#"{"client_id":5}"#).unwrap();
    assert_eq!(SseMetadata::from_value(&not_text).unwrap_err(), SseError::InvalidMetadata);
    let bad: serde_json::Value = serde_json::from_str(r#"{"client_id":"zz"}"#).unwrap();
    assert_eq!(SseMetadata::from_value(&bad).unwrap_err(), SseError::InvalidMetadata);
}

#[test]
fn advertised_path_routes_back_to_its_client() {
    let url = endpoint_url("127.0.0.1:9100", id());
    let path = url.strip_prefix("http://127.0.0.1:9100").unwrap();
    assert_eq!(route(HttpMethod::Post, path), Route::Message(id()));
    let text = id().to_text();
    assert_eq!(text.len(), 36);
    for (i, c) in text.chars().enumerate() {
        if [8, 13, 18, 23].contains(&i) {
            assert_eq!(c, '-');
        } else {
            assert!(c.is_ascii_hexdigit() && !c.is_ascii_uppercase());
        }
    }
}

#[test]
fn post_body_is_the_compact_json() {
    let m: serde_json::Value = serde_json::from_str(r#"{ "jsonrpc": "2.0", "id": 2, "method": "ping" }"#).unwrap();
    assert_eq!(bioma_sse::client::post_body(&m), br#"{"id":2,"jsonrpc":"2.0","method":"ping"}"#.to_vec());
}
