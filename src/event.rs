//! Events carried on the stream, their wire form, and what a frame reads as.
use vstd::prelude::*;
use vstd::utf8::{decode_utf8, encode_utf8, encode_utf8_decode_utf8, valid_utf8};
use crate::client_id::ClientId;
use crate::frame::{copy_range, frame_bytes, line_safe, parse_fields, parse_frame, LF};
use crate::json::{
    json_accepts, json_bytes, json_parse, json_text_of, json_value_of, lossy_text, member_text,
    str_member, text_of, JsonRpcMessage,
};

verus! {

/// What can go wrong in the transport.
#[derive(Clone, Debug, PartialEq, Eq)]
pub enum SseError {
    /// The HTTP client could not reach the server.
    Connection(String),
    /// The server answered with a status outside 2xx.
    HttpStatus(u16),
    /// A message could not be written as JSON.
    Serialization,
    /// Reading or writing the stream failed.
    Io(String),
    /// The receiver of inbound messages has gone away.
    ChannelClosed,
    /// A server-side send came without a valid `client_id`.
    InvalidMetadata,
    /// A server-side send named a client that is not registered.
    UnknownClient(ClientId),
    /// A client-side send came before the server named its message URL.
    EndpointNotAdvertised,
    /// Every connection attempt ended without an error to report.
    ConnectFailed,
    /// The event stream ended without a `shutdown` event.
    StreamEnded,
    /// An HTTP response could not be built.
    Builder(String),
}

/// Control messages from the server.
#[derive(Clone, Debug)]
pub enum SystemMessageType {
    /// The URL to which the client posts its messages.
    Endpoint(String),
    /// The server is going away.
    Shutdown { reason: String },
}

/// One event on the stream.
#[derive(Debug)]
pub enum SseEvent {
    /// A JSON-RPC message, sent under the given SSE event type.
    Transport { message: JsonRpcMessage, event_type: String },
    /// A control message.
    System(SystemMessageType),
}

/// `message`
pub open spec fn message_type() -> Seq<char> {
    seq!['m', 'e', 's', 's', 'a', 'g', 'e']
}

/// `endpoint`
pub open spec fn endpoint_type() -> Seq<char> {
    seq!['e', 'n', 'd', 'p', 'o', 'i', 'n', 't']
}

/// `shutdown`
pub open spec fn shutdown_type() -> Seq<char> {
    seq!['s', 'h', 'u', 't', 'd', 'o', 'w', 'n']
}

/// The reason given to clients when a server closes.
pub open spec fn shutdown_reason() -> Seq<char> {
    "Server is shutting down"@
}

/// The SSE event type under which an event goes out.
pub open spec fn wire_type(e: SseEvent) -> Seq<char> {
    match e {
        SseEvent::Transport { event_type, .. } => event_type@,
        SseEvent::System(SystemMessageType::Endpoint(_)) => endpoint_type(),
        SseEvent::System(SystemMessageType::Shutdown { .. }) => shutdown_type(),
    }
}

/// Whether `v` is the wire form of `e`. A message goes out as the JSON text
/// that serde_json writes for it; a control message carries its text as it is.
pub open spec fn is_frame_of(e: SseEvent, v: Seq<u8>) -> bool {
    match e {
        SseEvent::Transport { event_type, message } => v == frame_bytes(
            encode_utf8(event_type@),
            json_text_of(message),
        ),
        SseEvent::System(SystemMessageType::Endpoint(url)) => v == frame_bytes(
            encode_utf8(endpoint_type()),
            encode_utf8(url@),
        ),
        SseEvent::System(SystemMessageType::Shutdown { reason }) => v == frame_bytes(
            encode_utf8(shutdown_type()),
            encode_utf8(reason@),
        ),
    }
}

pub(crate) fn literal(s: &str) -> (r: String)
    ensures
        r@ == s@,
{
    broadcast use vstd::string::to_string_from_display_ensures_for_str;

    s.to_string()
}

impl SseEvent {
    /// A message under the standard event type `message`.
    pub fn new_transport(message: JsonRpcMessage) -> (r: SseEvent)
        ensures
            r matches SseEvent::Transport { message: m, event_type } && m == message
                && event_type@ == message_type(),
    {
        proof {
            reveal_strlit("message");
            assert("message"@ =~= message_type());
        }
        SseEvent::Transport { message, event_type: literal("message") }
    }

    /// A message under an event type of the caller's choice.
    pub fn _transport_with_event_type(message: JsonRpcMessage, event_type: String) -> (r: SseEvent)
        ensures
            r matches SseEvent::Transport { message: m, event_type: t } && m == message && t
                == event_type,
    {
        SseEvent::Transport { message, event_type }
    }

    /// Tells a client where to post its messages.
    pub fn endpoint(url: String) -> (r: SseEvent)
        ensures
            r matches SseEvent::System(SystemMessageType::Endpoint(u)) && u == url,
    {
        SseEvent::System(SystemMessageType::Endpoint(url))
    }

    /// Tells a client that the server is going away.
    pub fn shutdown(reason: String) -> (r: SseEvent)
        ensures
            r matches SseEvent::System(SystemMessageType::Shutdown { reason: s }) && s == reason,
    {
        SseEvent::System(SystemMessageType::Shutdown { reason })
    }

    /// The wire form: `event: <type>\ndata: <payload>\n\n`. It always succeeds.
    pub fn to_sse_event(&self) -> (r: Result<Vec<u8>, SseError>)
        ensures
            r matches Ok(v) ==> is_frame_of(*self, v@),
            r is Ok,
            self matches SseEvent::Transport { message, .. } ==> line_safe(json_text_of(*message))
                && valid_utf8(json_text_of(*message)),
    {
        match self {
            SseEvent::Transport { message, event_type } => {
                match json_bytes(message) {
                    Ok(d) => {
                        let v = build_frame(event_type.as_str().as_bytes(), d.as_slice());
                        Ok(v)
                    },
                    Err(_) => Err(SseError::Serialization),
                }
            },
            SseEvent::System(SystemMessageType::Endpoint(url)) => {
                let t = literal("endpoint");
                proof {
                    reveal_strlit("endpoint");
                    assert(t@ =~= endpoint_type());
                }
                Ok(build_frame(t.as_str().as_bytes(), url.as_str().as_bytes()))
            },
            SseEvent::System(SystemMessageType::Shutdown { reason }) => {
                let t = literal("shutdown");
                proof {
                    reveal_strlit("shutdown");
                    assert(t@ =~= shutdown_type());
                }
                Ok(build_frame(t.as_str().as_bytes(), reason.as_str().as_bytes()))
            },
        }
    }
}

fn push_all(v: &mut Vec<u8>, s: &[u8])
    ensures
        final(v)@ == old(v)@ + s@,
{
    let mut i: usize = 0;
    while i < s.len()
        invariant
            i <= s@.len(),
            v@ == old(v)@ + s@.subrange(0, i as int),
        decreases s@.len() - i,
    {
        v.push(s[i]);
        i = i + 1;
        assert(v@ =~= old(v)@ + s@.subrange(0, i as int));
    }
    assert(s@.subrange(0, s@.len() as int) =~= s@);
}

/// The frame `event: <t>\ndata: <d>\n\n` from the bytes of its two fields.
pub fn build_frame(t: &[u8], d: &[u8]) -> (r: Vec<u8>)
    ensures
        r@ == frame_bytes(t@, d@),
{
    let mut v = vec![101u8, 118u8, 101u8, 110u8, 116u8, 58u8, 32u8];
    push_all(&mut v, t);
    v.push(LF);
    let dp = vec![100u8, 97u8, 116u8, 97u8, 58u8, 32u8];
    push_all(&mut v, dp.as_slice());
    push_all(&mut v, d);
    v.push(LF);
    v.push(LF);
    assert(v@ =~= frame_bytes(t@, d@));
    v
}

/// Encoding an event and reading the frame back gives its event type and the
/// payload that was written; a control message's text comes back as it was.
pub proof fn lemma_event_frame_round_trip(e: SseEvent, v: Seq<u8>)
    requires
        is_frame_of(e, v),
        line_safe(encode_utf8(wire_type(e))),
        e matches SseEvent::Transport { message, .. } ==> line_safe(json_text_of(message)),
        e matches SseEvent::System(SystemMessageType::Endpoint(u)) ==> line_safe(encode_utf8(u@)),
        e matches SseEvent::System(SystemMessageType::Shutdown { reason }) ==> line_safe(
            encode_utf8(reason@),
        ),
    ensures
        parse_frame(v).0 == Some(encode_utf8(wire_type(e))),
        decode_utf8(encode_utf8(wire_type(e))) == wire_type(e),
        parse_frame(v).1 matches Some(d) && line_safe(d) && v == frame_bytes(
            encode_utf8(wire_type(e)),
            d,
        ),
        e matches SseEvent::Transport { message, .. } ==> parse_frame(v).1 == Some(
            json_text_of(message),
        ),
        e matches SseEvent::System(SystemMessageType::Endpoint(u)) ==> parse_frame(v).1 == Some(
            encode_utf8(u@),
        ) && decode_utf8(encode_utf8(u@)) == u@,
        e matches SseEvent::System(SystemMessageType::Shutdown { reason }) ==> parse_frame(v).1
            == Some(encode_utf8(reason@)) && decode_utf8(encode_utf8(reason@)) == reason@,
{
    encode_utf8_decode_utf8(wire_type(e));
    match e {
        SseEvent::Transport { event_type, message } => {
            crate::frame::lemma_frame_round_trip(encode_utf8(event_type@), json_text_of(message));
        },
        SseEvent::System(SystemMessageType::Endpoint(u)) => {
            encode_utf8_decode_utf8(u@);
            crate::frame::lemma_frame_round_trip(encode_utf8(endpoint_type()), encode_utf8(u@));
        },
        SseEvent::System(SystemMessageType::Shutdown { reason }) => {
            encode_utf8_decode_utf8(reason@);
            crate::frame::lemma_frame_round_trip(
                encode_utf8(shutdown_type()),
                encode_utf8(reason@),
            );
        },
    }
}

/// The fields of one frame, as text.
#[derive(Clone, Debug)]
pub struct ParsedSseEvent {
    pub event_type: Option<String>,
    pub data: Option<String>,
}

pub open spec fn text_view(o: Option<String>) -> Option<Seq<char>> {
    match o {
        Some(s) => Some(s@),
        None => None,
    }
}

pub open spec fn lossy_field(f: Option<Seq<u8>>) -> Option<Seq<char>> {
    match f {
        Some(b) => Some(lossy_text(b)),
        None => None,
    }
}

/// A field read as text, where its bytes are valid UTF-8; otherwise what
/// lossy reading makes of it.
pub open spec fn utf8_field(f: Option<Seq<u8>>) -> Option<Seq<char>> {
    match f {
        Some(b) => Some(if valid_utf8(b) { decode_utf8(b) } else { lossy_text(b) }),
        None => None,
    }
}

fn field_text(s: &[u8], r: Option<(usize, usize)>) -> (t: Option<String>)
    requires
        r matches Some((a, b)) ==> a <= b <= s@.len(),
    ensures
        text_view(t) == lossy_field(crate::frame::range_of(s@, r)),
        text_view(t) == utf8_field(crate::frame::range_of(s@, r)),
{
    match r {
        Some((a, b)) => {
            let v = copy_range(s, a, b);
            Some(text_of(v.as_slice()))
        },
        None => None,
    }
}

/// Reads one frame: the last `event: ` line and the last `data: ` line, each
/// turned into text.
pub fn parse_sse_event(frame: &[u8]) -> (r: ParsedSseEvent)
    ensures
        text_view(r.event_type) == lossy_field(parse_frame(frame@).0),
        text_view(r.data) == lossy_field(parse_frame(frame@).1),
        text_view(r.event_type) == utf8_field(parse_frame(frame@).0),
        text_view(r.data) == utf8_field(parse_frame(frame@).1),
{
    let f = parse_fields(frame);
    let event_type = field_text(frame, f.0);
    let data = field_text(frame, f.1);
    ParsedSseEvent { event_type, data }
}

impl ParsedSseEvent {
    /// Reads the data as a JSON-RPC message; no data gives `Ok(None)`.
    pub fn parse_json_rpc(&self) -> (r: Result<Option<JsonRpcMessage>, SseError>)
        ensures
            self.data is None ==> r matches Ok(None),
            self.data matches Some(d) ==> (r is Ok <==> json_accepts(d@)),
            self.data matches Some(d) ==> (r matches Ok(Some(m)) ==> m == json_value_of(d@)),
            self.data is Some ==> !(r matches Ok(None)),
            r matches Err(e) ==> e == SseError::Serialization,
    {
        match &self.data {
            Some(d) => match json_parse(d.as_str()) {
                Ok(m) => Ok(Some(m)),
                Err(_) => Err(SseError::Serialization),
            },
            None => Ok(None),
        }
    }

    /// Reads the frame as a control message: an `endpoint` frame names the URL
    /// as its data, a `shutdown` frame gives the reason as its data. Any other
    /// frame, or one without data, gives `Ok(None)`.
    pub fn parse_system_message(&self) -> (r: Result<Option<SystemMessageType>, SseError>)
        ensures
            r is Ok,
            match (self.event_type, self.data) {
                (Some(t), Some(d)) => if t@ == endpoint_type() {
                    r matches Ok(Some(SystemMessageType::Endpoint(u))) && u@ == d@
                } else if t@ == shutdown_type() {
                    r matches Ok(Some(SystemMessageType::Shutdown { reason })) && reason@ == d@
                } else {
                    r matches Ok(None)
                },
                _ => r matches Ok(None),
            },
    {
        proof {
            reveal_strlit("endpoint");
            reveal_strlit("shutdown");
            assert("endpoint"@ =~= endpoint_type());
            assert("shutdown"@ =~= shutdown_type());
        }
        match (&self.event_type, &self.data) {
            (Some(t), Some(d)) => {
                if *t == literal("endpoint") {
                    Ok(Some(SystemMessageType::Endpoint(d.clone())))
                } else if *t == literal("shutdown") {
                    Ok(Some(SystemMessageType::Shutdown { reason: d.clone() }))
                } else {
                    Ok(None)
                }
            },
            _ => Ok(None),
        }
    }
}

/// What a server-side send names as its target.
#[derive(Clone, Copy, Debug)]
pub struct SseMetadata {
    pub client_id: ClientId,
}

impl SseMetadata {
    /// Reads the metadata from the text of its `client_id` field.
    pub fn from_client_id_text(s: &str) -> (r: Result<SseMetadata, SseError>)
        ensures
            match crate::client_id::uuid_value(s@) {
                Some(v) => r matches Ok(m) && m.client_id == ClientId(v),
                None => r == Err::<SseMetadata, SseError>(SseError::InvalidMetadata),
            },
    {
        match ClientId::parse(s) {
            Some(id) => Ok(SseMetadata { client_id: id }),
            None => Err(SseError::InvalidMetadata),
        }
    }
}

impl SseMetadata {
    /// Reads the metadata envelope `{ "client_id": "<uuid>" }` of a
    /// server-side send. Without a `client_id` string, or with one that is not
    /// an identifier, the send is refused with `InvalidMetadata`.
    pub fn from_value(metadata: &serde_json::Value) -> (r: Result<SseMetadata, SseError>)
        ensures
            match str_member(*metadata, "client_id"@) {
                Some(t) => match crate::client_id::uuid_value(t) {
                    Some(v) => r matches Ok(m) && m.client_id == ClientId(v),
                    None => r == Err::<SseMetadata, SseError>(SseError::InvalidMetadata),
                },
                None => r == Err::<SseMetadata, SseError>(SseError::InvalidMetadata),
            },
    {
        match member_text(metadata, "client_id") {
            Some(text) => SseMetadata::from_client_id_text(text),
            None => Err(SseError::InvalidMetadata),
        }
    }
}

/// A message that a client posted, with the client it came from.
pub struct SseMessage {
    pub message: JsonRpcMessage,
    pub client_id: ClientId,
}

} // verus!
