//! Decisions of the server side: the registry of open streams, the routes, the
//! endpoint that each stream is told first, and what a posted body becomes.
use std::collections::HashMap;
use vstd::prelude::*;
use vstd::std_specs::hash::group_hash_axioms;
use vstd::string::StringExecFns;
use vstd::utf8::encode_utf8;
use vstd::string::StrSliceExecFns;
use crate::client_id::{is_hyphenated, uuid_text, uuid_value, ClientId};
use crate::event::{
    endpoint_type, literal, shutdown_reason, SseError, SseEvent, SseMessage, SystemMessageType,
};
use crate::frame::frame_bytes;
use crate::json::{json_accepts, json_parse, json_value_of, lossy_text, text_of};

verus! {

broadcast use group_hash_axioms;

/// The open streams of a server, each under its client's identifier, with the
/// sending half of that stream's channel.
pub struct ClientRegistry<S> {
    clients: HashMap<u128, S>,
}

impl<S> ClientRegistry<S> {
    pub closed spec fn view(&self) -> Map<u128, S> {
        self.clients@
    }

    pub fn new() -> (r: ClientRegistry<S>)
        ensures
            r@ == Map::<u128, S>::empty(),
    {
        ClientRegistry { clients: HashMap::new() }
    }

    /// Registers a new stream. An identifier already in use is refused and the
    /// registry is left as it was, so that no two streams share one.
    pub fn register(&mut self, id: ClientId, sender: S) -> (r: bool)
        ensures
            r == !old(self)@.contains_key(id.0),
            r ==> final(self)@ == old(self)@.insert(id.0, sender),
            !r ==> final(self)@ == old(self)@,
    {
        if self.clients.contains_key(&id.0) {
            false
        } else {
            self.clients.insert(id.0, sender);
            true
        }
    }

    /// The sender registered under `id`, or `UnknownClient`.
    pub fn sender_for(&self, id: ClientId) -> (r: Result<&S, SseError>)
        ensures
            self@.contains_key(id.0) ==> (r matches Ok(s) && *s == self@[id.0]),
            !self@.contains_key(id.0) ==> r == Err::<&S, SseError>(SseError::UnknownClient(id)),
    {
        match self.clients.get(&id.0) {
            Some(s) => Ok(s),
            None => Err(SseError::UnknownClient(id)),
        }
    }

    /// Takes the stream of `id` out, when its writer has stopped.
    pub fn remove(&mut self, id: ClientId) -> (r: Option<S>)
        ensures
            final(self)@ == old(self)@.remove(id.0),
            old(self)@.contains_key(id.0) ==> r == Some(old(self)@[id.0]),
            !old(self)@.contains_key(id.0) ==> r is None,
    {
        self.clients.remove(&id.0)
    }

    pub fn len(&self) -> (r: usize)
        ensures
            r == self@.len(),
    {
        self.clients.len()
    }

    /// Empties the registry and hands over every stream it held, each once.
    pub fn drain(&mut self) -> (r: HashMap<u128, S>)
        ensures
            r@ == old(self)@,
            final(self)@ == Map::<u128, S>::empty(),
    {
        let mut taken: HashMap<u128, S> = HashMap::new();
        std::mem::swap(&mut taken, &mut self.clients);
        taken
    }
}

/// The request kinds that the server answers.
#[derive(Clone, Copy, Debug, PartialEq, Eq, Structural)]
pub enum HttpMethod {
    Get,
    Post,
    Other,
}

/// Where a request goes.
#[derive(Clone, Copy, Debug, PartialEq, Eq, Structural)]
pub enum Route {
    /// `GET /`: open an event stream.
    Stream,
    /// `POST /message/<id>`: a message from that client.
    Message(ClientId),
    /// A post under `/message/` whose rest is not a client id: 400.
    BadRequest,
    /// Anything else: 404.
    NotFound,
}

/// `/message/`
pub open spec fn message_path() -> Seq<char> {
    seq!['/', 'm', 'e', 's', 's', 'a', 'g', 'e', '/']
}

pub open spec fn route_of(method: HttpMethod, path: Seq<char>) -> Route {
    if method == HttpMethod::Get && path == seq!['/'] {
        Route::Stream
    } else if method == HttpMethod::Post {
        if path.len() >= 9 && path.subrange(0, 9) == message_path() {
            match uuid_value(path.subrange(9, path.len() as int)) {
                Some(v) => Route::Message(ClientId(v)),
                None => Route::BadRequest,
            }
        } else {
            Route::NotFound
        }
    } else {
        Route::NotFound
    }
}

/// Picks the route of a request from its method and path.
pub fn route(method: HttpMethod, path: &str) -> (r: Route)
    ensures
        r == route_of(method, path@),
{
    let n = path.unicode_len();
    match method {
        HttpMethod::Get => {
            if n == 1 && path.get_char(0) == '/' {
                assert(path@ =~= seq!['/']);
                Route::Stream
            } else {
                Route::NotFound
            }
        },
        HttpMethod::Post => {
            if n >= 9 && starts_with_message_path(path) {
                match ClientId::parse(path.substring_char(9, n)) {
                    Some(id) => Route::Message(id),
                    None => Route::BadRequest,
                }
            } else {
                Route::NotFound
            }
        },
        HttpMethod::Other => Route::NotFound,
    }
}

fn starts_with_message_path(path: &str) -> (r: bool)
    requires
        path@.len() >= 9,
    ensures
        r == (path@.subrange(0, 9) == message_path()),
{
    let ghost prefix = path@.subrange(0, 9);
    let r = path.get_char(0) == '/' && path.get_char(1) == 'm' && path.get_char(2) == 'e'
        && path.get_char(3) == 's' && path.get_char(4) == 's' && path.get_char(5) == 'a'
        && path.get_char(6) == 'g' && path.get_char(7) == 'e' && path.get_char(8) == '/';
    proof {
        if r {
            assert(prefix =~= message_path());
        } else {
            assert(prefix[0] == path@[0] && prefix[1] == path@[1] && prefix[2] == path@[2]
                && prefix[3] == path@[3] && prefix[4] == path@[4] && prefix[5] == path@[5]
                && prefix[6] == path@[6] && prefix[7] == path@[7] && prefix[8] == path@[8]);
        }
    }
    r
}

/// The URL that a stream is told to post to: `http://<bind>/message/<id>`.
pub open spec fn endpoint_url_of(bind: Seq<char>, id: ClientId) -> Seq<char> {
    "http://"@ + bind + "/message/"@ + uuid_text(id.0)
}

/// The advertised URL; its identifier is in the hyphenated form, and a post to
/// its path is routed back to the same client.
pub fn endpoint_url(bind: &str, id: ClientId) -> (r: String)
    ensures
        r@ == endpoint_url_of(bind@, id),
        is_hyphenated(uuid_text(id.0)),
        route_of(HttpMethod::Post, message_path() + uuid_text(id.0)) == Route::Message(id),
{
    proof {
        reveal_strlit("/message/");
        assert("/message/"@ =~= message_path());
    }
    let scheme = literal("http://");
    let with_bind = scheme.concat(bind);
    let with_path = with_bind.concat("/message/");
    let id_text = id.to_text();
    proof {
        let path = message_path() + uuid_text(id.0);
        assert(path.subrange(0, 9) =~= message_path());
        assert(path.subrange(9, path.len() as int) =~= uuid_text(id.0));
    }
    with_path.concat(id_text.as_str())
}

/// The first frame of every stream: the `endpoint` event with the URL for
/// this client.
pub fn opening_frame(bind: &str, id: ClientId) -> (r: Vec<u8>)
    ensures
        r@ == frame_bytes(encode_utf8(endpoint_type()), encode_utf8(endpoint_url_of(bind@, id))),
        is_hyphenated(uuid_text(id.0)),
        route_of(HttpMethod::Post, message_path() + uuid_text(id.0)) == Route::Message(id),
{
    let event = SseEvent::endpoint(endpoint_url(bind, id));
    match event.to_sse_event() {
        Ok(v) => v,
        Err(_) => Vec::new(),
    }
}

/// The event that a closing server sends to each stream.
pub fn shutdown_event() -> (r: SseEvent)
    ensures
        r matches SseEvent::System(SystemMessageType::Shutdown { reason }) && reason@
            == shutdown_reason(),
{
    SseEvent::shutdown(literal("Server is shutting down"))
}

/// What a posted body becomes: a message from that client when the body reads
/// as JSON, nothing otherwise (the post is still answered with 200).
pub fn inbound_message(id: ClientId, body: &[u8]) -> (r: Option<SseMessage>)
    ensures
        r is Some <==> json_accepts(lossy_text(body@)),
        r matches Some(m) ==> m.client_id == id && m.message == json_value_of(lossy_text(body@)),
{
    let text = text_of(body);
    match json_parse(text.as_str()) {
        Ok(message) => Some(SseMessage { message, client_id: id }),
        Err(_) => None,
    }
}

} // verus!
