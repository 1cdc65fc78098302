//! Decisions of the client side: what each frame of the stream does, where a
//! send goes, and how many connection attempts are made.
use vstd::prelude::*;
use crate::event::{
    endpoint_type, lossy_field, message_type, parse_sse_event, shutdown_type, text_view,
    SseError, SystemMessageType,
};
use crate::frame::parse_frame;
use crate::json::{json_accepts, json_bytes, json_text_of, json_value_of, JsonRpcMessage};

verus! {

/// What the reader does after one frame.
#[derive(Debug)]
pub enum ReaderStep {
    /// Go on reading.
    Continue,
    /// Hand this message to the inbound sink, then go on reading.
    Deliver(JsonRpcMessage),
    /// The server shut down: stop with success.
    Finish,
}

/// What the client knows of the server: the URL it was told to post to.
pub struct ClientState {
    message_url: Option<String>,
}

impl ClientState {
    pub closed spec fn url(&self) -> Option<Seq<char>> {
        text_view(self.message_url)
    }

    /// No URL is known before the first `endpoint` frame.
    pub fn new() -> (r: ClientState)
        ensures
            r.url() is None,
    {
        ClientState { message_url: None }
    }

    /// Acts on one frame of the stream. An `endpoint` frame with data sets the
    /// URL (a later one replaces it); a `message` frame with data that reads as
    /// JSON is delivered; a `shutdown` frame ends the stream; everything else is
    /// passed over.
    pub fn handle_frame(&mut self, frame: &[u8]) -> (r: ReaderStep)
        ensures
            lossy_field(parse_frame(frame@).0) == Some(endpoint_type()) && lossy_field(
                parse_frame(frame@).1,
            ) is Some ==> r is Continue && final(self).url() == lossy_field(parse_frame(frame@).1),
            lossy_field(parse_frame(frame@).0) == Some(message_type()) && lossy_field(
                parse_frame(frame@).1,
            ) is Some ==> (r is Deliver <==> json_accepts(lossy_field(parse_frame(frame@).1)->0))
                && (r is Deliver || r is Continue) && final(self).url() == old(self).url() && (
            r matches ReaderStep::Deliver(m) ==> m == json_value_of(
                lossy_field(parse_frame(frame@).1)->0,
            )),
            lossy_field(parse_frame(frame@).0) == Some(shutdown_type()) ==> r is Finish
                && final(self).url() == old(self).url(),
            lossy_field(parse_frame(frame@).0) != Some(endpoint_type()) && lossy_field(
                parse_frame(frame@).0,
            ) != Some(shutdown_type()) && !(lossy_field(parse_frame(frame@).0) == Some(
                message_type(),
            ) && lossy_field(parse_frame(frame@).1) is Some) ==> r is Continue && final(self).url()
                == old(self).url(),
            lossy_field(parse_frame(frame@).0) == Some(endpoint_type()) && lossy_field(
                parse_frame(frame@).1,
            ) is None ==> r is Continue && final(self).url() == old(self).url(),
    {
        let parsed = parse_sse_event(frame);
        proof {
            reveal_strlit("message");
            assert("message"@ =~= message_type());
            reveal_strlit("shutdown");
            assert("shutdown"@ =~= shutdown_type());
            assert(message_type()[0] != endpoint_type()[0]);
            assert(message_type()[0] != shutdown_type()[0]);
            assert(endpoint_type()[0] != shutdown_type()[0]);
        }
        match parsed.parse_system_message() {
            Ok(Some(SystemMessageType::Endpoint(url))) => {
                self.message_url = Some(url);
                return ReaderStep::Continue;
            },
            Ok(Some(SystemMessageType::Shutdown { .. })) => {
                return ReaderStep::Finish;
            },
            _ => {},
        }
        match &parsed.event_type {
            Some(t) => {
                if *t == crate::event::literal("message") {
                    match parsed.parse_json_rpc() {
                        Ok(Some(m)) => ReaderStep::Deliver(m),
                        _ => ReaderStep::Continue,
                    }
                } else if *t == crate::event::literal("shutdown") {
                    ReaderStep::Finish
                } else {
                    ReaderStep::Continue
                }
            },
            None => ReaderStep::Continue,
        }
    }

    /// The URL to post to, or `EndpointNotAdvertised` before the server named one.
    pub fn message_url_for_send(&self) -> (r: Result<String, SseError>)
        ensures
            match self.url() {
                Some(u) => r matches Ok(s) && s@ == u,
                None => r == Err::<String, SseError>(SseError::EndpointNotAdvertised),
            },
    {
        match &self.message_url {
            Some(u) => Ok(u.clone()),
            None => Err(SseError::EndpointNotAdvertised),
        }
    }
}

/// The body of a client-side post: the message's compact JSON text.
pub fn post_body(message: &JsonRpcMessage) -> (r: Vec<u8>)
    ensures
        r@ == json_text_of(*message),
{
    match json_bytes(message) {
        Ok(v) => v,
        Err(_) => Vec::new(),
    }
}

/// Whether an HTTP status is a success (2xx).
pub open spec fn is_success(code: u16) -> bool {
    200 <= code < 300
}

/// A 2xx status passes; any other becomes `HttpStatus(code)`.
pub fn check_status(code: u16) -> (r: Result<(), SseError>)
    ensures
        is_success(code) ==> r is Ok,
        !is_success(code) ==> r == Err::<(), SseError>(SseError::HttpStatus(code)),
{
    if 200 <= code && code < 300 {
        Ok(())
    } else {
        Err(SseError::HttpStatus(code))
    }
}

/// Counts connection attempts against a limit and keeps the last failure.
pub struct RetryPolicy {
    retry_count: usize,
    attempts: usize,
    last_error: Option<SseError>,
}

impl RetryPolicy {
    pub closed spec fn limit(&self) -> nat {
        self.retry_count as nat
    }

    pub closed spec fn attempts(&self) -> nat {
        self.attempts as nat
    }

    pub closed spec fn last_error(&self) -> Option<SseError> {
        self.last_error
    }

    /// No more attempts are made than the limit allows.
    pub closed spec fn wf(&self) -> bool {
        self.attempts <= self.retry_count
    }

    pub fn new(retry_count: usize) -> (r: RetryPolicy)
        ensures
            r.wf(),
            r.limit() == retry_count,
            r.attempts() == 0,
            r.last_error() is None,
    {
        RetryPolicy { retry_count, attempts: 0, last_error: None }
    }

    /// Starts an attempt if the limit allows one more, and counts it.
    pub fn begin_attempt(&mut self) -> (r: bool)
        requires
            old(self).wf(),
        ensures
            final(self).wf(),
            r == (old(self).attempts() < old(self).limit()),
            final(self).attempts() == if r {
                old(self).attempts() + 1
            } else {
                old(self).attempts()
            },
            final(self).limit() == old(self).limit(),
            final(self).last_error() == old(self).last_error(),
    {
        if self.attempts < self.retry_count {
            self.attempts = self.attempts + 1;
            true
        } else {
            false
        }
    }

    /// Keeps the error of the attempt that just failed.
    pub fn record_failure(&mut self, e: SseError)
        requires
            old(self).wf(),
        ensures
            final(self).wf(),
            final(self).last_error() == Some(e),
            final(self).attempts() == old(self).attempts(),
            final(self).limit() == old(self).limit(),
    {
        self.last_error = Some(e);
    }

    /// The error to end with once no attempt is left: the most recent
    /// failure, or `ConnectFailed` where none was recorded.
    pub fn final_error(self) -> (r: SseError)
        ensures
            r == match self.last_error() {
                Some(e) => e,
                None => SseError::ConnectFailed,
            },
    {
        match self.last_error {
            Some(e) => e,
            None => SseError::ConnectFailed,
        }
    }
}

/// However many attempts are asked for, a policy never lets more through than
/// its limit.
pub proof fn lemma_attempts_bounded(p: RetryPolicy)
    requires
        p.wf(),
    ensures
        p.attempts() <= p.limit(),
{
}

} // verus!
