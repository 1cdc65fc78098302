//! A Server-Sent-Events transport for JSON-RPC: the wire codec, the event
//! model, and the decisions of its server and client sides, with their
//! contracts proved.
pub mod client;
pub mod client_id;
pub mod event;
pub mod frame;
pub mod json;
pub mod server;
pub mod stream;
