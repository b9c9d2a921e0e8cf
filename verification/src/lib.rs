//! Core of a client driver for a graph database speaking a length-chunked
//! binary request/response protocol over one connection per conversation.
//!
//! The library is the verified heart of the driver: the wire codec (typed
//! values, chunk framing, handshake), the per-connection conversation state
//! machine, the bounded connection pool model, the row-stream cursor, the
//! transaction handle, and the retrying transaction executor. The unverified
//! shell that owns sockets and timers lives outside and drives these parts.
use vstd::prelude::*;

pub mod chunk;
pub mod codec;
pub mod config;
pub mod connection;
pub mod decode;
pub mod encode;
pub mod errors;
pub mod handshake;
pub mod message;
pub mod pool;
pub mod query;
pub mod retry;
pub mod roundtrip;
pub mod session;
pub mod stream;
pub mod txn;
pub mod value;

verus! {

/// Payload capacity of one chunk: a chunk length is a `u16`, and the
/// two length-prefix bytes are not part of the payload.
pub const MAX_CHUNK_SIZE: usize = 65533;

} // verus!
