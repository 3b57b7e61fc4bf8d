//! Typed requests and responses for a text-generation HTTP API, and the
//! decoder for its streamed chat responses.
//!
//! The records of the API are in [`chat`], [`edits`], [`embeddings`],
//! [`images`] and [`models`]. The decoder is in [`chat::stream`]: it turns the
//! byte chunks of a response body into the payloads of its events, one for
//! each pull. It performs no I/O: the caller asks the byte source and hands
//! over what it answered.

use vstd::prelude::*;

pub mod chat;
pub mod edits;
pub mod embeddings;
pub mod images;
pub mod models;

verus! {

/// The status with which the API answers a request that it has fulfilled.
pub const STATUS_OK: u16 = 200;

/// Tells whether a response with `status` carries what was asked for. With
/// any other status the body of the response is an error message.
pub fn fulfilled(status: u16) -> (ok: bool)
    ensures
        ok == (status == STATUS_OK),
{
    status == STATUS_OK
}

} // verus!
