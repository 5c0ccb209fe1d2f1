//! The error taxonomy of the HTTP layer: retryable incompleteness, fatal
//! protocol violations, and transport failures.

use vstd::prelude::*;

verus! {

#[derive(Clone, Copy, Debug, PartialEq)]
pub enum HTTPError {
    /// More input bytes are needed; retry after reading more.
    Incomplete,
    /// The peer went away while a response was being written.
    Disconnected,
    /// Malformed wire data; fatal to the connection.
    ProtocolError(&'static str),
    /// The transport failed; fatal to the session.
    NetworkError(&'static str),
    /// A valid request this server chooses not to serve.
    UnsupportedRequest(&'static str),
    /// No free slot was left for another response header.
    ExtraHeadersExceeded,
    /// The WebSocket layer failed after the upgrade.
    WebsocketProtocolError,
}

} // verus!
