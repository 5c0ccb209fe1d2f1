//! The HTTP server shell: it owns the handler that decides each request.
//! The accept/read/write loop around it lives with the I/O code; the server
//! logic it drives — parsing, routing, response building — is in this crate.

use vstd::prelude::*;

verus! {

/// An HTTP server around a request handler.
pub struct HTTPServer<H> {
    pub handler: H,
}

impl<H> HTTPServer<H> {
    /// Wraps a handler.
    pub fn new(handler: H) -> (r: HTTPServer<H>)
        ensures
            r == (HTTPServer { handler }),
    {
        HTTPServer { handler }
    }
}

} // verus!
