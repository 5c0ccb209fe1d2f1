//! The typestate HTTP response builder: the status line must be written
//! first, headers may then be added, and the response is finished exactly
//! once, with no body, with a body, or as a WebSocket upgrade. The ordering
//! is enforced by two builder types, not by a runtime flag; the builder
//! serializes into an owned byte buffer that the caller sends.

use vstd::prelude::*;
use vstd::string::StringSliceAdditionalSpecFns;

use crate::ascii::{dec_bytes, AsciiInt};
use crate::error::HTTPError;
use crate::header::{named_header, resp_header_bytes, ResponseHeader, RequestHeader};
use crate::request::{query_key, spec_find_header, HttpRequest};
use crate::websocket::spec_accept_val;

verus! {

#[derive(Clone, Copy, Debug, PartialEq, Eq, Structural)]
pub enum HttpStatusCode {
    SwitchingProtocols,
    OK,
    BadRequest,
    NotFound,
    InternalServerError,
    Other(u16),
}

/// The status text after the protocol token; a bare number for the codes
/// without a canned reason phrase.
pub open spec fn status_text(s: HttpStatusCode) -> Seq<u8> {
    match s {
        HttpStatusCode::SwitchingProtocols => "101 Switching Protocols".spec_bytes(),
        HttpStatusCode::OK => "200 OK".spec_bytes(),
        HttpStatusCode::BadRequest => "400 Bad Request".spec_bytes(),
        HttpStatusCode::NotFound => "404 Not Found".spec_bytes(),
        HttpStatusCode::InternalServerError => "500 Internal Server Error".spec_bytes(),
        HttpStatusCode::Other(n) => dec_bytes(n as int),
    }
}

/// A status a response may carry: a numeric code must lie in 100..=599.
pub open spec fn status_valid(s: HttpStatusCode) -> bool {
    match s {
        HttpStatusCode::Other(n) => 100 <= n <= 599,
        _ => true,
    }
}

/// The full status line.
pub open spec fn status_line_bytes(s: HttpStatusCode) -> Seq<u8> {
    "HTTP/1.1 ".spec_bytes() + status_text(s) + "\r\n".spec_bytes()
}

impl HttpStatusCode {
    /// Appends the status line; a numeric code outside 100..=599 is refused
    /// and writes nothing.
    pub fn write_to(&self, out: &mut Vec<u8>) -> (r: Result<(), HTTPError>)
        ensures
            r is Ok <==> status_valid(*self),
            r is Ok ==> final(out)@ == old(out)@ + status_line_bytes(*self),
            r is Err ==> final(out)@ == old(out)@ && (r matches Err(HTTPError::ProtocolError(m))
                && m@ == "invalid status code"@),
    {
        if let HttpStatusCode::Other(n) = self {
            if *n < 100 || *n > 599 {
                return Err(HTTPError::ProtocolError("invalid status code"));
            }
        }
        out.extend_from_slice("HTTP/1.1 ".as_bytes());
        match self {
            HttpStatusCode::SwitchingProtocols => out.extend_from_slice(
                "101 Switching Protocols".as_bytes(),
            ),
            HttpStatusCode::OK => out.extend_from_slice("200 OK".as_bytes()),
            HttpStatusCode::BadRequest => out.extend_from_slice("400 Bad Request".as_bytes()),
            HttpStatusCode::NotFound => out.extend_from_slice("404 Not Found".as_bytes()),
            HttpStatusCode::InternalServerError => out.extend_from_slice(
                "500 Internal Server Error".as_bytes(),
            ),
            HttpStatusCode::Other(n) => {
                let digits = AsciiInt::from_u64(*n as u64);
                out.extend_from_slice(digits.as_bytes());
            },
        }
        out.extend_from_slice("\r\n".as_bytes());
        proof {
            assert(out@ =~= old(out)@ + status_line_bytes(*self));
        }
        Ok(())
    }
}

/// Marker: no status line has been written yet.
pub struct HttpResponderStateInit;

/// Marker: the status line is out; headers may follow.
pub struct HttpResponderStateSending;

/// A response in progress. The `State` parameter is the typestate: only an
/// initial responder can write the status line, only a sending responder
/// can add headers or finish.
pub struct HttpResponder<State> {
    status: HttpStatusCode,
    server: Vec<u8>,
    out: Vec<u8>,
    state_marker: State,
}

impl<State> HttpResponder<State> {
    /// The bytes serialized so far.
    pub closed spec fn wire(&self) -> Seq<u8> {
        self.out@
    }

    /// The Server header value this response will carry.
    pub closed spec fn server_name(&self) -> Seq<u8> {
        self.server@
    }

    /// The status the responder holds.
    pub closed spec fn spec_status(&self) -> HttpStatusCode {
        self.status
    }
}

/// The 400 response sent when an upgrade request lacks its key.
pub open spec fn refusal_bytes(server: Seq<u8>) -> Seq<u8> {
    status_line_bytes(HttpStatusCode::BadRequest) + named_header("Server".spec_bytes(), server)
        + "\r\n".spec_bytes()
}

/// The 101 response that accepts a WebSocket upgrade for client key `key`.
pub open spec fn switch_bytes(server: Seq<u8>, key: Seq<u8>) -> Seq<u8> {
    status_line_bytes(HttpStatusCode::SwitchingProtocols) + named_header(
        "Server".spec_bytes(),
        server,
    ) + named_header("Sec-WebSocket-Accept".spec_bytes(), spec_accept_val(key)) + named_header(
        "Upgrade".spec_bytes(),
        "websocket".spec_bytes(),
    ) + named_header("Connection".spec_bytes(), "Upgrade".spec_bytes()) + "\r\n".spec_bytes()
}

/// What an upgrade attempt produced: the 101 response to send before
/// speaking WebSocket, or the 400 response to send before closing.
pub enum UpgradeOutcome {
    Switched(Vec<u8>),
    Refused(Vec<u8>),
}

impl HttpResponder<HttpResponderStateInit> {
    /// Starts a response to `request`: nothing on the wire yet, status 200,
    /// the Server header taken from the request's host.
    pub fn new(request: &HttpRequest) -> (r: HttpResponder<HttpResponderStateInit>)
        ensures
            r.wire() == Seq::<u8>::empty(),
            r.server_name() == request@.host,
            r.spec_status() == HttpStatusCode::OK,
    {
        HttpResponder {
            status: HttpStatusCode::OK,
            server: vstd::slice::slice_to_vec(request.host.as_slice()),
            out: Vec::new(),
            state_marker: HttpResponderStateInit,
        }
    }

    /// Writes the status line and the Server header; the responder moves to
    /// the sending state.
    #[must_use]
    pub fn with_status(self, status: HttpStatusCode) -> (r: Result<
        HttpResponder<HttpResponderStateSending>,
        HTTPError,
    >)
        ensures
            r is Ok <==> status_valid(status),
            r matches Ok(next) ==> next.wire() == self.wire() + status_line_bytes(status)
                + named_header("Server".spec_bytes(), self.server_name()) && next.server_name()
                == self.server_name() && next.spec_status() == status,
    {
        let mut out = self.out;
        match status.write_to(&mut out) {
            Ok(()) => {},
            Err(e) => {
                return Err(e);
            },
        }
        let server_header = ResponseHeader::Server(
            vstd::slice::slice_to_vec(self.server.as_slice()),
        );
        server_header.write_to(&mut out);
        proof {
            assert(out@ =~= self.wire() + status_line_bytes(status) + named_header(
                "Server".spec_bytes(),
                self.server_name(),
            ));
        }
        Ok(
            HttpResponder {
                status,
                server: self.server,
                out,
                state_marker: HttpResponderStateSending,
            },
        )
    }

    /// Writes the status line with the stored status, then the header.
    #[must_use]
    pub fn with_header(self, header: ResponseHeader) -> (r: Result<
        HttpResponder<HttpResponderStateSending>,
        HTTPError,
    >)
        ensures
            r is Ok <==> status_valid(self.spec_status()),
            r matches Ok(next) ==> next.wire() == self.wire() + status_line_bytes(
                self.spec_status(),
            ) + named_header("Server".spec_bytes(), self.server_name()) + resp_header_bytes(header)
                && next.server_name() == self.server_name(),
    {
        let status = self.status;
        match self.with_status(status) {
            Ok(next) => next.with_header(header),
            Err(e) => Err(e),
        }
    }

    /// Answers a WebSocket upgrade request: with a Sec-WebSocket-Key header
    /// present, the 101 response carrying the derived accept value; without
    /// one, a 400 response.
    pub fn upgrade(self, req: &HttpRequest) -> (r: UpgradeOutcome)
        ensures
            ({
                let found = match req@.header_slice {
                    Some(block) => spec_find_header(block, 0, 3, Seq::empty()),
                    None => None,
                };
                match r {
                    UpgradeOutcome::Switched(bytes) => found matches Some(nv) && bytes@
                        == self.wire() + switch_bytes(self.server_name(), nv.1),
                    UpgradeOutcome::Refused(bytes) => found is None && bytes@ == self.wire()
                        + refusal_bytes(self.server_name()),
                }
            }),
    {
        let key: Vec<u8> = match req.get_header(RequestHeader::SecWebSocketKey(Vec::new())) {
            Some(RequestHeader::SecWebSocketKey(k)) => k,
            Some(h) => {
                // a header answering the kind-3 lookup can only be a
                // Sec-WebSocket-Key, so this arm cannot be reached
                proof {
                    if let Some(block) = req@.header_slice {
                        crate::request::lemma_find_header_matches(block, 0, 3, Seq::empty());
                    }
                    assert(crate::header::kind_of_header(h) == 3);
                    assert(false);
                }
                return UpgradeOutcome::Refused(Vec::new());
            },
            None => {
                let r = self.with_status(HttpStatusCode::BadRequest);
                match r {
                    Ok(next) => {
                        return UpgradeOutcome::Refused(next.no_body());
                    },
                    Err(_) => {
                        proof {
                            assert(status_valid(HttpStatusCode::BadRequest));
                        }
                        return UpgradeOutcome::Refused(Vec::new());
                    },
                }
            },
        };
        let accept = crate::websocket::accept_val_bytes(key.as_slice());
        let r = self.with_status(HttpStatusCode::SwitchingProtocols);
        match r {
            Ok(next) => {
                let r2 = next.with_header(ResponseHeader::SecWebSocketAccept(accept));
                match r2 {
                    Ok(next2) => {
                        let r3 = next2.with_header(
                            ResponseHeader::Other(
                                vstd::slice::slice_to_vec("Upgrade".as_bytes()),
                                vstd::slice::slice_to_vec("websocket".as_bytes()),
                            ),
                        );
                        match r3 {
                            Ok(next3) => {
                                let r4 = next3.with_header(
                                    ResponseHeader::Connection(
                                        vstd::slice::slice_to_vec("Upgrade".as_bytes()),
                                    ),
                                );
                                match r4 {
                                    Ok(next4) => {
                                        let bytes = next4.no_body();
                                        proof {
                                            assert(bytes@ =~= self.wire() + switch_bytes(
                                                self.server_name(),
                                                key@,
                                            ));
                                        }
                                        UpgradeOutcome::Switched(bytes)
                                    },
                                    Err(_) => UpgradeOutcome::Switched(Vec::new()),
                                }
                            },
                            Err(_) => UpgradeOutcome::Switched(Vec::new()),
                        }
                    },
                    Err(_) => UpgradeOutcome::Switched(Vec::new()),
                }
            },
            Err(_) => UpgradeOutcome::Switched(Vec::new()),
        }
    }
}

impl HttpResponder<HttpResponderStateSending> {
    /// Appends one header.
    #[must_use]
    pub fn with_header(self, header: ResponseHeader) -> (r: Result<
        HttpResponder<HttpResponderStateSending>,
        HTTPError,
    >)
        ensures
            r matches Ok(next) && next.wire() == self.wire() + resp_header_bytes(header)
                && next.server_name() == self.server_name() && next.spec_status()
                == self.spec_status(),
    {
        let mut out = self.out;
        header.write_to(&mut out);
        Ok(
            HttpResponder {
                status: self.status,
                server: self.server,
                out,
                state_marker: HttpResponderStateSending,
            },
        )
    }

    /// Finishes the response without a body: the blank line closes the
    /// headers and the finished wire bytes come back.
    pub fn no_body(self) -> (r: Vec<u8>)
        ensures
            r@ == self.wire() + "\r\n".spec_bytes(),
    {
        let mut out = self.out;
        out.extend_from_slice("\r\n".as_bytes());
        out
    }

    /// Finishes the response with a body: a Content-Length header computed
    /// from the body, the blank line, then the body bytes. A zero-length
    /// body writes no Content-Length header at all.
    pub fn with_body(self, body: &[u8]) -> (r: Vec<u8>)
        ensures
            r@ == self.wire() + resp_header_bytes(
                ResponseHeader::ContentLength(body@.len() as usize),
            ) + "\r\n".spec_bytes() + body@,
    {
        let mut out = self.out;
        let header = ResponseHeader::ContentLength(body.len());
        header.write_to(&mut out);
        out.extend_from_slice("\r\n".as_bytes());
        out.extend_from_slice(body);
        proof {
            assert(out@ =~= self.wire() + resp_header_bytes(
                ResponseHeader::ContentLength(body@.len() as usize),
            ) + "\r\n".spec_bytes() + body@);
        }
        out
    }
}

} // verus!
