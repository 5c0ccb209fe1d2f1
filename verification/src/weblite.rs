//! The lean first-generation HTTP front end: a request parser that keeps a
//! small fixed table of the few headers the device cares about, and a
//! response builder driven by setters rather than typestate. Superseded by
//! the typestate stack, but still served by the firmware.

use vstd::prelude::*;
use vstd::string::StringSliceAdditionalSpecFns;
use vstd::utf8::valid_utf8;

use crate::ascii::{find_byte, find_byte_exec, trim_spec, trim_bytes, utf8_from_bytes, COLON, CR, LF, SP};
use crate::error::HTTPError;
use crate::header::{kind_of, content_length_ok};
use crate::header::named_header;
use crate::request::{
    find_crlf, find_crlf2, first_word, second_word, spec_method, lemma_find_crlf_bounds,
    HttpMethod,
};
use crate::response::HttpStatusCode;

verus! {

/// How many headers the parser retains.
pub const WL_MAX_HEADERS: usize = 3;

/// A header of this front end: the request parser retains the three it
/// cares about, the response builder serializes the value-bearing ones.
#[derive(Clone, Debug, PartialEq)]
pub enum HttpHeader {
    ContentType(Vec<u8>),
    ContentLength(u64),
    Server(Vec<u8>),
    Upgrade(Vec<u8>),
    SecWebSocketKey(Vec<u8>),
    SecWebSocketAccept(Vec<u8>),
    Other(Vec<u8>, Vec<u8>),
    Null,
}

/// The mathematical shape of a header.
#[verifier::ext_equal]
pub ghost enum WlHeader {
    ContentType(Seq<u8>),
    ContentLength(u64),
    Server(Seq<u8>),
    Upgrade(Seq<u8>),
    SecWebSocketKey(Seq<u8>),
    SecWebSocketAccept(Seq<u8>),
    Other(Seq<u8>, Seq<u8>),
    Null,
}

impl View for HttpHeader {
    type V = WlHeader;

    open spec fn view(&self) -> WlHeader {
        match self {
            HttpHeader::ContentType(v) => WlHeader::ContentType(v@),
            HttpHeader::ContentLength(n) => WlHeader::ContentLength(*n),
            HttpHeader::Server(v) => WlHeader::Server(v@),
            HttpHeader::Upgrade(v) => WlHeader::Upgrade(v@),
            HttpHeader::SecWebSocketKey(v) => WlHeader::SecWebSocketKey(v@),
            HttpHeader::SecWebSocketAccept(v) => WlHeader::SecWebSocketAccept(v@),
            HttpHeader::Other(k, v) => WlHeader::Other(k@, v@),
            HttpHeader::Null => WlHeader::Null,
        }
    }
}

/// A parsed request: the method, the path, and the retained headers in the
/// order they appeared.
#[derive(Debug)]
pub struct HttpRequest {
    pub method: HttpMethod,
    pub path: Vec<u8>,
    pub headers: Vec<HttpHeader>,
}

/// The mathematical shape of a parsed request.
#[verifier::ext_equal]
pub ghost struct WlModel {
    pub method: HttpMethod,
    pub path: Seq<u8>,
    pub headers: Seq<WlHeader>,
}

impl View for HttpRequest {
    type V = WlModel;

    open spec fn view(&self) -> WlModel {
        WlModel {
            method: self.method,
            path: self.path@,
            headers: self.headers@.map_values(|h: HttpHeader| h@),
        }
    }
}

/// The parser's running state.
#[verifier::ext_equal]
pub ghost struct WlState {
    pub req: WlModel,
    pub request_line_done: bool,
}

/// What a parse yields.
#[verifier::ext_equal]
pub ghost enum WlParsed {
    NotReady,
    BadUtf8,
    BadMethod,
    BadContentLength,
    Malformed,
    Parsed(WlModel),
}

/// The effect of one header line: the first free of the few slots takes a
/// recognized header; anything else is ignored. With every slot taken the
/// line is not even classified.
pub open spec fn wl_apply_header(line: Seq<u8>, st: WlState) -> Result<WlState, WlParsed> {
    match find_byte(line, 58, 0) {
        None => Ok(st),
        Some(k) => {
            if st.req.headers.len() >= WL_MAX_HEADERS {
                Ok(st)
            } else {
                let name = trim_spec(line.take(k));
                let value = trim_spec(line.subrange(k + 1, line.len() as int));
                let kind = kind_of(name);
                if kind == 13 {
                    if content_length_ok(value) {
                        Ok(
                            WlState {
                                req: WlModel {
                                    headers: st.req.headers.push(
                                        WlHeader::ContentLength(
                                            crate::ascii::digits_val(value) as u64,
                                        ),
                                    ),
                                    ..st.req
                                },
                                ..st
                            },
                        )
                    } else {
                        Err(WlParsed::BadContentLength)
                    }
                } else if kind == 2 {
                    Ok(
                        WlState {
                            req: WlModel {
                                headers: st.req.headers.push(WlHeader::Upgrade(value)),
                                ..st.req
                            },
                            ..st
                        },
                    )
                } else if kind == 3 {
                    Ok(
                        WlState {
                            req: WlModel {
                                headers: st.req.headers.push(WlHeader::SecWebSocketKey(value)),
                                ..st.req
                            },
                            ..st
                        },
                    )
                } else {
                    Ok(st)
                }
            }
        },
    }
}

/// The effect of the request line.
pub open spec fn wl_apply_request_line(line: Seq<u8>, st: WlState) -> Result<WlState, WlParsed> {
    match spec_method(first_word(line)) {
        None => Err(WlParsed::BadMethod),
        Some(m) => Ok(
            WlState {
                req: WlModel { method: m, path: second_word(line), ..st.req },
                request_line_done: true,
            },
        ),
    }
}

/// Walks the header segment line by line; when the lines run out, a request
/// whose path never appeared is malformed.
pub open spec fn wl_parse_lines(s: Seq<u8>, line_start: int, st: WlState) -> WlParsed
    decreases s.len() - line_start,
    when 0 <= line_start <= s.len()
    via wl_parse_lines_decreases
{
    match find_crlf(s, line_start) {
        None => if st.req.path.len() == 0 {
            WlParsed::Malformed
        } else {
            WlParsed::Parsed(st.req)
        },
        Some(j) => {
            let line = s.subrange(line_start, j);
            if !st.request_line_done {
                match wl_apply_request_line(line, st) {
                    Err(e) => e,
                    Ok(st2) => wl_parse_lines(s, j + 2, st2),
                }
            } else {
                match wl_apply_header(line, st) {
                    Err(e) => e,
                    Ok(st2) => wl_parse_lines(s, j + 2, st2),
                }
            }
        },
    }
}

#[via_fn]
proof fn wl_parse_lines_decreases(s: Seq<u8>, line_start: int, st: WlState) {
    lemma_find_crlf_bounds(s, line_start);
}

pub open spec fn wl_init_state() -> WlState {
    WlState {
        req: WlModel { method: HttpMethod::GET, path: Seq::empty(), headers: Seq::empty() },
        request_line_done: false,
    }
}

/// What parsing a complete header segment yields.
pub open spec fn wl_parse_segment(seg: Seq<u8>) -> WlParsed {
    if !valid_utf8(seg) {
        WlParsed::BadUtf8
    } else {
        wl_parse_lines(seg, 0, wl_init_state())
    }
}

/// What parsing a receive buffer yields: nothing before a minimum plausible
/// length and a complete CRLFCRLF-terminated header block, then the parse of
/// that block.
pub open spec fn wl_spec_parse(s: Seq<u8>) -> WlParsed {
    if s.len() < 15 {
        WlParsed::NotReady
    } else {
        match find_crlf2(s, 0) {
            None => WlParsed::NotReady,
            Some(i) => wl_parse_segment(s.subrange(0, i + 4)),
        }
    }
}

/// The first Content-Length the request retained, or 0.
pub open spec fn spec_content_len(headers: Seq<WlHeader>) -> u64
    decreases headers.len(),
{
    if headers.len() == 0 {
        0
    } else {
        match headers[0] {
            WlHeader::ContentLength(n) => n,
            _ => spec_content_len(headers.drop_first()),
        }
    }
}

impl HttpRequest {
    /// The end of the first complete header block, when one has arrived.
    pub fn contains_request_headers(data: &[u8]) -> (r: Option<usize>)
        ensures
            match r {
                Some(i) => find_crlf2(data@, 0) == Some(i - 4) && 4 <= i <= data@.len(),
                None => find_crlf2(data@, 0) is None,
            },
    {
        crate::request::HttpRequest::contains_complete_http_header(data)
    }

    /// Parses a receive buffer: below the minimum plausible length, or
    /// without a complete header block, the request is not ready; otherwise
    /// the block is parsed.
    pub fn try_parse(data: &[u8]) -> (r: Result<HttpRequest, HTTPError>)
        ensures
            r matches Ok(q) ==> wl_spec_parse(data@) == WlParsed::Parsed(q@),
            r matches Err(e) ==> match e {
                HTTPError::Incomplete => wl_spec_parse(data@) is NotReady,
                HTTPError::ProtocolError(msg) => (wl_spec_parse(data@) is BadUtf8 && msg@
                    == "http request is not valid utf8"@) || (wl_spec_parse(data@) is BadMethod
                    && msg@ == "unknown http method"@) || (wl_spec_parse(data@)
                    is BadContentLength && msg@ == "invalid content-length"@) || (wl_spec_parse(
                    data@,
                ) is Malformed && msg@ == "malformed HTTP request"@),
                _ => false,
            },
    {
        if data.len() < 15 {
            return Err(HTTPError::Incomplete);
        }
        match Self::contains_request_headers(data) {
            None => Err(HTTPError::Incomplete),
            Some(end) => {
                let seg = vstd::slice::slice_subrange(data, 0, end);
                Self::parse_request(seg)
            },
        }
    }

    /// Parses a complete header segment.
    #[verifier::rlimit(100)]
    pub fn parse_request(data: &[u8]) -> (r: Result<HttpRequest, HTTPError>)
        ensures
            r matches Ok(q) ==> wl_parse_segment(data@) == WlParsed::Parsed(q@),
            r matches Err(e) ==> match e {
                HTTPError::ProtocolError(msg) => (wl_parse_segment(data@) is BadUtf8 && msg@
                    == "http request is not valid utf8"@) || (wl_parse_segment(data@)
                    is BadMethod && msg@ == "unknown http method"@) || (wl_parse_segment(data@)
                    is BadContentLength && msg@ == "invalid content-length"@) || (
                wl_parse_segment(data@) is Malformed && msg@ == "malformed HTTP request"@),
                _ => false,
            },
    {
        let ghost s = data@;
        if utf8_from_bytes(data).is_none() {
            return Err(HTTPError::ProtocolError("http request is not valid utf8"));
        }
        let mut method = HttpMethod::GET;
        let mut path: Vec<u8> = Vec::new();
        let mut headers: Vec<HttpHeader> = Vec::new();
        let mut request_line_done = false;
        let mut line_start: usize = 0;
        proof {
            assert(headers@.map_values(|h: HttpHeader| h@) =~= Seq::<WlHeader>::empty());
        }
        loop
            invariant
                s == data@,
                valid_utf8(s),
                0 <= line_start <= s.len(),
                !request_line_done ==> path@ == Seq::<u8>::empty() && headers@.len() == 0,
                wl_parse_lines(
                    s,
                    line_start as int,
                    WlState {
                        req: WlModel {
                            method,
                            path: path@,
                            headers: headers@.map_values(|h: HttpHeader| h@),
                        },
                        request_line_done,
                    },
                ) == wl_parse_lines(s, 0, wl_init_state()),
            decreases s.len() - line_start,
        {
            let ghost st = WlState {
                req: WlModel {
                    method,
                    path: path@,
                    headers: headers@.map_values(|h: HttpHeader| h@),
                },
                request_line_done,
            };
            let ghost old_ls = line_start as int;
            let mut j: usize = line_start;
            while j < data.len() && (j + 1 >= data.len() || !(data[j] == CR && data[j + 1] == LF))
                invariant
                    line_start <= j <= s.len(),
                    s == data@,
                    find_crlf(s, line_start as int) == find_crlf(s, j as int),
                decreases s.len() - j,
            {
                proof {
                    assert(find_crlf(s, j as int) == find_crlf(s, j + 1));
                }
                j += 1;
            }
            if j >= data.len() || j + 1 >= data.len() {
                proof {
                    assert(find_crlf(s, j as int) is None);
                }
                if path.len() == 0 {
                    return Err(HTTPError::ProtocolError("malformed HTTP request"));
                }
                let q = HttpRequest { method, path, headers };
                proof {
                    assert(wl_parse_lines(s, line_start as int, st) =~= WlParsed::Parsed(q@));
                }
                return Ok(q);
            }
            proof {
                assert(find_crlf(s, line_start as int) == Some(j as int));
            }
            let line = vstd::slice::slice_subrange(data, line_start, j);
            if !request_line_done {
                let first_sp = find_byte_exec(line, SP, 0);
                let method_word = match first_sp {
                    Some(k) => vstd::slice::slice_subrange(line, 0, k),
                    None => line,
                };
                proof {
                    assert(method_word@ =~= first_word(line@));
                }
                match HttpMethod::parse(method_word) {
                    Err(_) => {
                        proof {
                            assert(wl_parse_lines(s, line_start as int, st)
                                == WlParsed::BadMethod);
                        }
                        return Err(HTTPError::ProtocolError("unknown http method"));
                    },
                    Ok(m) => {
                        method = m;
                    },
                }
                if let Some(k) = first_sp {
                    let rest = vstd::slice::slice_subrange(line, k + 1, line.len());
                    let path_word = match find_byte_exec(rest, SP, 0) {
                        Some(k2) => vstd::slice::slice_subrange(rest, 0, k2),
                        None => rest,
                    };
                    proof {
                        assert(path_word@ =~= second_word(line@));
                    }
                    path = vstd::slice::slice_to_vec(path_word);
                } else {
                    proof {
                        assert(second_word(line@) =~= Seq::<u8>::empty());
                        assert(path@ =~= second_word(line@));
                    }
                }
                request_line_done = true;
                proof {
                    let st2 = WlState {
                        req: WlModel {
                            method,
                            path: path@,
                            headers: headers@.map_values(|h: HttpHeader| h@),
                        },
                        request_line_done,
                    };
                    assert(wl_apply_request_line(line@, st) =~= Result::<
                        WlState,
                        WlParsed,
                    >::Ok(st2));
                }
            } else {
                match find_byte_exec(line, COLON, 0) {
                    None => {
                        proof {
                            assert(wl_apply_header(line@, st) == Result::<
                                WlState,
                                WlParsed,
                            >::Ok(st));
                        }
                    },
                    Some(k) => {
                        if headers.len() < WL_MAX_HEADERS {
                            let name = trim_bytes(vstd::slice::slice_subrange(line, 0, k));
                            let value = trim_bytes(
                                vstd::slice::slice_subrange(line, k + 1, line.len()),
                            );
                            proof {
                                assert(name@ =~= trim_spec(line@.take(k as int)));
                                assert(value@ =~= trim_spec(
                                    line@.subrange(k + 1, line@.len() as int),
                                ));
                            }
                            let ghost hpre = headers@.map_values(|h: HttpHeader| h@);
                            match crate::header::RequestHeader::parse(
                                name.as_slice(),
                                value.as_slice(),
                            ) {
                                Err(_) => {
                                    proof {
                                        assert(wl_parse_lines(s, line_start as int, st)
                                            == WlParsed::BadContentLength);
                                    }
                                    return Err(
                                        HTTPError::ProtocolError("invalid content-length"),
                                    );
                                },
                                Ok(crate::header::RequestHeader::ContentLength(n)) => {
                                    headers.push(HttpHeader::ContentLength(n as u64));
                                    proof {
                                        assert(headers@.map_values(|h: HttpHeader| h@)
                                            =~= hpre.push(
                                            WlHeader::ContentLength(
                                                crate::ascii::digits_val(value@) as u64,
                                            ),
                                        ));
                                    }
                                },
                                Ok(crate::header::RequestHeader::Upgrade(v)) => {
                                    headers.push(HttpHeader::Upgrade(v));
                                    proof {
                                        assert(headers@.map_values(|h: HttpHeader| h@)
                                            =~= hpre.push(WlHeader::Upgrade(value@)));
                                    }
                                },
                                Ok(crate::header::RequestHeader::SecWebSocketKey(v)) => {
                                    headers.push(HttpHeader::SecWebSocketKey(v));
                                    proof {
                                        assert(headers@.map_values(|h: HttpHeader| h@)
                                            =~= hpre.push(WlHeader::SecWebSocketKey(value@)));
                                    }
                                },
                                Ok(_) => {},
                            }
                        }
                        proof {
                            let st2 = WlState {
                                req: WlModel {
                                    method,
                                    path: path@,
                                    headers: headers@.map_values(|h: HttpHeader| h@),
                                },
                                request_line_done,
                            };
                            assert(wl_apply_header(line@, st) =~= Result::<
                                WlState,
                                WlParsed,
                            >::Ok(st2));
                        }
                    },
                }
            }
            line_start = j + 2;
            proof {
                let stn = WlState {
                    req: WlModel {
                        method,
                        path: path@,
                        headers: headers@.map_values(|h: HttpHeader| h@),
                    },
                    request_line_done,
                };
                assert(wl_parse_lines(s, old_ls, st) == wl_parse_lines(
                    s,
                    line_start as int,
                    stn,
                ));
            }
        }
    }

    /// The declared content length: the first retained Content-Length
    /// header, or zero.
    pub fn content_len(&self) -> (r: u64)
        ensures
            r == spec_content_len(self@.headers),
    {
        proof {
            assert(self@.headers.subrange(0, self@.headers.len() as int) =~= self@.headers);
        }
        let mut i: usize = 0;
        while i < self.headers.len()
            invariant
                0 <= i <= self.headers@.len(),
                self@.headers.len() == self.headers@.len(),
                spec_content_len(self@.headers) == spec_content_len(
                    self@.headers.subrange(i as int, self@.headers.len() as int),
                ),
            decreases self.headers@.len() - i,
        {
            proof {
                let tail = self@.headers.subrange(i as int, self@.headers.len() as int);
                assert(tail[0] == self@.headers[i as int]);
                assert(tail.drop_first() =~= self@.headers.subrange(
                    i + 1,
                    self@.headers.len() as int,
                ));
            }
            if let HttpHeader::ContentLength(n) = &self.headers[i] {
                return *n;
            }
            i += 1;
        }
        proof {
            assert(self@.headers.subrange(i as int, self@.headers.len() as int).len() == 0);
        }
        0
    }

    /// The first retained Upgrade or Sec-WebSocket-Key value for that header
    /// name; this front end looks nothing else up.
    pub open spec fn spec_get_header(headers: Seq<WlHeader>, want_key: bool) -> Option<Seq<u8>>
        decreases headers.len(),
    {
        if headers.len() == 0 {
            None
        } else {
            match headers[0] {
                WlHeader::Upgrade(v) => if !want_key {
                    Some(v)
                } else {
                    Self::spec_get_header(headers.drop_first(), want_key)
                },
                WlHeader::SecWebSocketKey(v) => if want_key {
                    Some(v)
                } else {
                    Self::spec_get_header(headers.drop_first(), want_key)
                },
                _ => Self::spec_get_header(headers.drop_first(), want_key),
            }
        }
    }

    /// Looks up the value of the Upgrade or Sec-WebSocket-Key header by
    /// name; any other name finds nothing.
    pub fn get_header(&self, name: &str) -> (r: Option<&Vec<u8>>)
        ensures
            ({
                let by_name = if name.spec_bytes() == "Sec-WebSocket-Key".spec_bytes() {
                    Self::spec_get_header(self@.headers, true)
                } else if name.spec_bytes() == "Upgrade".spec_bytes() {
                    Self::spec_get_header(self@.headers, false)
                } else {
                    None
                };
                match r {
                    Some(v) => by_name == Some(v@),
                    None => by_name is None,
                }
            }),
    {
        let want_key: bool;
        if crate::ascii::bytes_eq(name.as_bytes(), "Sec-WebSocket-Key".as_bytes()) {
            want_key = true;
        } else if crate::ascii::bytes_eq(name.as_bytes(), "Upgrade".as_bytes()) {
            want_key = false;
        } else {
            return None;
        }
        proof {
            assert(self@.headers.subrange(0, self@.headers.len() as int) =~= self@.headers);
        }
        let mut i: usize = 0;
        while i < self.headers.len()
            invariant
                0 <= i <= self.headers@.len(),
                self@.headers.len() == self.headers@.len(),
                want_key ==> name.spec_bytes() == "Sec-WebSocket-Key".spec_bytes(),
                !want_key ==> name.spec_bytes() == "Upgrade".spec_bytes() && name.spec_bytes()
                    != "Sec-WebSocket-Key".spec_bytes(),
                Self::spec_get_header(self@.headers, want_key) == Self::spec_get_header(
                    self@.headers.subrange(i as int, self@.headers.len() as int),
                    want_key,
                ),
            decreases self.headers@.len() - i,
        {
            proof {
                let tail = self@.headers.subrange(i as int, self@.headers.len() as int);
                assert(tail[0] == self@.headers[i as int]);
                assert(tail.drop_first() =~= self@.headers.subrange(
                    i + 1,
                    self@.headers.len() as int,
                ));
            }
            match &self.headers[i] {
                HttpHeader::Upgrade(v) => {
                    if !want_key {
                        proof {
                            let tail = self@.headers.subrange(
                                i as int,
                                self@.headers.len() as int,
                            );
                            assert(self@.headers[i as int] == WlHeader::Upgrade(v@));
                            assert(tail[0] == WlHeader::Upgrade(v@));
                            assert(Self::spec_get_header(tail, want_key) == Some(v@));
                        }
                        return Some(v);
                    }
                },
                HttpHeader::SecWebSocketKey(v) => {
                    if want_key {
                        proof {
                            let tail = self@.headers.subrange(
                                i as int,
                                self@.headers.len() as int,
                            );
                            assert(self@.headers[i as int] == WlHeader::SecWebSocketKey(v@));
                            assert(tail[0] == WlHeader::SecWebSocketKey(v@));
                            assert(Self::spec_get_header(tail, want_key) == Some(v@));
                        }
                        return Some(v);
                    }
                },
                _ => {},
            }
            i += 1;
        }
        proof {
            assert(self@.headers.subrange(i as int, self@.headers.len() as int).len() == 0);
        }
        None
    }
}


// ---------------------------------------------------------------------------
// The setter-driven response builder
// ---------------------------------------------------------------------------

/// An arbitrary tag for each header variant, used to match headers of the
/// same kind when one replaces another.
pub open spec fn wl_kind(h: WlHeader) -> int {
    match h {
        WlHeader::ContentType(_) => 0,
        WlHeader::ContentLength(_) => 1,
        WlHeader::Server(_) => 2,
        WlHeader::Upgrade(_) => 3,
        WlHeader::SecWebSocketKey(_) => 4,
        WlHeader::SecWebSocketAccept(_) => 5,
        WlHeader::Other(_, _) => 6,
        WlHeader::Null => 7,
    }
}

/// Whether adding `h` over existing header `e` replaces it: the same
/// variant, except that two raw headers replace only when their names match.
pub open spec fn wl_replaces(e: WlHeader, h: WlHeader) -> bool {
    match (e, h) {
        (WlHeader::Other(k1, _), WlHeader::Other(k2, _)) => k1 == k2,
        _ => wl_kind(e) == wl_kind(h),
    }
}

/// Where an extra header lands: the first slot holding a header of the same
/// kind is replaced; otherwise the first free slot takes it; with neither,
/// the add is refused.
pub open spec fn wl_add_extra(
    slots: Seq<Option<WlHeader>>,
    h: WlHeader,
    i: int,
    free: Option<int>,
) -> Option<Seq<Option<WlHeader>>>
    decreases slots.len() - i,
    when 0 <= i <= slots.len()
{
    if i >= slots.len() {
        match free {
            Some(j) => Some(slots.update(j, Some(h))),
            None => None,
        }
    } else {
        match slots[i] {
            Some(e) => if wl_replaces(e, h) {
                Some(slots.update(i, Some(h)))
            } else {
                wl_add_extra(slots, h, i + 1, free)
            },
            None => wl_add_extra(
                slots,
                h,
                i + 1,
                if free is None {
                    Some(i)
                } else {
                    free
                },
            ),
        }
    }
}

/// The wire bytes of a response header; a zero Content-Length writes
/// nothing, and a header that has no place in a response serializes to
/// nothing here because `wl_serializable` refuses it first.
pub open spec fn wl_header_bytes(h: WlHeader) -> Seq<u8> {
    match h {
        WlHeader::ContentType(v) => named_header("Content-Type".spec_bytes(), v),
        WlHeader::ContentLength(n) => if n == 0 {
            Seq::empty()
        } else {
            named_header("Content-Length".spec_bytes(), crate::ascii::dec_bytes(n as int))
        },
        WlHeader::Server(v) => named_header("Server".spec_bytes(), v),
        WlHeader::SecWebSocketAccept(v) => named_header("Sec-WebSocket-Accept".spec_bytes(), v),
        WlHeader::Other(k, v) => named_header(k, v),
        _ => Seq::empty(),
    }
}

/// Whether a header may stand in a response.
pub open spec fn wl_serializable(h: WlHeader) -> bool {
    match h {
        WlHeader::ContentType(_) => true,
        WlHeader::ContentLength(_) => true,
        WlHeader::Server(_) => true,
        WlHeader::SecWebSocketAccept(_) => true,
        WlHeader::Other(_, _) => true,
        _ => false,
    }
}

/// The wire bytes of the extra-header slots, in order.
pub open spec fn wl_extras_bytes(slots: Seq<Option<WlHeader>>) -> Seq<u8>
    decreases slots.len(),
{
    if slots.len() == 0 {
        Seq::empty()
    } else {
        (match slots[0] {
            Some(h) => wl_header_bytes(h),
            None => Seq::empty(),
        }) + wl_extras_bytes(slots.drop_first())
    }
}

pub open spec fn wl_extras_serializable(slots: Seq<Option<WlHeader>>) -> bool {
    forall|i: int| 0 <= i < slots.len() ==> match #[trigger] slots[i] {
        Some(h) => wl_serializable(h),
        None => true,
    }
}

/// A response under construction: a status and the fixed headers, set
/// through setters, serialized in one piece at the end.
#[derive(Debug)]
pub struct HttpResponse<const MAX_EXTRA_HEADERS: usize> {
    status_code: HttpStatusCode,
    server: Vec<u8>,
    content_type: Vec<u8>,
    content_length: u64,
    extra_headers: Vec<Option<HttpHeader>>,
}

impl<const MAX_EXTRA_HEADERS: usize> HttpResponse<MAX_EXTRA_HEADERS> {
    pub closed spec fn spec_status(&self) -> HttpStatusCode {
        self.status_code
    }

    pub closed spec fn spec_server(&self) -> Seq<u8> {
        self.server@
    }

    pub closed spec fn spec_content_type(&self) -> Seq<u8> {
        self.content_type@
    }

    pub closed spec fn spec_content_length(&self) -> u64 {
        self.content_length
    }

    pub closed spec fn spec_extras(&self) -> Seq<Option<WlHeader>> {
        self.extra_headers@.map_values(|h: Option<HttpHeader>| match h {
            Some(x) => Some(x@),
            None => None,
        })
    }

    /// All the extra-header slots exist.
    pub open spec fn wf(&self) -> bool {
        self.spec_extras().len() == MAX_EXTRA_HEADERS
    }

    /// A response with the defaults: 200, the stock server name, an HTML
    /// content type, no body and no extra headers.
    pub fn new() -> (r: HttpResponse<MAX_EXTRA_HEADERS>)
        ensures
            r.wf(),
            r.spec_status() == HttpStatusCode::OK,
            r.spec_server() == "RustServer".spec_bytes(),
            r.spec_content_type() == "text/html".spec_bytes(),
            r.spec_content_length() == 0,
            forall|i: int| 0 <= i < MAX_EXTRA_HEADERS ==> #[trigger] r.spec_extras()[i] is None,
    {
        let mut extra_headers: Vec<Option<HttpHeader>> = Vec::new();
        let mut i: usize = 0;
        while i < MAX_EXTRA_HEADERS
            invariant
                0 <= i <= MAX_EXTRA_HEADERS,
                extra_headers@.len() == i,
                forall|j: int| 0 <= j < i ==> #[trigger] extra_headers@[j] is None,
            decreases MAX_EXTRA_HEADERS - i,
        {
            extra_headers.push(None);
            i += 1;
        }
        HttpResponse {
            status_code: HttpStatusCode::OK,
            server: vstd::slice::slice_to_vec("RustServer".as_bytes()),
            content_type: vstd::slice::slice_to_vec("text/html".as_bytes()),
            content_length: 0,
            extra_headers,
        }
    }

    /// The status the response will carry.
    pub fn get_status(&self) -> (r: HttpStatusCode)
        ensures
            r == self.spec_status(),
    {
        self.status_code
    }

    /// Replaces the status.
    pub fn set_status(&mut self, status: HttpStatusCode)
        ensures
            final(self).spec_status() == status,
            final(self).spec_server() == old(self).spec_server(),
            final(self).spec_content_type() == old(self).spec_content_type(),
            final(self).spec_content_length() == old(self).spec_content_length(),
            final(self).spec_extras() == old(self).spec_extras(),
    {
        self.status_code = status;
    }

    /// Replaces the Server header value.
    pub fn set_server(&mut self, server: &[u8])
        ensures
            final(self).spec_server() == server@,
            final(self).spec_status() == old(self).spec_status(),
            final(self).spec_content_type() == old(self).spec_content_type(),
            final(self).spec_content_length() == old(self).spec_content_length(),
            final(self).spec_extras() == old(self).spec_extras(),
    {
        self.server = vstd::slice::slice_to_vec(server);
    }

    /// Replaces the Content-Type header value.
    pub fn set_content_type(&mut self, ct: &[u8])
        ensures
            final(self).spec_content_type() == ct@,
            final(self).spec_status() == old(self).spec_status(),
            final(self).spec_server() == old(self).spec_server(),
            final(self).spec_content_length() == old(self).spec_content_length(),
            final(self).spec_extras() == old(self).spec_extras(),
    {
        self.content_type = vstd::slice::slice_to_vec(ct);
    }

    /// Adds an extra header: one of the same kind (a raw header of the same
    /// name) is replaced, else the first free slot takes it, and with every
    /// slot taken the add is refused.
    pub fn add_extra_header(&mut self, header: HttpHeader) -> (r: Result<(), HTTPError>)
        requires
            old(self).wf(),
        ensures
            final(self).wf(),
            final(self).spec_status() == old(self).spec_status(),
            final(self).spec_server() == old(self).spec_server(),
            final(self).spec_content_type() == old(self).spec_content_type(),
            final(self).spec_content_length() == old(self).spec_content_length(),
            match wl_add_extra(old(self).spec_extras(), header@, 0, None) {
                Some(slots) => r is Ok && final(self).spec_extras() == slots,
                None => r matches Err(HTTPError::ExtraHeadersExceeded)
                    && final(self).spec_extras() == old(self).spec_extras(),
            },
    {
        let ghost h = header@;
        let mut slot: Option<usize> = None;
        let mut i: usize = 0;
        let n = self.extra_headers.len();
        while i < n
            invariant
                0 <= i <= n,
                old(self).wf(),
                n == old(self).spec_extras().len(),
                *self == *old(self),
                slot matches Some(j) ==> j < i && old(self).spec_extras()[j as int] is None,
                h == header@,
                wl_add_extra(old(self).spec_extras(), h, 0, None) == wl_add_extra(
                    old(self).spec_extras(),
                    h,
                    i as int,
                    match slot {
                        Some(j) => Some(j as int),
                        None => None,
                    },
                ),
            decreases n - i,
        {
            let replace = match &self.extra_headers[i] {
                Some(existing) => existing.matches_kind(&header),
                None => {
                    if slot.is_none() {
                        slot = Some(i);
                    }
                    false
                },
            };
            if replace {
                self.extra_headers.set(i, Some(header));
                proof {
                    assert(final(self).spec_extras() =~= old(self).spec_extras().update(
                        i as int,
                        Some(h),
                    ));
                }
                return Ok(());
            }
            i += 1;
        }
        if let Some(j) = slot {
            self.extra_headers.set(j, Some(header));
            proof {
                assert(final(self).spec_extras() =~= old(self).spec_extras().update(
                    j as int,
                    Some(h),
                ));
            }
            return Ok(());
        }
        Err(HTTPError::ExtraHeadersExceeded)
    }

    /// Serializes the response head: the status line, the Server and
    /// Content-Type headers, a non-zero Content-Length, the extra headers in
    /// slot order, and the blank line. A header that has no place in a
    /// response, or a numeric status outside 100..=599, is refused.
    pub fn to_bytes(&self) -> (r: Result<Vec<u8>, HTTPError>)
        ensures
            r is Ok <==> crate::response::status_valid(self.spec_status())
                && wl_extras_serializable(self.spec_extras()),
            r matches Ok(bytes) ==> bytes@ == crate::response::status_line_bytes(
                self.spec_status(),
            ) + named_header("Server".spec_bytes(), self.spec_server()) + named_header(
                "Content-Type".spec_bytes(),
                self.spec_content_type(),
            ) + wl_header_bytes(WlHeader::ContentLength(self.spec_content_length()))
                + wl_extras_bytes(self.spec_extras()) + "\r\n".spec_bytes(),
    {
        let mut out: Vec<u8> = Vec::new();
        match self.status_code.write_to(&mut out) {
            Ok(()) => {},
            Err(e) => {
                return Err(e);
            },
        }
        write_wl_named(&mut out, "Server", self.server.as_slice());
        write_wl_named(&mut out, "Content-Type", self.content_type.as_slice());
        if self.content_length != 0 {
            let digits = crate::ascii::AsciiInt::from_u64(self.content_length);
            write_wl_named(&mut out, "Content-Length", digits.as_bytes());
        }
        let ghost head = out@;
        let mut i: usize = 0;
        let n = self.extra_headers.len();
        while i < n
            invariant
                0 <= i <= n,
                n == self.spec_extras().len(),
                wl_extras_serializable(self.spec_extras().subrange(0, i as int)),
                out@ == head + wl_extras_bytes(self.spec_extras().subrange(0, i as int)),
            decreases n - i,
        {
            proof {
                lemma_wl_extras_snoc(self.spec_extras(), i as int);
            }
            match &self.extra_headers[i] {
                None => {},
                Some(h) => {
                    match h {
                        HttpHeader::ContentType(v) => write_wl_named(
                            &mut out,
                            "Content-Type",
                            v.as_slice(),
                        ),
                        HttpHeader::ContentLength(cl) => {
                            if *cl != 0 {
                                let digits = crate::ascii::AsciiInt::from_u64(*cl);
                                write_wl_named(&mut out, "Content-Length", digits.as_bytes());
                            }
                        },
                        HttpHeader::Server(v) => write_wl_named(&mut out, "Server", v.as_slice()),
                        HttpHeader::SecWebSocketAccept(v) => write_wl_named(
                            &mut out,
                            "Sec-WebSocket-Accept",
                            v.as_slice(),
                        ),
                        HttpHeader::Other(k, v) => {
                            out.extend_from_slice(k.as_slice());
                            out.extend_from_slice(": ".as_bytes());
                            out.extend_from_slice(v.as_slice());
                            out.extend_from_slice("\r\n".as_bytes());
                        },
                        _ => {
                            return Err(HTTPError::ProtocolError("invalid response header"));
                        },
                    }
                    proof {
                        assert(out@ =~= head + (wl_extras_bytes(
                            self.spec_extras().subrange(0, i as int),
                        ) + wl_header_bytes(self.spec_extras()[i as int]->Some_0)));
                    }
                },
            }
            proof {
                assert(out@ =~= head + wl_extras_bytes(self.spec_extras().subrange(0, i + 1)));
                assert(wl_extras_serializable(self.spec_extras().subrange(0, i + 1)));
            }
            i += 1;
        }
        out.extend_from_slice("\r\n".as_bytes());
        proof {
            assert(self.spec_extras().subrange(0, n as int) =~= self.spec_extras());
            assert(out@ =~= crate::response::status_line_bytes(self.spec_status())
                + named_header("Server".spec_bytes(), self.spec_server()) + named_header(
                "Content-Type".spec_bytes(),
                self.spec_content_type(),
            ) + wl_header_bytes(WlHeader::ContentLength(self.spec_content_length()))
                + wl_extras_bytes(self.spec_extras()) + "\r\n".spec_bytes());
        }
        Ok(out)
    }

    /// Serializes the head with a Content-Length for `body` and appends the
    /// body: the wire form of a reply carrying a document.
    pub fn to_bytes_with_body(&mut self, body: &[u8]) -> (r: Result<Vec<u8>, HTTPError>)
        ensures
            r is Ok <==> crate::response::status_valid(old(self).spec_status())
                && wl_extras_serializable(old(self).spec_extras()),
            r matches Ok(bytes) ==> bytes@ == crate::response::status_line_bytes(
                old(self).spec_status(),
            ) + named_header("Server".spec_bytes(), old(self).spec_server()) + named_header(
                "Content-Type".spec_bytes(),
                old(self).spec_content_type(),
            ) + wl_header_bytes(WlHeader::ContentLength(body@.len() as u64))
                + wl_extras_bytes(old(self).spec_extras()) + "\r\n".spec_bytes() + body@,
    {
        self.content_length = body.len() as u64;
        let head = self.to_bytes();
        match head {
            Ok(mut bytes) => {
                bytes.extend_from_slice(body);
                Ok(bytes)
            },
            Err(e) => Err(e),
        }
    }
}

/// One serialized extra slot extends the serialized prefix.
proof fn lemma_wl_extras_snoc(slots: Seq<Option<WlHeader>>, i: int)
    requires
        0 <= i < slots.len(),
    ensures
        wl_extras_bytes(slots.subrange(0, i + 1)) =~= wl_extras_bytes(slots.subrange(0, i))
            + (match slots[i] {
            Some(h) => wl_header_bytes(h),
            None => Seq::<u8>::empty(),
        }),
    decreases i,
{
    let pre = slots.subrange(0, i + 1);
    assert(pre =~= slots.subrange(0, i).push(slots[i]));
    lemma_wl_extras_tail(pre, slots.subrange(0, i), slots[i]);
}

/// Serialization distributes over appending one slot at the back.
proof fn lemma_wl_extras_tail(whole: Seq<Option<WlHeader>>, front: Seq<Option<WlHeader>>, last: Option<WlHeader>)
    requires
        whole =~= front.push(last),
    ensures
        wl_extras_bytes(whole) =~= wl_extras_bytes(front) + (match last {
            Some(h) => wl_header_bytes(h),
            None => Seq::<u8>::empty(),
        }),
    decreases front.len(),
{
    assert(whole.len() == front.len() + 1);
    if front.len() == 0 {
        assert(whole[0] == last);
        assert(whole.drop_first() =~= Seq::<Option<WlHeader>>::empty());
        assert(wl_extras_bytes(whole.drop_first()) == Seq::<u8>::empty());
        assert(wl_extras_bytes(whole) == (match whole[0] {
            Some(h) => wl_header_bytes(h),
            None => Seq::<u8>::empty(),
        }) + wl_extras_bytes(whole.drop_first()));
        assert(wl_extras_bytes(front) == Seq::<u8>::empty());
    } else {
        assert(whole[0] == front[0]);
        assert(whole.drop_first() =~= front.drop_first().push(last));
        lemma_wl_extras_tail(whole.drop_first(), front.drop_first(), last);
        assert(wl_extras_bytes(whole) == (match whole[0] {
            Some(h) => wl_header_bytes(h),
            None => Seq::<u8>::empty(),
        }) + wl_extras_bytes(whole.drop_first()));
        assert(wl_extras_bytes(front) == (match front[0] {
            Some(h) => wl_header_bytes(h),
            None => Seq::<u8>::empty(),
        }) + wl_extras_bytes(front.drop_first()));
    }
}

/// Appends `name: value` and CRLF.
fn write_wl_named(out: &mut Vec<u8>, name: &str, value: &[u8])
    ensures
        final(out)@ == old(out)@ + named_header(name.spec_bytes(), value@),
{
    out.extend_from_slice(name.as_bytes());
    out.extend_from_slice(": ".as_bytes());
    out.extend_from_slice(value);
    out.extend_from_slice("\r\n".as_bytes());
    proof {
        assert(out@ =~= old(out)@ + named_header(name.spec_bytes(), value@));
    }
}

impl HttpHeader {
    /// Whether adding `other` would replace this header: the same variant,
    /// raw headers only when their names match.
    pub fn matches_kind(&self, other: &HttpHeader) -> (r: bool)
        ensures
            r == wl_replaces(self@, other@),
    {
        match (self, other) {
            (HttpHeader::Other(k1, _), HttpHeader::Other(k2, _)) => crate::ascii::bytes_eq(
                k1.as_slice(),
                k2.as_slice(),
            ),
            (HttpHeader::ContentType(_), HttpHeader::ContentType(_)) => true,
            (HttpHeader::ContentLength(_), HttpHeader::ContentLength(_)) => true,
            (HttpHeader::Server(_), HttpHeader::Server(_)) => true,
            (HttpHeader::Upgrade(_), HttpHeader::Upgrade(_)) => true,
            (HttpHeader::SecWebSocketKey(_), HttpHeader::SecWebSocketKey(_)) => true,
            (HttpHeader::SecWebSocketAccept(_), HttpHeader::SecWebSocketAccept(_)) => true,
            (HttpHeader::Null, HttpHeader::Null) => true,
            _ => false,
        }
    }
}

} // verus!
