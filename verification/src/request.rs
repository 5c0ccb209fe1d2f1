//! The incremental HTTP/1.1 request parser. A buffer is parsed from scratch
//! each time it grows; the parse either yields a structured request, asks for
//! more bytes, or rejects the connection with a protocol error.

use vstd::prelude::*;
use vstd::string::StringSliceAdditionalSpecFns;
use vstd::utf8::valid_utf8;

use crate::ascii::{find_byte, find_byte_exec, trim_spec, trim_bytes, utf8_from_bytes, COLON, CR, LF, SP};
use crate::error::HTTPError;
use crate::header::{kind_of, content_length_ok, header_is, spec_matches_query, RequestHeader};

verus! {

#[derive(Clone, Copy, Debug, PartialEq, Eq, Structural)]
pub enum HttpMethod {
    GET,
    POST,
    PUT,
    PATCH,
    DELETE,
    OPTIONS,
    HEAD,
}

/// Which method token a request line carries.
pub open spec fn spec_method(w: Seq<u8>) -> Option<HttpMethod> {
    if w == "GET".spec_bytes() {
        Some(HttpMethod::GET)
    } else if w == "POST".spec_bytes() {
        Some(HttpMethod::POST)
    } else if w == "PUT".spec_bytes() {
        Some(HttpMethod::PUT)
    } else if w == "PATCH".spec_bytes() {
        Some(HttpMethod::PATCH)
    } else if w == "DELETE".spec_bytes() {
        Some(HttpMethod::DELETE)
    } else if w == "OPTIONS".spec_bytes() {
        Some(HttpMethod::OPTIONS)
    } else if w == "HEAD".spec_bytes() {
        Some(HttpMethod::HEAD)
    } else {
        None
    }
}

impl HttpMethod {
    /// Recognizes a method token.
    pub fn parse(word: &[u8]) -> (r: Result<HttpMethod, &'static str>)
        ensures
            r matches Ok(m) ==> spec_method(word@) == Some(m),
            r is Err <==> spec_method(word@) is None,
    {
        if crate::ascii::bytes_eq(word, "GET".as_bytes()) {
            Ok(HttpMethod::GET)
        } else if crate::ascii::bytes_eq(word, "POST".as_bytes()) {
            Ok(HttpMethod::POST)
        } else if crate::ascii::bytes_eq(word, "PUT".as_bytes()) {
            Ok(HttpMethod::PUT)
        } else if crate::ascii::bytes_eq(word, "PATCH".as_bytes()) {
            Ok(HttpMethod::PATCH)
        } else if crate::ascii::bytes_eq(word, "DELETE".as_bytes()) {
            Ok(HttpMethod::DELETE)
        } else if crate::ascii::bytes_eq(word, "OPTIONS".as_bytes()) {
            Ok(HttpMethod::OPTIONS)
        } else if crate::ascii::bytes_eq(word, "HEAD".as_bytes()) {
            Ok(HttpMethod::HEAD)
        } else {
            Err("unknown http method")
        }
    }
}

/// How much of a declared body is present.
pub enum RequestBody {
    /// All declared bytes are here.
    Complete(Vec<u8>),
    /// This many bytes are still missing, and these are here.
    Partial(usize, Vec<u8>),
    /// The request declared no body.
    Absent,
}

/// A parsed request. Every byte field is a copy out of the receive buffer.
#[derive(Debug)]
pub struct HttpRequest {
    pub method: HttpMethod,
    pub path: Vec<u8>,
    pub host: Vec<u8>,
    pub content_type: Option<Vec<u8>>,
    pub user_agent: Option<Vec<u8>>,
    pub content_length: usize,
    pub body: Option<Vec<u8>>,
    pub header_slice: Option<Vec<u8>>,
}

/// The mathematical shape of a parsed request.
#[verifier::ext_equal]
pub ghost struct ReqModel {
    pub method: HttpMethod,
    pub path: Seq<u8>,
    pub host: Seq<u8>,
    pub content_type: Option<Seq<u8>>,
    pub user_agent: Option<Seq<u8>>,
    pub content_length: usize,
    pub body: Option<Seq<u8>>,
    pub header_slice: Option<Seq<u8>>,
}

impl View for HttpRequest {
    type V = ReqModel;

    open spec fn view(&self) -> ReqModel {
        ReqModel {
            method: self.method,
            path: self.path@,
            host: self.host@,
            content_type: match self.content_type {
                Some(ref v) => Some(v@),
                None => None,
            },
            user_agent: match self.user_agent {
                Some(ref v) => Some(v@),
                None => None,
            },
            content_length: self.content_length,
            body: match self.body {
                Some(ref v) => Some(v@),
                None => None,
            },
            header_slice: match self.header_slice {
                Some(ref v) => Some(v@),
                None => None,
            },
        }
    }
}

/// The parser's running state: the fields gathered so far, whether the
/// request line has been read, and the extent of the header block.
#[verifier::ext_equal]
pub ghost struct ParseState {
    pub req: ReqModel,
    pub request_line_done: bool,
    pub hs_start: int,
    pub hs_end: int,
}

/// What a parse yields: a request, a wait for more bytes, or one of the
/// distinct protocol rejections.
#[verifier::ext_equal]
pub ghost enum SpecParsed {
    Incomplete,
    BadUtf8,
    BadMethod,
    BadContentLength,
    Malformed,
    Parsed(ReqModel),
}

/// The index of the first CRLF at or after `from`.
pub open spec fn find_crlf(s: Seq<u8>, from: int) -> Option<int>
    decreases s.len() - from,
{
    if from < 0 || from + 2 > s.len() {
        None
    } else if s[from] == 13 && s[from + 1] == 10 {
        Some(from)
    } else {
        find_crlf(s, from + 1)
    }
}

pub proof fn lemma_find_crlf_bounds(s: Seq<u8>, from: int)
    requires
        0 <= from,
    ensures
        match find_crlf(s, from) {
            Some(j) => from <= j && j + 2 <= s.len() && s[j] == 13 && s[j + 1] == 10,
            None => true,
        },
    decreases s.len() - from,
{
    if from + 2 <= s.len() && !(s[from] == 13 && s[from + 1] == 10) {
        lemma_find_crlf_bounds(s, from + 1);
    }
}

/// The first word of a line, up to a space or its end.
pub open spec fn first_word(line: Seq<u8>) -> Seq<u8> {
    match find_byte(line, 32, 0) {
        Some(k) => line.take(k),
        None => line,
    }
}

/// The second word of a line, or empty when there is none.
pub open spec fn second_word(line: Seq<u8>) -> Seq<u8> {
    match find_byte(line, 32, 0) {
        None => Seq::empty(),
        Some(k) => {
            let rest = line.subrange(k + 1, line.len() as int);
            match find_byte(rest, 32, 0) {
                Some(k2) => rest.take(k2),
                None => rest,
            }
        },
    }
}

/// The effect of the request line: the method and the path.
pub open spec fn apply_request_line(line: Seq<u8>, st: ParseState) -> Result<
    ParseState,
    SpecParsed,
> {
    match spec_method(first_word(line)) {
        None => Err(SpecParsed::BadMethod),
        Some(m) => Ok(
            ParseState {
                req: ReqModel { method: m, path: second_word(line), ..st.req },
                request_line_done: true,
                ..st
            },
        ),
    }
}

/// The effect of one header line. A line without a colon is ignored; only
/// the four fields the request records are updated, and a bad
/// `Content-Length` rejects the request.
pub open spec fn apply_header_line(line: Seq<u8>, st: ParseState) -> Result<
    ParseState,
    SpecParsed,
> {
    match find_byte(line, 58, 0) {
        None => Ok(st),
        Some(k) => {
            let name = trim_spec(line.take(k));
            let value = trim_spec(line.subrange(k + 1, line.len() as int));
            let kind = kind_of(name);
            if kind == 13 {
                if content_length_ok(value) {
                    Ok(
                        ParseState {
                            req: ReqModel {
                                content_length: crate::ascii::digits_val(value) as usize,
                                ..st.req
                            },
                            ..st
                        },
                    )
                } else {
                    Err(SpecParsed::BadContentLength)
                }
            } else if kind == 0 {
                Ok(ParseState { req: ReqModel { host: value, ..st.req }, ..st })
            } else if kind == 15 {
                Ok(ParseState { req: ReqModel { content_type: Some(value), ..st.req }, ..st })
            } else if kind == 1 {
                Ok(ParseState { req: ReqModel { user_agent: Some(value), ..st.req }, ..st })
            } else {
                Ok(st)
            }
        },
    }
}

/// The end of the headers: claim the declared body bytes, record the header
/// block, and reject a request whose path never appeared.
pub open spec fn finalize(s: Seq<u8>, end: int, st: ParseState) -> SpecParsed {
    let cl = st.req.content_length;
    if cl > 0 && s.len() < end + cl {
        SpecParsed::Incomplete
    } else {
        let body = if cl > 0 {
            Some(s.subrange(end, end + cl))
        } else {
            None
        };
        let hs = if st.hs_start != 0 && st.hs_end != 0 {
            Some(s.subrange(st.hs_start, st.hs_end))
        } else {
            None
        };
        if st.req.path.len() == 0 {
            SpecParsed::Malformed
        } else {
            SpecParsed::Parsed(ReqModel { body: body, header_slice: hs, ..st.req })
        }
    }
}

/// Walks the buffer line by line: the request line, then header lines, until
/// the empty line that ends the headers; without one the request is
/// incomplete.
pub open spec fn parse_lines(s: Seq<u8>, line_start: int, st: ParseState) -> SpecParsed
    decreases s.len() - line_start,
    when 0 <= line_start <= s.len()
    via parse_lines_decreases
{
    match find_crlf(s, line_start) {
        None => SpecParsed::Incomplete,
        Some(j) => {
            if j == line_start {
                finalize(s, j + 2, st)
            } else {
                let line = s.subrange(line_start, j);
                if !st.request_line_done {
                    match apply_request_line(line, st) {
                        Err(e) => e,
                        Ok(st2) => parse_lines(s, j + 2, st2),
                    }
                } else {
                    match apply_header_line(line, st) {
                        Err(e) => e,
                        Ok(st2) => parse_lines(
                            s,
                            j + 2,
                            ParseState {
                                hs_start: if st2.hs_start == 0 {
                                    line_start
                                } else {
                                    st2.hs_start
                                },
                                hs_end: j + 2,
                                ..st2
                            },
                        ),
                    }
                }
            }
        },
    }
}

#[via_fn]
proof fn parse_lines_decreases(s: Seq<u8>, line_start: int, st: ParseState) {
    lemma_find_crlf_bounds(s, line_start);
}

/// The parser's starting state: no fields yet, the host "unspecified".
pub open spec fn init_state() -> ParseState {
    ParseState {
        req: ReqModel {
            method: HttpMethod::GET,
            path: Seq::empty(),
            host: "unspecified".spec_bytes(),
            content_type: None,
            user_agent: None,
            content_length: 0,
            body: None,
            header_slice: None,
        },
        request_line_done: false,
        hs_start: 0,
        hs_end: 0,
    }
}

/// What parsing a buffer yields: a cheap early-out below a minimum plausible
/// length, a whole-buffer UTF-8 check, then the line-by-line walk.
pub open spec fn spec_parse(s: Seq<u8>) -> SpecParsed {
    if s.len() < 15 {
        SpecParsed::Incomplete
    } else if !valid_utf8(s) {
        SpecParsed::BadUtf8
    } else {
        parse_lines(s, 0, init_state())
    }
}

impl HttpRequest {
    /// Parses a receive buffer. Re-parsing a grown buffer from scratch is
    /// safe: the parse is a function of the bytes alone.
    #[verifier::rlimit(100)]
    pub fn parse(data: &[u8]) -> (r: Result<HttpRequest, HTTPError>)
        ensures
            r matches Ok(q) ==> spec_parse(data@) == SpecParsed::Parsed(q@),
            r matches Err(e) ==> match e {
                HTTPError::Incomplete => spec_parse(data@) is Incomplete,
                HTTPError::ProtocolError(msg) => (spec_parse(data@) is BadUtf8 && msg@
                    == "http request is not valid utf8"@) || (spec_parse(data@) is BadMethod
                    && msg@ == "unknown http method"@) || (spec_parse(data@) is BadContentLength
                    && msg@ == "invalid content-length"@) || (spec_parse(data@) is Malformed
                    && msg@ == "malformed HTTP request"@),
                _ => false,
            },
    {
        let ghost s = data@;
        if data.len() < 15 {
            return Err(HTTPError::Incomplete);
        }
        if utf8_from_bytes(data).is_none() {
            return Err(HTTPError::ProtocolError("http request is not valid utf8"));
        }

        let mut method = HttpMethod::GET;
        let mut path: Vec<u8> = Vec::new();
        let mut host: Vec<u8> = vstd::slice::slice_to_vec("unspecified".as_bytes());
        let mut content_type: Option<Vec<u8>> = None;
        let mut user_agent: Option<Vec<u8>> = None;
        let mut content_length: usize = 0;
        let mut request_line_done = false;
        let mut hs_start: usize = 0;
        let mut hs_end: usize = 0;
        let mut line_start: usize = 0;

        proof {
            assert(cur_state(
                method,
                path@,
                host@,
                opt_view(&content_type),
                opt_view(&user_agent),
                content_length,
                request_line_done,
                hs_start as int,
                hs_end as int,
            ) =~= init_state());
        }

        loop
            invariant
                s == data@,
                s.len() >= 15,
                valid_utf8(s),
                0 <= line_start <= s.len(),
                hs_start <= hs_end <= line_start,
                !request_line_done ==> path@ == Seq::<u8>::empty(),
                parse_lines(
                    s,
                    line_start as int,
                    cur_state(
                        method,
                        path@,
                        host@,
                        opt_view(&content_type),
                        opt_view(&user_agent),
                        content_length,
                        request_line_done,
                        hs_start as int,
                        hs_end as int,
                    ),
                ) == parse_lines(s, 0, init_state()),
            decreases s.len() - line_start,
        {
            let ghost st = cur_state(
                method,
                path@,
                host@,
                opt_view(&content_type),
                opt_view(&user_agent),
                content_length,
                request_line_done,
                hs_start as int,
                hs_end as int,
            );
            let ghost old_ls = line_start as int;

            // find the next CRLF
            let mut j: usize = line_start;
            while j < data.len() - 1 && !(data[j] == CR && data[j + 1] == LF)
                invariant
                    line_start <= j <= s.len(),
                    s == data@,
                    s.len() >= 15,
                    find_crlf(s, line_start as int) == find_crlf(s, j as int),
                decreases s.len() - j,
            {
                proof {
                    assert(find_crlf(s, j as int) == find_crlf(s, j + 1));
                }
                j += 1;
            }
            if j >= data.len() - 1 {
                proof {
                    assert(find_crlf(s, j as int) is None);
                }
                return Err(HTTPError::Incomplete);
            }
            proof {
                assert(find_crlf(s, line_start as int) == Some(j as int));
            }

            if j == line_start {
                // the empty line: headers are done
                let end = j + 2;
                let body: Option<Vec<u8>>;
                proof {
                    assert(parse_lines(s, line_start as int, st) == finalize(s, end as int, st));
                }
                if content_length > 0 {
                    if data.len() - end < content_length {
                        return Err(HTTPError::Incomplete);
                    }
                    body = Some(crate::ascii::slice_to_vec_u8(data, end, end + content_length));
                } else {
                    body = None;
                }
                let header_slice: Option<Vec<u8>> = if hs_start != 0 && hs_end != 0 {
                    Some(crate::ascii::slice_to_vec_u8(data, hs_start, hs_end))
                } else {
                    None
                };
                if path.len() == 0 {
                    proof {
                        assert(finalize(s, end as int, st) == SpecParsed::Malformed);
                    }
                    return Err(HTTPError::ProtocolError("malformed HTTP request"));
                }
                let q = HttpRequest {
                    method,
                    path,
                    host,
                    content_type,
                    user_agent,
                    content_length,
                    body,
                    header_slice,
                };
                proof {
                    assert(finalize(s, end as int, st) =~= SpecParsed::Parsed(q@));
                }
                return Ok(q);
            }

            let line = vstd::slice::slice_subrange(data, line_start, j);
            if !request_line_done {
                let first_sp = find_byte_exec(line, SP, 0);
                let method_word = match first_sp {
                    Some(k) => vstd::slice::slice_subrange(line, 0, k),
                    None => line,
                };
                proof {
                    assert(method_word@ =~= first_word(line@));
                }
                match HttpMethod::parse(method_word) {
                    Err(_) => {
                        proof {
                            assert(parse_lines(s, line_start as int, st)
                                == SpecParsed::BadMethod);
                        }
                        return Err(HTTPError::ProtocolError("unknown http method"));
                    },
                    Ok(m) => {
                        method = m;
                    },
                }
                if let Some(k) = first_sp {
                    let rest = vstd::slice::slice_subrange(line, k + 1, line.len());
                    let path_word = match find_byte_exec(rest, SP, 0) {
                        Some(k2) => vstd::slice::slice_subrange(rest, 0, k2),
                        None => rest,
                    };
                    proof {
                        assert(path_word@ =~= second_word(line@));
                    }
                    path = vstd::slice::slice_to_vec(path_word);
                } else {
                    proof {
                        assert(second_word(line@) =~= Seq::<u8>::empty());
                        assert(path@ =~= second_word(line@));
                    }
                }
                request_line_done = true;
                proof {
                    let st2 = cur_state(
                        method,
                        path@,
                        host@,
                        opt_view(&content_type),
                        opt_view(&user_agent),
                        content_length,
                        request_line_done,
                        hs_start as int,
                        hs_end as int,
                    );
                    assert(apply_request_line(line@, st) =~= Result::<
                        ParseState,
                        SpecParsed,
                    >::Ok(st2));
                }
            } else {
                match find_byte_exec(line, COLON, 0) {
                    None => {
                        proof {
                            assert(apply_header_line(line@, st) == Result::<
                                ParseState,
                                SpecParsed,
                            >::Ok(st));
                        }
                    },
                    Some(k) => {
                        let name = trim_bytes(vstd::slice::slice_subrange(line, 0, k));
                        let value = trim_bytes(
                            vstd::slice::slice_subrange(line, k + 1, line.len()),
                        );
                        proof {
                            assert(name@ =~= trim_spec(line@.take(k as int)));
                            assert(value@ =~= trim_spec(
                                line@.subrange(k + 1, line@.len() as int),
                            ));
                        }
                        match RequestHeader::parse(name.as_slice(), value.as_slice()) {
                            Err(_) => {
                                proof {
                                    assert(parse_lines(s, line_start as int, st)
                                        == SpecParsed::BadContentLength);
                                }
                                return Err(HTTPError::ProtocolError("invalid content-length"));
                            },
                            Ok(RequestHeader::ContentLength(n)) => {
                                content_length = n;
                            },
                            Ok(RequestHeader::Host(v)) => {
                                host = v;
                            },
                            Ok(RequestHeader::ContentType(v)) => {
                                content_type = Some(v);
                            },
                            Ok(RequestHeader::UserAgent(v)) => {
                                user_agent = Some(v);
                            },
                            Ok(_) => {},
                        }
                        proof {
                            let st2 = cur_state(
                                method,
                                path@,
                                host@,
                                opt_view(&content_type),
                                opt_view(&user_agent),
                                content_length,
                                request_line_done,
                                hs_start as int,
                                hs_end as int,
                            );
                            assert(apply_header_line(line@, st) =~= Result::<
                                ParseState,
                                SpecParsed,
                            >::Ok(st2));
                        }
                    },
                }
                if hs_start == 0 {
                    hs_start = line_start;
                }
                hs_end = j + 2;
            }
            line_start = j + 2;
            proof {
                let stn = cur_state(
                    method,
                    path@,
                    host@,
                    opt_view(&content_type),
                    opt_view(&user_agent),
                    content_length,
                    request_line_done,
                    hs_start as int,
                    hs_end as int,
                );
                assert(parse_lines(s, old_ls, st) == parse_lines(s, line_start as int, stn));
            }
        }
    }
}


/// The position of the first CRLFCRLF at or after `from`.
pub open spec fn find_crlf2(s: Seq<u8>, from: int) -> Option<int>
    decreases s.len() - from,
{
    if from < 0 || from + 4 > s.len() {
        None
    } else if s[from] == 13 && s[from + 1] == 10 && s[from + 2] == 13 && s[from + 3] == 10 {
        Some(from)
    } else {
        find_crlf2(s, from + 1)
    }
}

/// The (trimmed) name and value of a header line, split at its first colon;
/// a line without a colon resolves to nothing.
pub open spec fn spec_resolve_line(line: Seq<u8>) -> Option<(Seq<u8>, Seq<u8>)> {
    match find_byte(line, 58, 0) {
        None => None,
        Some(k) => Some(
            (trim_spec(line.take(k)), trim_spec(line.subrange(k + 1, line.len() as int))),
        ),
    }
}

/// The key a lookup for a raw header carries, and nothing for the named
/// ones.
pub open spec fn query_key(q: RequestHeader) -> Seq<u8> {
    match q {
        RequestHeader::Other(k, _) => k@,
        _ => Seq::empty(),
    }
}

/// Whether a resolved header line answers a lookup for header kind `kind`:
/// the same kind, raw headers by name against `okey` ignoring ASCII case; a
/// `Content-Length` line whose value is not a number answers nothing.
pub open spec fn nv_matches_query(kind: int, okey: Seq<u8>, name: Seq<u8>, value: Seq<u8>) -> bool {
    if kind_of(name) == 13 && !content_length_ok(value) {
        false
    } else if kind_of(name) == 20 {
        kind == 20 && crate::ascii::eq_ignore_case(name, okey)
    } else {
        kind == kind_of(name)
    }
}

/// The name and value of the first header line of the block that answers a
/// lookup for header kind `kind` (with key `okey` for a raw header).
pub open spec fn spec_find_header(block: Seq<u8>, line_start: int, kind: int, okey: Seq<u8>) -> Option<
    (Seq<u8>, Seq<u8>),
>
    decreases block.len() - line_start,
    when 0 <= line_start <= block.len()
    via spec_find_header_decreases
{
    match find_crlf(block, line_start) {
        None => None,
        Some(j) => {
            let line = block.subrange(line_start, j);
            match spec_resolve_line(line) {
                Some(nv) => if nv_matches_query(kind, okey, nv.0, nv.1) {
                    Some(nv)
                } else {
                    spec_find_header(block, j + 2, kind, okey)
                },
                None => spec_find_header(block, j + 2, kind, okey),
            }
        },
    }
}

#[via_fn]
proof fn spec_find_header_decreases(block: Seq<u8>, line_start: int, kind: int, okey: Seq<u8>) {
    lemma_find_crlf_bounds(block, line_start);
}

/// A found header line answers the lookup it was found for.
pub proof fn lemma_find_header_matches(block: Seq<u8>, line_start: int, kind: int, okey: Seq<u8>)
    requires
        0 <= line_start <= block.len(),
        spec_find_header(block, line_start, kind, okey) is Some,
    ensures
        ({
            let nv = spec_find_header(block, line_start, kind, okey)->Some_0;
            nv_matches_query(kind, okey, nv.0, nv.1)
        }),
    decreases block.len() - line_start,
{
    match find_crlf(block, line_start) {
        None => {},
        Some(j) => {
            lemma_find_crlf_bounds(block, line_start);
            let line = block.subrange(line_start, j);
            match spec_resolve_line(line) {
                Some(nv) => {
                    if !nv_matches_query(kind, okey, nv.0, nv.1) {
                        lemma_find_header_matches(block, j + 2, kind, okey);
                    }
                },
                None => {
                    lemma_find_header_matches(block, j + 2, kind, okey);
                },
            }
        },
    }
}

impl HttpRequest {
    /// The end of the first complete header block in the buffer: the index
    /// just past the first CRLFCRLF, when one has arrived.
    pub fn contains_complete_http_header(data: &[u8]) -> (r: Option<usize>)
        ensures
            match r {
                Some(i) => find_crlf2(data@, 0) == Some(i - 4) && 4 <= i <= data@.len(),
                None => find_crlf2(data@, 0) is None,
            },
    {
        let ghost s = data@;
        if data.len() < 4 {
            return None;
        }
        let mut j: usize = 0;
        while j < data.len() - 3 && !(data[j] == CR && data[j + 1] == LF && data[j + 2] == CR
            && data[j + 3] == LF)
            invariant
                0 <= j,
                j <= s.len() || j == 0,
                s == data@,
                s.len() >= 4,
                find_crlf2(s, 0) == find_crlf2(s, j as int),
            decreases s.len() - j,
        {
            proof {
                assert(find_crlf2(s, j as int) == find_crlf2(s, j + 1));
            }
            j += 1;
        }
        if j < data.len() - 3 {
            proof {
                assert(find_crlf2(s, j as int) == Some(j as int));
            }
            Some(j + 4)
        } else {
            proof {
                assert(find_crlf2(s, j as int) is None);
            }
            None
        }
    }

    /// Looks a header up by re-scanning the raw header block: no table is
    /// kept, the block is walked line by line on demand.
    pub fn get_header(&self, header: RequestHeader) -> (r: Option<RequestHeader>)
        ensures
            match r {
                Some(h) => self@.header_slice matches Some(block) && spec_find_header(
                    block,
                    0,
                    crate::header::kind_of_header(header),
                    query_key(header),
                ) matches Some(nv) && header_is(h, nv.0, nv.1),
                None => match self@.header_slice {
                    None => true,
                    Some(block) => spec_find_header(
                        block,
                        0,
                        crate::header::kind_of_header(header),
                        query_key(header),
                    ) is None,
                },
            },
    {
        let block: &Vec<u8> = match &self.header_slice {
            None => {
                return None;
            },
            Some(b) => b,
        };
        let ghost s = block@;
        if block.len() < 2 {
            proof {
                assert(find_crlf(s, 0) is None);
            }
            return None;
        }
        let mut line_start: usize = 0;
        loop
            invariant
                0 <= line_start <= s.len(),
                s == block@,
                s.len() >= 2,
                self@.header_slice == Some(s),
                spec_find_header(s, line_start as int, crate::header::kind_of_header(header), query_key(header))
                    == spec_find_header(s, 0, crate::header::kind_of_header(header), query_key(header)),
            decreases s.len() - line_start,
        {
            let mut j: usize = line_start;
            while j < block.len() - 1 && !(block[j] == CR && block[j + 1] == LF)
                invariant
                    line_start <= j,
                    j <= s.len() || j == line_start,
                    s == block@,
                    s.len() >= 2,
                    find_crlf(s, line_start as int) == find_crlf(s, j as int),
                decreases s.len() - j,
            {
                proof {
                    assert(find_crlf(s, j as int) == find_crlf(s, j + 1));
                }
                j += 1;
            }
            if j >= block.len() - 1 {
                proof {
                    assert(find_crlf(s, j as int) is None);
                }
                return None;
            }
            proof {
                assert(find_crlf(s, line_start as int) == Some(j as int));
            }
            let line = vstd::slice::slice_subrange(block.as_slice(), line_start, j);
            match find_byte_exec(line, COLON, 0) {
                None => {
                    proof {
                        assert(spec_resolve_line(line@) is None);
                    }
                },
                Some(k) => {
                    let name = trim_bytes(vstd::slice::slice_subrange(line, 0, k));
                    let value = trim_bytes(vstd::slice::slice_subrange(line, k + 1, line.len()));
                    proof {
                        assert(name@ =~= trim_spec(line@.take(k as int)));
                        assert(value@ =~= trim_spec(line@.subrange(k + 1, line@.len() as int)));
                    }
                    match RequestHeader::parse(name.as_slice(), value.as_slice()) {
                        Err(_) => {
                            proof {
                                assert(!nv_matches_query(
                                    crate::header::kind_of_header(header),
                                    query_key(header),
                                    name@,
                                    value@,
                                ));
                            }
                        },
                        Ok(h) => {
                            let found = h.matches_query(&header);
                            proof {
                                assert(spec_matches_query(h, header) == nv_matches_query(
                                    crate::header::kind_of_header(header),
                                    query_key(header),
                                    name@,
                                    value@,
                                ));
                            }
                            if found {
                                return Some(h);
                            }
                        },
                    }
                },
            }
            line_start = j + 2;
        }
    }

    /// How much of the declared body arrived with the request.
    pub fn get_body(&self) -> (r: RequestBody)
        ensures
            match self@.body {
                None => r is Absent,
                Some(b) => if b.len() < self.content_length {
                    r matches RequestBody::Partial(missing, bytes) && missing
                        == self.content_length - b.len() && bytes@ == b
                } else {
                    r matches RequestBody::Complete(bytes) && bytes@ == b
                },
            },
    {
        match &self.body {
            None => RequestBody::Absent,
            Some(b) => {
                if b.len() < self.content_length {
                    RequestBody::Partial(
                        self.content_length - b.len(),
                        vstd::slice::slice_to_vec(b.as_slice()),
                    )
                } else {
                    RequestBody::Complete(vstd::slice::slice_to_vec(b.as_slice()))
                }
            },
        }
    }
}

proof fn lemma_find_crlf_prefix(p: Seq<u8>, f: Seq<u8>, from: int)
    requires
        0 <= from,
        p.len() <= f.len(),
        p == f.take(p.len() as int),
        find_crlf(p, from) is Some,
    ensures
        find_crlf(f, from) == find_crlf(p, from),
    decreases p.len() - from,
{
    assert(forall|i: int| 0 <= i < p.len() ==> p[i] == #[trigger] f[i]);
    if from + 2 <= p.len() {
        if p[from] == 13 && p[from + 1] == 10 {
        } else {
            lemma_find_crlf_prefix(p, f, from + 1);
        }
    }
}

proof fn lemma_parse_lines_prefix(p: Seq<u8>, f: Seq<u8>, ls: int, st: ParseState)
    requires
        p.len() <= f.len(),
        p == f.take(p.len() as int),
        0 <= st.hs_start <= st.hs_end <= ls <= p.len(),
        parse_lines(p, ls, st) is Parsed,
    ensures
        parse_lines(f, ls, st) == parse_lines(p, ls, st),
    decreases p.len() - ls,
{
    assert(forall|i: int| 0 <= i < p.len() ==> p[i] == #[trigger] f[i]);
    match find_crlf(p, ls) {
        None => {},
        Some(j) => {
            lemma_find_crlf_bounds(p, ls);
            lemma_find_crlf_prefix(p, f, ls);
            let linep = p.subrange(ls, j);
            let linef = f.subrange(ls, j);
            assert(linep =~= linef);
            if j == ls {
                let cl = st.req.content_length;
                if cl > 0 {
                    assert(p.len() >= j + 2 + cl);
                    assert(p.subrange(j + 2, j + 2 + cl) =~= f.subrange(j + 2, j + 2 + cl));
                }
                if st.hs_start != 0 && st.hs_end != 0 {
                    assert(p.subrange(st.hs_start, st.hs_end) =~= f.subrange(
                        st.hs_start,
                        st.hs_end,
                    ));
                }
                assert(finalize(f, j + 2, st) == finalize(p, j + 2, st));
            } else if !st.request_line_done {
                match apply_request_line(linep, st) {
                    Err(_) => {},
                    Ok(st2) => {
                        lemma_parse_lines_prefix(p, f, j + 2, st2);
                    },
                }
            } else {
                match apply_header_line(linep, st) {
                    Err(_) => {},
                    Ok(st2) => {
                        let st3 = ParseState {
                            hs_start: if st2.hs_start == 0 {
                                ls
                            } else {
                                st2.hs_start
                            },
                            hs_end: j + 2,
                            ..st2
                        };
                        lemma_parse_lines_prefix(p, f, j + 2, st3);
                    },
                }
            }
        },
    }
}

/// Law: a parse, once successful, is stable under further input. When a
/// buffer parses to a request, any extension of that buffer that is still
/// valid UTF-8 parses, from scratch, to the same request — so feeding bytes
/// chunk by chunk and re-parsing after each chunk agrees with parsing the
/// fully concatenated buffer in one call.
pub proof fn lemma_parse_prefix_stable(p: Seq<u8>, f: Seq<u8>)
    requires
        p.len() <= f.len(),
        p == f.take(p.len() as int),
        valid_utf8(f),
        spec_parse(p) is Parsed,
    ensures
        spec_parse(f) == spec_parse(p),
{
    lemma_parse_lines_prefix(p, f, 0, init_state());
}

/// The view of an optional byte vector.
pub open spec fn opt_view(o: &Option<Vec<u8>>) -> Option<Seq<u8>> {
    match o {
        Some(v) => Some(v@),
        None => None,
    }
}

/// The parser state the local variables stand for.
pub open spec fn cur_state(
    method: HttpMethod,
    path: Seq<u8>,
    host: Seq<u8>,
    content_type: Option<Seq<u8>>,
    user_agent: Option<Seq<u8>>,
    content_length: usize,
    request_line_done: bool,
    hs_start: int,
    hs_end: int,
) -> ParseState {
    ParseState {
        req: ReqModel {
            method,
            path,
            host,
            content_type,
            user_agent,
            content_length,
            body: None,
            header_slice: None,
        },
        request_line_done,
        hs_start,
        hs_end,
    }
}

} // verus!
