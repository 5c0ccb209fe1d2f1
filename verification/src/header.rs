//! HTTP header names and values: the recognized request headers with a
//! catch-all, and the response headers with their exact wire rendering.

use vstd::prelude::*;
use vstd::string::StringSliceAdditionalSpecFns;

use crate::ascii::{dec_bytes, digits_val, all_digits, eq_ignore_case, eq_ignore_ascii_case, AsciiInt};

verus! {

/// A recognized request header, or any other as a raw name/value pair.
#[derive(Clone, Debug, PartialEq)]
pub enum RequestHeader {
    Host(Vec<u8>),
    UserAgent(Vec<u8>),
    Upgrade(Vec<u8>),
    SecWebSocketKey(Vec<u8>),
    Accept(Vec<u8>),
    AcceptLanguage(Vec<u8>),
    AcceptEncoding(Vec<u8>),
    Referer(Vec<u8>),
    Connection(Vec<u8>),
    UpgradeInsecureRequests(Vec<u8>),
    IfModifiedSince(Vec<u8>),
    IfNoneMatch(Vec<u8>),
    CacheControl(Vec<u8>),
    ContentLength(usize),
    ContentRange(Vec<u8>),
    ContentType(Vec<u8>),
    ContentEncoding(Vec<u8>),
    ContentLocation(Vec<u8>),
    ContentLanguage(Vec<u8>),
    ETag(Vec<u8>),
    Other(Vec<u8>, Vec<u8>),
}

/// Which header a name denotes, by ASCII case-insensitive comparison; the
/// number is an arbitrary tag, with the last one standing for "any other".
pub open spec fn kind_of(name: Seq<u8>) -> int {
    if eq_ignore_case(name, "Host".spec_bytes()) {
        0
    } else if eq_ignore_case(name, "User-Agent".spec_bytes()) {
        1
    } else if eq_ignore_case(name, "Upgrade".spec_bytes()) {
        2
    } else if eq_ignore_case(name, "Sec-WebSocket-Key".spec_bytes()) {
        3
    } else if eq_ignore_case(name, "Accept".spec_bytes()) {
        4
    } else if eq_ignore_case(name, "Accept-Language".spec_bytes()) {
        5
    } else if eq_ignore_case(name, "Accept-Encoding".spec_bytes()) {
        6
    } else if eq_ignore_case(name, "Referer".spec_bytes()) {
        7
    } else if eq_ignore_case(name, "Connection".spec_bytes()) {
        8
    } else if eq_ignore_case(name, "Upgrade-Insecure-Requests".spec_bytes()) {
        9
    } else if eq_ignore_case(name, "If-Modified-Since".spec_bytes()) {
        10
    } else if eq_ignore_case(name, "If-None-Match".spec_bytes()) {
        11
    } else if eq_ignore_case(name, "Cache-Control".spec_bytes()) {
        12
    } else if eq_ignore_case(name, "Content-Length".spec_bytes()) {
        13
    } else if eq_ignore_case(name, "Content-Range".spec_bytes()) {
        14
    } else if eq_ignore_case(name, "Content-Type".spec_bytes()) {
        15
    } else if eq_ignore_case(name, "Content-Encoding".spec_bytes()) {
        16
    } else if eq_ignore_case(name, "Content-Location".spec_bytes()) {
        17
    } else if eq_ignore_case(name, "Content-Language".spec_bytes()) {
        18
    } else if eq_ignore_case(name, "ETag".spec_bytes()) {
        19
    } else {
        20
    }
}

/// The tag of the variant a header value carries.
pub open spec fn kind_of_header(h: RequestHeader) -> int {
    match h {
        RequestHeader::Host(_) => 0,
        RequestHeader::UserAgent(_) => 1,
        RequestHeader::Upgrade(_) => 2,
        RequestHeader::SecWebSocketKey(_) => 3,
        RequestHeader::Accept(_) => 4,
        RequestHeader::AcceptLanguage(_) => 5,
        RequestHeader::AcceptEncoding(_) => 6,
        RequestHeader::Referer(_) => 7,
        RequestHeader::Connection(_) => 8,
        RequestHeader::UpgradeInsecureRequests(_) => 9,
        RequestHeader::IfModifiedSince(_) => 10,
        RequestHeader::IfNoneMatch(_) => 11,
        RequestHeader::CacheControl(_) => 12,
        RequestHeader::ContentLength(_) => 13,
        RequestHeader::ContentRange(_) => 14,
        RequestHeader::ContentType(_) => 15,
        RequestHeader::ContentEncoding(_) => 16,
        RequestHeader::ContentLocation(_) => 17,
        RequestHeader::ContentLanguage(_) => 18,
        RequestHeader::ETag(_) => 19,
        RequestHeader::Other(_, _) => 20,
    }
}

/// Whether a `Content-Length` value is a number this parser accepts.
pub open spec fn content_length_ok(value: Seq<u8>) -> bool {
    all_digits(value) && digits_val(value) <= u32::MAX
}

/// Whether `h` is the header a (trimmed) name/value pair denotes.
pub open spec fn header_is(h: RequestHeader, name: Seq<u8>, value: Seq<u8>) -> bool {
    kind_of_header(h) == kind_of(name) && match h {
        RequestHeader::ContentLength(n) => content_length_ok(value) && n == digits_val(value),
        RequestHeader::Other(k, v) => k@ == name && v@ == value,
        RequestHeader::Host(s) => s@ == value,
        RequestHeader::UserAgent(s) => s@ == value,
        RequestHeader::Upgrade(s) => s@ == value,
        RequestHeader::SecWebSocketKey(s) => s@ == value,
        RequestHeader::Accept(s) => s@ == value,
        RequestHeader::AcceptLanguage(s) => s@ == value,
        RequestHeader::AcceptEncoding(s) => s@ == value,
        RequestHeader::Referer(s) => s@ == value,
        RequestHeader::Connection(s) => s@ == value,
        RequestHeader::UpgradeInsecureRequests(s) => s@ == value,
        RequestHeader::IfModifiedSince(s) => s@ == value,
        RequestHeader::IfNoneMatch(s) => s@ == value,
        RequestHeader::CacheControl(s) => s@ == value,
        RequestHeader::ContentRange(s) => s@ == value,
        RequestHeader::ContentType(s) => s@ == value,
        RequestHeader::ContentEncoding(s) => s@ == value,
        RequestHeader::ContentLocation(s) => s@ == value,
        RequestHeader::ContentLanguage(s) => s@ == value,
        RequestHeader::ETag(s) => s@ == value,
    }
}

impl RequestHeader {
    /// Classifies a trimmed name/value pair. The only refusal is a
    /// `Content-Length` whose value is not a number.
    pub fn parse(name: &[u8], value: &[u8]) -> (r: Result<RequestHeader, &'static str>)
        ensures
            r matches Ok(h) ==> header_is(h, name@, value@),
            r is Err <==> kind_of(name@) == 13 && !content_length_ok(value@),
    {
        if eq_ignore_ascii_case(name, "Host".as_bytes()) {
            Ok(RequestHeader::Host(vstd::slice::slice_to_vec(value)))
        } else if eq_ignore_ascii_case(name, "User-Agent".as_bytes()) {
            Ok(RequestHeader::UserAgent(vstd::slice::slice_to_vec(value)))
        } else if eq_ignore_ascii_case(name, "Upgrade".as_bytes()) {
            Ok(RequestHeader::Upgrade(vstd::slice::slice_to_vec(value)))
        } else if eq_ignore_ascii_case(name, "Sec-WebSocket-Key".as_bytes()) {
            Ok(RequestHeader::SecWebSocketKey(vstd::slice::slice_to_vec(value)))
        } else if eq_ignore_ascii_case(name, "Accept".as_bytes()) {
            Ok(RequestHeader::Accept(vstd::slice::slice_to_vec(value)))
        } else if eq_ignore_ascii_case(name, "Accept-Language".as_bytes()) {
            Ok(RequestHeader::AcceptLanguage(vstd::slice::slice_to_vec(value)))
        } else if eq_ignore_ascii_case(name, "Accept-Encoding".as_bytes()) {
            Ok(RequestHeader::AcceptEncoding(vstd::slice::slice_to_vec(value)))
        } else if eq_ignore_ascii_case(name, "Referer".as_bytes()) {
            Ok(RequestHeader::Referer(vstd::slice::slice_to_vec(value)))
        } else if eq_ignore_ascii_case(name, "Connection".as_bytes()) {
            Ok(RequestHeader::Connection(vstd::slice::slice_to_vec(value)))
        } else if eq_ignore_ascii_case(name, "Upgrade-Insecure-Requests".as_bytes()) {
            Ok(RequestHeader::UpgradeInsecureRequests(vstd::slice::slice_to_vec(value)))
        } else if eq_ignore_ascii_case(name, "If-Modified-Since".as_bytes()) {
            Ok(RequestHeader::IfModifiedSince(vstd::slice::slice_to_vec(value)))
        } else if eq_ignore_ascii_case(name, "If-None-Match".as_bytes()) {
            Ok(RequestHeader::IfNoneMatch(vstd::slice::slice_to_vec(value)))
        } else if eq_ignore_ascii_case(name, "Cache-Control".as_bytes()) {
            Ok(RequestHeader::CacheControl(vstd::slice::slice_to_vec(value)))
        } else if eq_ignore_ascii_case(name, "Content-Length".as_bytes()) {
            match crate::ascii::atoi(value) {
                Some(n) => Ok(RequestHeader::ContentLength(n as usize)),
                None => Err("invalid content-length"),
            }
        } else if eq_ignore_ascii_case(name, "Content-Range".as_bytes()) {
            Ok(RequestHeader::ContentRange(vstd::slice::slice_to_vec(value)))
        } else if eq_ignore_ascii_case(name, "Content-Type".as_bytes()) {
            Ok(RequestHeader::ContentType(vstd::slice::slice_to_vec(value)))
        } else if eq_ignore_ascii_case(name, "Content-Encoding".as_bytes()) {
            Ok(RequestHeader::ContentEncoding(vstd::slice::slice_to_vec(value)))
        } else if eq_ignore_ascii_case(name, "Content-Location".as_bytes()) {
            Ok(RequestHeader::ContentLocation(vstd::slice::slice_to_vec(value)))
        } else if eq_ignore_ascii_case(name, "Content-Language".as_bytes()) {
            Ok(RequestHeader::ContentLanguage(vstd::slice::slice_to_vec(value)))
        } else if eq_ignore_ascii_case(name, "ETag".as_bytes()) {
            Ok(RequestHeader::ETag(vstd::slice::slice_to_vec(value)))
        } else {
            Ok(
                RequestHeader::Other(
                    vstd::slice::slice_to_vec(name),
                    vstd::slice::slice_to_vec(value),
                ),
            )
        }
    }

    /// Whether this header answers a lookup for `query`: the same variant,
    /// and for two raw headers the same name ignoring ASCII case.
    pub fn matches_query(&self, query: &RequestHeader) -> (r: bool)
        ensures
            r == spec_matches_query(*self, *query),
    {
        match (self, query) {
            (RequestHeader::Other(k1, _), RequestHeader::Other(k2, _)) => eq_ignore_ascii_case(
                k1.as_slice(),
                k2.as_slice(),
            ),
            (RequestHeader::Host(_), RequestHeader::Host(_)) => true,
            (RequestHeader::UserAgent(_), RequestHeader::UserAgent(_)) => true,
            (RequestHeader::Upgrade(_), RequestHeader::Upgrade(_)) => true,
            (RequestHeader::SecWebSocketKey(_), RequestHeader::SecWebSocketKey(_)) => true,
            (RequestHeader::Accept(_), RequestHeader::Accept(_)) => true,
            (RequestHeader::AcceptLanguage(_), RequestHeader::AcceptLanguage(_)) => true,
            (RequestHeader::AcceptEncoding(_), RequestHeader::AcceptEncoding(_)) => true,
            (RequestHeader::Referer(_), RequestHeader::Referer(_)) => true,
            (RequestHeader::Connection(_), RequestHeader::Connection(_)) => true,
            (
                RequestHeader::UpgradeInsecureRequests(_),
                RequestHeader::UpgradeInsecureRequests(_),
            ) => true,
            (RequestHeader::IfModifiedSince(_), RequestHeader::IfModifiedSince(_)) => true,
            (RequestHeader::IfNoneMatch(_), RequestHeader::IfNoneMatch(_)) => true,
            (RequestHeader::CacheControl(_), RequestHeader::CacheControl(_)) => true,
            (RequestHeader::ContentLength(_), RequestHeader::ContentLength(_)) => true,
            (RequestHeader::ContentRange(_), RequestHeader::ContentRange(_)) => true,
            (RequestHeader::ContentType(_), RequestHeader::ContentType(_)) => true,
            (RequestHeader::ContentEncoding(_), RequestHeader::ContentEncoding(_)) => true,
            (RequestHeader::ContentLocation(_), RequestHeader::ContentLocation(_)) => true,
            (RequestHeader::ContentLanguage(_), RequestHeader::ContentLanguage(_)) => true,
            (RequestHeader::ETag(_), RequestHeader::ETag(_)) => true,
            _ => false,
        }
    }
}

/// Whether a found header answers a lookup: the same variant, and for two
/// raw headers the same name ignoring ASCII case.
pub open spec fn spec_matches_query(h: RequestHeader, query: RequestHeader) -> bool {
    match (h, query) {
        (RequestHeader::Other(k1, _), RequestHeader::Other(k2, _)) => eq_ignore_case(k1@, k2@),
        _ => kind_of_header(h) == kind_of_header(query),
    }
}

// ---------------------------------------------------------------------------
// Response headers
// ---------------------------------------------------------------------------

/// A response header and its value bytes.
#[derive(Clone, Debug, PartialEq)]
pub enum ResponseHeader {
    AccessControlAllowOrigin(Vec<u8>),
    Connection(Vec<u8>),
    Date(Vec<u8>),
    KeepAlive(Vec<u8>),
    LastModified(Vec<u8>),
    Server(Vec<u8>),
    SetCookie(Vec<u8>),
    TransferEncoding(Vec<u8>),
    Vary(Vec<u8>),
    ContentLength(usize),
    ContentRange(Vec<u8>),
    ContentType(Vec<u8>),
    ContentEncoding(Vec<u8>),
    ContentLocation(Vec<u8>),
    ContentLanguage(Vec<u8>),
    ETag(Vec<u8>),
    SecWebSocketAccept(Vec<u8>),
    Other(Vec<u8>, Vec<u8>),
}

/// The exact wire bytes of a response header: `Name: value` and CRLF. A
/// `Content-Length` of zero is omitted from the wire entirely.
pub open spec fn resp_header_bytes(h: ResponseHeader) -> Seq<u8> {
    match h {
        ResponseHeader::AccessControlAllowOrigin(s) => named_header(
            "Access-Control-Allow-Origin".spec_bytes(),
            s@,
        ),
        ResponseHeader::Connection(s) => named_header("Connection".spec_bytes(), s@),
        ResponseHeader::Date(s) => named_header("Date".spec_bytes(), s@),
        ResponseHeader::KeepAlive(s) => named_header("Keep-Alive".spec_bytes(), s@),
        ResponseHeader::LastModified(s) => named_header("Last-Modified".spec_bytes(), s@),
        ResponseHeader::Server(s) => named_header("Server".spec_bytes(), s@),
        ResponseHeader::SetCookie(s) => named_header("Set-Cookie".spec_bytes(), s@),
        ResponseHeader::TransferEncoding(s) => named_header("Transfer-Encoding".spec_bytes(), s@),
        ResponseHeader::Vary(s) => named_header("Vary".spec_bytes(), s@),
        ResponseHeader::ContentLength(n) => if n == 0 {
            Seq::empty()
        } else {
            named_header("Content-Length".spec_bytes(), dec_bytes(n as int))
        },
        ResponseHeader::ContentRange(s) => named_header("Content-Range".spec_bytes(), s@),
        ResponseHeader::ContentType(s) => named_header("Content-Type".spec_bytes(), s@),
        ResponseHeader::ContentEncoding(s) => named_header("Content-Encoding".spec_bytes(), s@),
        ResponseHeader::ContentLocation(s) => named_header("Content-Location".spec_bytes(), s@),
        ResponseHeader::ContentLanguage(s) => named_header("Content-Language".spec_bytes(), s@),
        ResponseHeader::ETag(s) => named_header("ETag".spec_bytes(), s@),
        ResponseHeader::SecWebSocketAccept(s) => named_header(
            "Sec-WebSocket-Accept".spec_bytes(),
            s@,
        ),
        ResponseHeader::Other(k, v) => named_header(k@, v@),
    }
}

/// `name`, a colon and a space, `value`, CRLF.
pub open spec fn named_header(name: Seq<u8>, value: Seq<u8>) -> Seq<u8> {
    name + ": ".spec_bytes() + value + "\r\n".spec_bytes()
}

/// Appends `name: value` and CRLF.
fn write_named(out: &mut Vec<u8>, name: &str, value: &[u8])
    ensures
        final(out)@ == old(out)@ + named_header(name.spec_bytes(), value@),
{
    out.extend_from_slice(name.as_bytes());
    out.extend_from_slice(": ".as_bytes());
    out.extend_from_slice(value);
    out.extend_from_slice("\r\n".as_bytes());
    proof {
        assert(out@ =~= old(out)@ + named_header(name.spec_bytes(), value@));
    }
}

impl ResponseHeader {
    /// Appends this header's wire bytes: the name, a colon and a space, the
    /// value and CRLF; a zero `Content-Length` writes nothing.
    pub fn write_to(&self, out: &mut Vec<u8>)
        ensures
            final(out)@ == old(out)@ + resp_header_bytes(*self),
    {
        match self {
            ResponseHeader::AccessControlAllowOrigin(s) => write_named(
                out,
                "Access-Control-Allow-Origin",
                s.as_slice(),
            ),
            ResponseHeader::Connection(s) => write_named(out, "Connection", s.as_slice()),
            ResponseHeader::Date(s) => write_named(out, "Date", s.as_slice()),
            ResponseHeader::KeepAlive(s) => write_named(out, "Keep-Alive", s.as_slice()),
            ResponseHeader::LastModified(s) => write_named(out, "Last-Modified", s.as_slice()),
            ResponseHeader::Server(s) => write_named(out, "Server", s.as_slice()),
            ResponseHeader::SetCookie(s) => write_named(out, "Set-Cookie", s.as_slice()),
            ResponseHeader::TransferEncoding(s) => write_named(
                out,
                "Transfer-Encoding",
                s.as_slice(),
            ),
            ResponseHeader::Vary(s) => write_named(out, "Vary", s.as_slice()),
            ResponseHeader::ContentLength(n) => {
                if *n != 0 {
                    let digits = AsciiInt::from_u64(*n as u64);
                    write_named(out, "Content-Length", digits.as_bytes());
                } else {
                    proof {
                        assert(out@ =~= old(out)@ + resp_header_bytes(*self));
                    }
                }
            },
            ResponseHeader::ContentRange(s) => write_named(out, "Content-Range", s.as_slice()),
            ResponseHeader::ContentType(s) => write_named(out, "Content-Type", s.as_slice()),
            ResponseHeader::ContentEncoding(s) => write_named(
                out,
                "Content-Encoding",
                s.as_slice(),
            ),
            ResponseHeader::ContentLocation(s) => write_named(
                out,
                "Content-Location",
                s.as_slice(),
            ),
            ResponseHeader::ContentLanguage(s) => write_named(
                out,
                "Content-Language",
                s.as_slice(),
            ),
            ResponseHeader::ETag(s) => write_named(out, "ETag", s.as_slice()),
            ResponseHeader::SecWebSocketAccept(s) => write_named(
                out,
                "Sec-WebSocket-Accept",
                s.as_slice(),
            ),
            ResponseHeader::Other(k, v) => {
                out.extend_from_slice(k.as_slice());
                out.extend_from_slice(": ".as_bytes());
                out.extend_from_slice(v.as_slice());
                out.extend_from_slice("\r\n".as_bytes());
                proof {
                    assert(out@ =~= old(out)@ + resp_header_bytes(*self));
                }
            },
        }
    }
}

} // verus!
