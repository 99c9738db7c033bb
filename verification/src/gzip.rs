//! Compressed bodies and cache headers, and the calls into the `flate2`
//! crate.

use crate::text::{self, begins, lowercase_of, occurs_in};
use vstd::prelude::*;
use vstd::slice::slice_subrange;

verus! {

/// Most bytes of a compressed body that are read where no limit is set.
pub const LIMIT: u64 = 0x10_0000;

/// Status of a body that cannot be read.
pub const BAD_REQUEST: u16 = 400;

/// Status of a body that reads as JSON of the wrong shape.
pub const UNPROCESSABLE_ENTITY: u16 = 422;

/// The gzip stream that `flate2` writes for some bytes at its default
/// level.
pub uninterp spec fn gzip_of(data: Seq<u8>) -> Seq<u8>;

/// The text that a gzip stream holds, if the bytes are one and what it
/// holds is UTF-8.
pub uninterp spec fn gunzip_text_of(data: Seq<u8>) -> Option<Seq<char>>;

#[verifier::external_type_specification]
#[verifier::external_body]
pub struct ExIoError(std::io::Error);

/// `GzEncoder::new` over an empty vector at `Compression::default()`, one
/// `write_all`, then `finish`. The header that the crate writes holds no
/// time and no name, so the stream depends on the bytes alone.
#[verifier::external_body]
pub(crate) fn compress(body: &[u8]) -> (r: Result<Vec<u8>, std::io::Error>)
    ensures
        r is Ok ==> r->Ok_0@ == gzip_of(body@),
{
    let mut gz = flate2::write::GzEncoder::new(Vec::new(), flate2::Compression::default());
    match std::io::Write::write_all(&mut gz, body) {
        Ok(_) => gz.finish(),
        Err(e) => Err(e),
    }
}

/// `GzDecoder::new` over the bytes, then `read_to_string`: the text held
/// by the stream, or the error of a stream that is broken or holds no
/// UTF-8.
#[verifier::external_body]
pub(crate) fn decompress(data: &[u8]) -> (r: Result<String, std::io::Error>)
    ensures
        r is Ok <==> gunzip_text_of(data@) is Some,
        r is Ok ==> Some(r->Ok_0@) == gunzip_text_of(data@),
{
    let mut gz = flate2::read::GzDecoder::new(data);
    let mut s = String::with_capacity(512);
    match std::io::Read::read_to_string(&mut gz, &mut s) {
        Ok(_) => Ok(s),
        Err(e) => Err(e),
    }
}

/// A value that arrived in a gzip-compressed body.
#[derive(Debug)]
pub struct Gzip<T>(pub T);

/// Why a compressed body was not read.
#[derive(Clone, Copy, Debug, PartialEq, Eq, Structural)]
pub enum GzipError {
    /// The body is no gzip stream of text.
    Io,
    /// The text is no JSON of the expected shape.
    JsonError,
}

/// What becomes of a request's body before it is parsed.
#[derive(Debug)]
pub enum Transformed {
    /// The body is not compressed: another reader takes it.
    Forward,
    /// The text that the compressed body holds.
    Success(String),
    /// The status and the reason with which the request is turned down.
    Failure(u16, GzipError),
}

/// What of a request decides how its response is sent.
#[derive(Clone, Debug)]
pub struct RequestHead {
    /// Whether the method is `GET`.
    pub is_get: bool,
    /// The path of the request's URI.
    pub path: String,
    /// The values of its `Accept-Encoding` headers.
    pub accept_encoding: Vec<String>,
}

/// A header by name and value.
#[derive(Clone, Debug)]
pub struct Header {
    pub name: String,
    pub value: String,
}

/// A response's body and the headers to set on it.
#[derive(Clone, Debug)]
pub struct Outcome {
    pub body: Option<Vec<u8>>,
    pub headers: Vec<Header>,
}

/// Compresses responses for those who accept it, and says how long a
/// response may be cached.
#[derive(Clone, Copy, Debug)]
pub struct GzipFairing;

/// A header value names gzip, in any case.
pub open spec fn mentions_gzip(value: Seq<char>) -> bool {
    occurs_in("gzip"@, lowercase_of(value))
}

/// One of some header values names gzip.
pub open spec fn any_mentions_gzip(values: Seq<String>) -> bool {
    exists|i: int| 0 <= i < values.len() && mentions_gzip(#[trigger] values[i]@)
}

/// A response to this request is a static asset: fetched with `GET`, not
/// from under `/api` and not the root.
pub open spec fn is_static_asset(is_get: bool, path: Seq<char>) -> bool {
    is_get && !begins("/api"@, path) && path != "/"@
}

/// The `Cache-Control` value of a response: a year for a static asset, no
/// caching for anything else.
pub open spec fn cache_policy(is_get: bool, path: Seq<char>) -> Seq<char> {
    if is_static_asset(is_get, path) {
        "public, max-age=31536000"@
    } else {
        "no-cache, no-store, must-revalidate"@
    }
}

/// The bytes of a body that are read under a limit.
pub open spec fn limited(body: Seq<u8>, limit: u64) -> Seq<u8> {
    if body.len() <= limit {
        body
    } else {
        body.subrange(0, limit as int)
    }
}

/// The limit that applies: the configured one, or [`LIMIT`].
pub open spec fn limit_of(configured: Option<u64>) -> u64 {
    match configured {
        Some(limit) => limit,
        None => LIMIT,
    }
}

/// What reading a request's body gives: it is forwarded unless declared
/// as gzip; else the text held by its bytes under the limit, or a bad
/// request where they hold none.
pub open spec fn is_transformed(
    content_encoding: Seq<String>,
    configured: Option<u64>,
    body: Seq<u8>,
    t: Transformed,
) -> bool {
    if !any_mentions_gzip(content_encoding) {
        t is Forward
    } else {
        match gunzip_text_of(limited(body, limit_of(configured))) {
            Some(text) => t matches Transformed::Success(s) && s@ == text,
            None => t == Transformed::Failure(BAD_REQUEST, GzipError::Io),
        }
    }
}

/// Whether one of some header values names gzip.
pub fn names_gzip(values: &Vec<String>) -> (found: bool)
    ensures
        found == any_mentions_gzip(values@),
{
    let mut i: usize = 0;
    while i < values.len()
        invariant
            i <= values@.len(),
            forall|j: int| 0 <= j < i ==> !mentions_gzip(#[trigger] values@[j]@),
        decreases values@.len() - i,
    {
        let lower = text::to_lowercase(values[i].as_str());
        if text::contains(lower.as_str(), "gzip") {
            return true;
        }
        i += 1;
    }
    false
}

impl<T> Gzip<T> {
    /// The value itself.
    pub fn into_inner(self) -> (inner: T)
        ensures
            inner == self.0,
    {
        self.0
    }
}

impl Gzip<String> {
    /// Reads a request's body. A body that is not declared as gzip is
    /// forwarded. Of a compressed one no more bytes are read than the limit
    /// allows; what they hold is handed on as text, and a body that cannot be
    /// read so is turned down as a bad request.
    pub fn transform(content_encoding: &Vec<String>, configured: Option<u64>, body: &[u8]) -> (t:
        Transformed)
        ensures
            is_transformed(content_encoding@, configured, body@, t),
    {
        let is_gzip = names_gzip(content_encoding);
        if !is_gzip {
            return Transformed::Forward;
        }
        let size_limit = match configured {
            Some(limit) => limit,
            None => LIMIT,
        };
        let read = if body.len() as u64 <= size_limit {
            body
        } else {
            slice_subrange(body, 0, size_limit as usize)
        };
        match decompress(read) {
            Ok(s) => Transformed::Success(s),
            Err(_) => Transformed::Failure(BAD_REQUEST, GzipError::Io),
        }
    }

    /// The status and reason for a body whose text did not parse: 422 where
    /// the text is JSON of the wrong shape, 400 for anything else.
    pub fn from_data_failure(is_data: bool) -> (failure: (u16, GzipError))
        ensures
            failure == if is_data {
                (UNPROCESSABLE_ENTITY, GzipError::JsonError)
            } else {
                (BAD_REQUEST, GzipError::JsonError)
            },
    {
        if is_data {
            (UNPROCESSABLE_ENTITY, GzipError::JsonError)
        } else {
            (BAD_REQUEST, GzipError::JsonError)
        }
    }
}

/// The `Cache-Control` header of a response.
pub open spec fn is_cache_header(request: RequestHead, header: Header) -> bool {
    &&& header.name@ == "Cache-Control"@
    &&& header.value@ == cache_policy(request.is_get, request.path@)
}

/// The header that declares a compressed body.
pub open spec fn is_encoding_header(header: Header) -> bool {
    &&& header.name@ == "Content-Encoding"@
    &&& header.value@ == "gzip"@
}

/// A response sent as it is, with its cache header alone.
pub open spec fn is_plain_outcome(request: RequestHead, body: Option<Vec<u8>>, out: Outcome) -> bool {
    &&& out.body == body
    &&& out.headers@.len() == 1
    &&& is_cache_header(request, out.headers@[0])
}

/// A response sent with another body, declared as gzip, and its cache
/// header.
pub open spec fn is_packed_outcome(request: RequestHead, packed: Vec<u8>, out: Outcome) -> bool {
    &&& out.body == Some(packed)
    &&& out.headers@.len() == 2
    &&& is_encoding_header(out.headers@[0])
    &&& is_cache_header(request, out.headers@[1])
}

impl GzipFairing {
    /// The `Cache-Control` value for a response to a request.
    pub fn cache_control(is_get: bool, path: &str) -> (value: &'static str)
        ensures
            value@ == cache_policy(is_get, path@),
    {
        if is_get && !text::starts_with(path, "/api") && path.to_owned() != "/".to_owned() {
            "public, max-age=31536000"
        } else {
            "no-cache, no-store, must-revalidate"
        }
    }

    /// Puts a response together, given its compressed body where there is
    /// one: the compressed body goes out declared as gzip, any other as it
    /// is, and either with its cache header.
    pub fn respond(request: &RequestHead, body: Option<Vec<u8>>, packed: Option<Vec<u8>>) -> (out:
        Outcome)
        ensures
            match packed {
                Some(bytes) => is_packed_outcome(*request, bytes, out),
                None => is_plain_outcome(*request, body, out),
            },
    {
        let mut headers: Vec<Header> = Vec::new();
        let body = match packed {
            Some(bytes) => {
                headers.push(Header { name: "Content-Encoding".to_owned(), value: "gzip".to_owned() });
                Some(bytes)
            },
            None => body,
        };
        let value = GzipFairing::cache_control(request.is_get, request.path.as_str());
        headers.push(Header { name: "Cache-Control".to_owned(), value: value.to_owned() });
        Outcome { body, headers }
    }

    /// Prepares a response for sending. Where the request accepts gzip and
    /// there is a body, the body is compressed and declared so; where the
    /// compression fails the body goes out as it is. Every response gets its
    /// cache header.
    pub fn on_response(&self, request: &RequestHead, body: Option<Vec<u8>>) -> (out: Outcome)
        ensures
            out.headers@.len() >= 1,
            is_cache_header(*request, out.headers@[out.headers@.len() - 1]),
            is_plain_outcome(*request, body, out) || (any_mentions_gzip(request.accept_encoding@)
                && body is Some && out.body is Some && out.body->Some_0@ == gzip_of(
                body->Some_0@,
            ) && is_packed_outcome(*request, out.body->Some_0, out)),
    {
        let packed = if names_gzip(&request.accept_encoding) {
            match &body {
                Some(bytes) => match compress(bytes.as_slice()) {
                    Ok(buf) => Some(buf),
                    Err(_) => None,
                },
                None => None,
            }
        } else {
            None
        };
        GzipFairing::respond(request, body, packed)
    }
}

} // verus!
