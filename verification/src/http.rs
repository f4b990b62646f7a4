//! Requests as the transport hands them in, and responses as it gets them
//! back.

use crate::cache::{strong_match, EntityTag, EntityTagView, LastModified};
use crate::encoding::{AcceptEncoding, Encoding, QualityItem};
use crate::mime::ContentType;
use vstd::prelude::*;
use vstd::string::*;
use vstd::utf8::encode_utf8;

verus! {

/// The method of a request.
#[derive(Clone, Copy, Debug, PartialEq, Eq, Structural)]
pub enum Method {
    Options,
    Get,
    Post,
    Put,
    Delete,
    Head,
    Trace,
    Connect,
    Patch,
    /// Any method that has no variant of its own.
    Extension,
}

/// The status of a response.
#[derive(Clone, Copy, Debug, PartialEq, Eq, Structural)]
pub enum StatusCode {
    /// 200
    Success,
    /// 304
    NotModified,
    /// 404
    NotFound,
    /// 405
    MethodNotAllowed,
    /// 500
    InternalServerError,
}

impl StatusCode {
    /// The number of the status.
    pub open spec fn number(self) -> nat {
        match self {
            StatusCode::Success => 200,
            StatusCode::NotModified => 304,
            StatusCode::NotFound => 404,
            StatusCode::MethodNotAllowed => 405,
            StatusCode::InternalServerError => 500,
        }
    }

    /// The number of the status.
    pub fn code(&self) -> (number: u16)
        ensures
            number == self.number(),
    {
        match self {
            StatusCode::Success => 200,
            StatusCode::NotModified => 304,
            StatusCode::NotFound => 404,
            StatusCode::MethodNotAllowed => 405,
            StatusCode::InternalServerError => 500,
        }
    }
}

/// Who may keep a copy of a response.
#[derive(Clone, Copy, Debug, PartialEq, Eq, Structural)]
pub enum CacheDirective {
    /// Any cache.
    Public,
    /// The client's own cache only.
    Private,
    /// A cache that asks the server before each use.
    NoCache,
    /// Nobody.
    NoStore,
}

/// The `If-None-Match` header of a request, as a mathematical value.
pub enum IfNoneMatchView {
    Any,
    Items(Seq<EntityTagView>),
}

/// The `If-None-Match` header of a request.
#[derive(Clone, Debug, PartialEq, Eq)]
pub enum IfNoneMatch {
    /// `*`
    Any,
    /// The entity tags that the client holds.
    Items(Vec<EntityTag>),
}

impl View for IfNoneMatch {
    type V = IfNoneMatchView;

    open spec fn view(&self) -> IfNoneMatchView {
        match self {
            IfNoneMatch::Any => IfNoneMatchView::Any,
            IfNoneMatch::Items(tags) => IfNoneMatchView::Items(
                tags@.map_values(|t: EntityTag| t@),
            ),
        }
    }
}

/// A request, as a mathematical value.
pub struct RequestView {
    pub method: Method,
    pub path: Seq<char>,
    pub accept_encoding: Option<Seq<QualityItem>>,
    pub if_none_match: Option<IfNoneMatchView>,
}

/// A request: what the transport has read of it.
#[derive(Clone, Debug, PartialEq, Eq)]
pub struct Request {
    pub method: Method,
    /// The path of the request's target, as sent.
    pub path: String,
    /// The `Accept-Encoding` header, if the request has one.
    pub accept_encoding: Option<AcceptEncoding>,
    /// The `If-None-Match` header, if the request has one.
    pub if_none_match: Option<IfNoneMatch>,
}

impl View for Request {
    type V = RequestView;

    open spec fn view(&self) -> RequestView {
        RequestView {
            method: self.method,
            path: self.path@,
            accept_encoding: match self.accept_encoding {
                Some(list) => Some(list@),
                None => None,
            },
            if_none_match: match self.if_none_match {
                Some(header) => Some(header@),
                None => None,
            },
        }
    }
}

/// The headers of a response, as a mathematical value.
pub struct HeadersView {
    pub content_length: Option<nat>,
    pub content_type: Option<Seq<char>>,
    pub content_encoding: Option<Encoding>,
    pub cache_control: Option<CacheDirective>,
    pub etag: Option<EntityTagView>,
    pub last_modified: Option<LastModified>,
    pub vary: Seq<Seq<char>>,
    pub server: Option<Seq<char>>,
}

/// The headers of a response. Each header has one place, so no header can
/// occur twice.
#[derive(Clone, Debug, PartialEq, Eq)]
pub struct Headers {
    /// `Content-Length`
    pub content_length: Option<u64>,
    /// `Content-Type`
    pub content_type: Option<ContentType>,
    /// `Content-Encoding`
    pub content_encoding: Option<Encoding>,
    /// `Cache-Control`
    pub cache_control: Option<CacheDirective>,
    /// `ETag`
    pub etag: Option<EntityTag>,
    /// `Last-Modified`
    pub last_modified: Option<LastModified>,
    /// `Vary`: the names of the request headers that the response depends
    /// on, in order; empty where the header is absent.
    pub vary: Vec<String>,
    /// `Server`
    pub server: Option<String>,
}

impl View for Headers {
    type V = HeadersView;

    open spec fn view(&self) -> HeadersView {
        HeadersView {
            content_length: match self.content_length {
                Some(n) => Some(n as nat),
                None => None,
            },
            content_type: match self.content_type {
                Some(t) => Some(t@),
                None => None,
            },
            content_encoding: self.content_encoding,
            cache_control: self.cache_control,
            etag: match self.etag {
                Some(t) => Some(t@),
                None => None,
            },
            last_modified: self.last_modified,
            vary: self.vary@.map_values(|name: String| name@),
            server: match self.server {
                Some(name) => Some(name@),
                None => None,
            },
        }
    }
}

/// A response, as a mathematical value.
pub struct ResponseView {
    pub status: StatusCode,
    pub headers: HeadersView,
    pub body: Seq<u8>,
}

/// A response: what the transport is to send.
#[derive(Clone, Debug, PartialEq, Eq)]
pub struct Response {
    pub status: StatusCode,
    pub headers: Headers,
    pub body: Vec<u8>,
}

impl View for Response {
    type V = ResponseView;

    open spec fn view(&self) -> ResponseView {
        ResponseView { status: self.status, headers: self.headers@, body: self.body@ }
    }
}

/// How the server names itself.
pub const SERVER: &'static str = "Toa";

/// The request header that the choice of a body depends on.
pub const ACCEPT_ENCODING: &'static str = "Accept-Encoding";

/// The body of the answer to a request for what is not there.
pub const NOT_FOUND: &'static str = "<h1>Page not found</h1>";

/// The body of the answer to a request with a method that is not served.
pub const NOT_ALLOWED: &'static str = "<h1>Method is not allowed</h1>";

/// No header at all.
pub open spec fn no_headers() -> HeadersView {
    HeadersView {
        content_length: None,
        content_type: None,
        content_encoding: None,
        cache_control: None,
        etag: None,
        last_modified: None,
        vary: Seq::empty(),
        server: None,
    }
}

/// A response that has a status and a body and no header.
pub open spec fn plain_response(status: StatusCode, body: Seq<u8>) -> ResponseView {
    ResponseView { status, headers: no_headers(), body }
}

/// The answer to a request for what is not there.
pub open spec fn not_found_response() -> ResponseView {
    plain_response(StatusCode::NotFound, encode_utf8(NOT_FOUND@))
}

/// The answer to a request with a method other than GET.
pub open spec fn method_not_allowed_response() -> ResponseView {
    plain_response(StatusCode::MethodNotAllowed, encode_utf8(NOT_ALLOWED@))
}

/// The answer to a request that failed on the server's side, with what
/// went wrong as its body.
pub open spec fn internal_error_response(msg: Seq<char>) -> ResponseView {
    plain_response(StatusCode::InternalServerError, encode_utf8(msg))
}

/// The answer to a request of a client that holds the current version.
pub open spec fn not_modified_response() -> ResponseView {
    plain_response(StatusCode::NotModified, Seq::empty())
}

/// The answer that carries a file: `body` is what is sent, in the coding
/// `encoding`. `Content-Length` counts the bytes of `body`, so the
/// compressed ones where the body is compressed. `Content-Encoding` is
/// there for `deflate` alone.
pub open spec fn file_response(
    body: Seq<u8>,
    encoding: Encoding,
    content_type: Seq<char>,
    etag: EntityTagView,
    modified: Option<LastModified>,
) -> ResponseView {
    ResponseView {
        status: StatusCode::Success,
        headers: HeadersView {
            content_length: Some(body.len()),
            content_type: Some(content_type),
            content_encoding: if encoding == Encoding::Deflate {
                Some(Encoding::Deflate)
            } else {
                None
            },
            cache_control: Some(CacheDirective::Public),
            etag: Some(etag),
            last_modified: modified,
            vary: seq![ACCEPT_ENCODING@],
            server: Some(SERVER@),
        },
        body,
    }
}

/// Whether one of the entity tags that the client holds is, by strong
/// comparison, the tag `current`. A header of `*` names no tag.
pub open spec fn cache_hit(header: Option<IfNoneMatchView>, current: EntityTagView) -> bool {
    match header {
        Some(IfNoneMatchView::Items(tags)) => exists|i: int|
            0 <= i < tags.len() && strong_match(current, #[trigger] tags[i]),
        _ => false,
    }
}

impl Headers {
    /// No header at all.
    pub fn new() -> (headers: Headers)
        ensures
            headers@ == no_headers(),
    {
        let headers = Headers {
            content_length: None,
            content_type: None,
            content_encoding: None,
            cache_control: None,
            etag: None,
            last_modified: None,
            vary: Vec::new(),
            server: None,
        };
        assert(headers@.vary =~= Seq::empty());
        headers
    }
}

impl Response {
    /// A response with the status `status`, no header and an empty body.
    pub fn new(status: StatusCode) -> (response: Response)
        ensures
            response@ == plain_response(status, Seq::empty()),
    {
        Response { status, headers: Headers::new(), body: Vec::new() }
    }

    /// The same response with `body` as its body.
    pub fn with_body(self, body: Vec<u8>) -> (response: Response)
        ensures
            response@ == (ResponseView { body: body@, ..self@ }),
    {
        Response { status: self.status, headers: self.headers, body }
    }

    /// The answer that carries a file, from the body as it is sent and
    /// what the headers say of it.
    pub fn file(
        body: Vec<u8>,
        encoding: Encoding,
        content_type: ContentType,
        etag: EntityTag,
        modified: Option<LastModified>,
    ) -> (response: Response)
        ensures
            response@ == file_response(body@, encoding, content_type@, etag@, modified),
    {
        let mut vary: Vec<String> = Vec::new();
        vary.push(ACCEPT_ENCODING.to_owned());
        let headers = Headers {
            content_length: Some(body.len() as u64),
            content_type: Some(content_type),
            content_encoding: if encoding == Encoding::Deflate {
                Some(Encoding::Deflate)
            } else {
                None
            },
            cache_control: Some(CacheDirective::Public),
            etag: Some(etag),
            last_modified: modified,
            vary,
            server: Some(SERVER.to_owned()),
        };
        assert(headers@.vary =~= seq![ACCEPT_ENCODING@]);
        Response { status: StatusCode::Success, headers, body }
    }
}

} // verus!
