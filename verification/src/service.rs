//! The request handler. It decides; the transport does the work on the
//! file system in between and reports what it found.
//!
//! A request passes through these stages: once its method is checked it is
//! looked up (`Step::Stat`), once it is resolved to a file that file is
//! opened (`Step::Open`), once the client's cache is checked the file is
//! read (`Step::Read`), and at any stage it may be answered
//! (`Step::Respond`).

use crate::cache::{
    cache_headers, cache_tokens, strong_match, EntityTag, EntityTagView, FileStats, LastModified,
};
use crate::encoding::{encode, encoded, negotiate, negotiated};
use crate::http::{
    cache_hit, file_response, internal_error_response, method_not_allowed_response,
    not_found_response, not_modified_response, IfNoneMatch, IfNoneMatchView, Method, Request, RequestView,
    Response, ResponseView, StatusCode, NOT_ALLOWED, NOT_FOUND,
};
use crate::mime::{media_type_of, ContentType, HTML, INDEX};
use crate::path::{join_path, joined, locate, located, PathKind};
use vstd::prelude::*;
use vstd::string::*;

verus! {

/// A path whose kind the file system is asked for, as a mathematical value.
pub struct LookupView {
    pub path: Seq<char>,
    pub index: bool,
}

/// A path whose kind the file system is asked for.
#[derive(Clone, Debug, PartialEq, Eq)]
pub struct Lookup {
    /// The path to look at.
    pub path: String,
    /// Whether the path is that of a directory's index file.
    pub index: bool,
}

impl View for Lookup {
    type V = LookupView;

    open spec fn view(&self) -> LookupView {
        LookupView { path: self.path@, index: self.index }
    }
}

/// A regular file that is to be opened, as a mathematical value.
pub struct TargetView {
    pub path: Seq<char>,
    pub content_type: Seq<char>,
}

/// A regular file that is to be opened.
#[derive(Clone, Debug, PartialEq, Eq)]
pub struct Target {
    /// Where the file is.
    pub path: String,
    /// What its name says of its content.
    pub content_type: ContentType,
}

impl View for Target {
    type V = TargetView;

    open spec fn view(&self) -> TargetView {
        TargetView { path: self.path@, content_type: self.content_type@ }
    }
}

/// An opened file whose content is to be sent, as a mathematical value.
pub struct SnapshotView {
    pub path: Seq<char>,
    pub content_type: Seq<char>,
    pub etag: EntityTagView,
    pub modified: Option<LastModified>,
}

/// An opened file whose content is to be sent, with the validators that
/// its metadata gave when it was opened.
#[derive(Clone, Debug, PartialEq, Eq)]
pub struct Snapshot {
    /// Where the file is.
    pub path: String,
    /// What its name says of its content.
    pub content_type: ContentType,
    /// The entity tag of the version that was opened.
    pub etag: EntityTag,
    /// When that version was written, where the file system knows it.
    pub modified: Option<LastModified>,
}

impl View for Snapshot {
    type V = SnapshotView;

    open spec fn view(&self) -> SnapshotView {
        SnapshotView {
            path: self.path@,
            content_type: self.content_type@,
            etag: self.etag@,
            modified: self.modified,
        }
    }
}

/// What is to happen next to a request, as a mathematical value.
pub enum StepView {
    Stat(LookupView),
    Open(TargetView),
    Read(SnapshotView),
    Respond(ResponseView),
}

/// What is to happen next to a request.
#[derive(Clone, Debug, PartialEq, Eq)]
pub enum Step {
    /// Ask the file system what is at the path, and go on with `resolve`.
    Stat(Lookup),
    /// Open the file for reading and take its metadata, and go on with
    /// `validate`.
    Open(Target),
    /// Read the whole of the opened file, and go on with `send_file`.
    Read(Snapshot),
    /// Send the response: the request is done.
    Respond(Response),
}

impl View for Step {
    type V = StepView;

    open spec fn view(&self) -> StepView {
        match self {
            Step::Stat(lookup) => StepView::Stat(lookup@),
            Step::Open(target) => StepView::Open(target@),
            Step::Read(snapshot) => StepView::Read(snapshot@),
            Step::Respond(response) => StepView::Respond(response@),
        }
    }
}

/// The first step on a request for `request_path` below `root`: look at
/// the path that it names, or answer that nothing is there where that path
/// would leave `root`.
pub open spec fn looked_up(root: Seq<char>, request_path: Seq<char>) -> StepView {
    match located(root, request_path) {
        Some(path) => StepView::Stat(LookupView { path, index: false }),
        None => StepView::Respond(not_found_response()),
    }
}

/// The first step on the request `req`: a method other than GET is turned
/// down, whatever the path; a GET is looked up.
pub open spec fn begun(root: Seq<char>, req: RequestView) -> StepView {
    if req.method != Method::Get {
        StepView::Respond(method_not_allowed_response())
    } else {
        looked_up(root, req.path)
    }
}

/// The step after the file system has found `kind` at the path of
/// `lookup`. A regular file is opened; an index file is HTML whatever its
/// name says. A directory is looked up once more, for its index file.
/// Anything else is not there.
pub open spec fn resolved(lookup: LookupView, kind: PathKind) -> StepView {
    match kind {
        PathKind::File => StepView::Open(
            TargetView {
                path: lookup.path,
                content_type: if lookup.index {
                    HTML@
                } else {
                    media_type_of(lookup.path)
                },
            },
        ),
        PathKind::Directory => if lookup.index {
            StepView::Respond(not_found_response())
        } else {
            StepView::Stat(LookupView { path: joined(lookup.path, INDEX@), index: true })
        },
        PathKind::Missing => StepView::Respond(not_found_response()),
    }
}

/// The step after the file of `target` was opened, with its metadata, or
/// could not be: a failure is reported with its description; a client that
/// holds the current version is told so; otherwise the file is read.
pub open spec fn validated(
    req: RequestView,
    target: TargetView,
    opened: Result<FileStats, Seq<char>>,
) -> StepView {
    match opened {
        Err(msg) => StepView::Respond(internal_error_response(msg)),
        Ok(stats) => {
            let tokens = cache_tokens(stats);
            if cache_hit(req.if_none_match, tokens.0) {
                StepView::Respond(not_modified_response())
            } else {
                StepView::Read(
                    SnapshotView {
                        path: target.path,
                        content_type: target.content_type,
                        etag: tokens.0,
                        modified: tokens.1,
                    },
                )
            }
        },
    }
}

/// The response that carries `content`, the bytes of the file of
/// `snapshot`, to the client that sent `req`: compressed if the client
/// accepts `deflate`, as they are if not.
pub open spec fn sent(req: RequestView, snapshot: SnapshotView, content: Seq<u8>) -> ResponseView {
    let encoding = negotiated(req.accept_encoding);
    file_response(
        encoded(content, encoding),
        encoding,
        snapshot.content_type,
        snapshot.etag,
        snapshot.modified,
    )
}

/// The text of what went wrong when a file was opened.
pub open spec fn failure_text(opened: Result<FileStats, String>) -> Result<FileStats, Seq<char>> {
    match opened {
        Ok(stats) => Ok(stats),
        Err(msg) => Err(msg@),
    }
}

/// Serves the files below one directory.
#[derive(Clone, Debug, PartialEq, Eq)]
pub struct StaticServe {
    /// The directory that is served.
    pub root: String,
}

impl StaticServe {
    /// A server for the files below `root`.
    pub fn new(root: String) -> (server: StaticServe)
        ensures
            server.root == root,
    {
        StaticServe { root: root }
    }

    /// The answer to a request with a method other than GET.
    pub fn method_not_allowed(&self) -> (response: Response)
        ensures
            response@ == method_not_allowed_response(),
    {
        Response::new(StatusCode::MethodNotAllowed).with_body(NOT_ALLOWED.as_bytes_vec())
    }

    /// The answer to a request that failed on the server's side.
    pub fn internal_error(&self, msg: String) -> (response: Response)
        ensures
            response@ == internal_error_response(msg@),
    {
        Response::new(StatusCode::InternalServerError).with_body(msg.as_str().as_bytes_vec())
    }

    /// The answer to a request for what is not there.
    pub fn not_found(&self) -> (response: Response)
        ensures
            response@ == not_found_response(),
    {
        Response::new(StatusCode::NotFound).with_body(NOT_FOUND.as_bytes_vec())
    }

    /// Tells a client that holds the current version so: the answer is
    /// there if and only if one of the entity tags of the request's
    /// `If-None-Match` is, by strong comparison, `expected_etag`.
    pub fn cache_response(&self, req: &Request, expected_etag: &EntityTag) -> (response: Option<
        Response,
    >)
        ensures
            response is Some <==> cache_hit(req@.if_none_match, expected_etag@),
            response matches Some(r) ==> r@ == not_modified_response(),
    {
        let etags = match &req.if_none_match {
            Some(IfNoneMatch::Items(etags)) => etags,
            _ => {
                return None;
            },
        };
        let ghost tags = etags@.map_values(|t: EntityTag| t@);
        let mut idx: usize = 0;
        while idx < etags.len()
            invariant
                idx <= etags.len(),
                tags == etags@.map_values(|t: EntityTag| t@),
                req@.if_none_match == Some(IfNoneMatchView::Items(tags)),
                forall|i: int|
                    0 <= i < idx ==> !strong_match(expected_etag@, #[trigger] tags[i]),
            decreases etags.len() - idx,
        {
            if expected_etag.strong_eq(&etags[idx]) {
                assert(tags[idx as int] == etags[idx as int]@);
                assert(exists|i: int|
                    0 <= i < tags.len() && strong_match(expected_etag@, #[trigger] tags[i]));
                assert(req@.if_none_match matches Some(IfNoneMatchView::Items(held)) && held
                    == tags);
                return Some(Response::new(StatusCode::NotModified));
            }
            assert(tags[idx as int] == etags[idx as int]@);
            idx = idx + 1;
        }
        None
    }

    /// Starts the lookup of `request_path`: the path that it names below
    /// the served directory is to be looked at, unless it would leave that
    /// directory.
    pub fn get_file(&self, request_path: &str) -> (step: Step)
        ensures
            step@ == looked_up(self.root@, request_path@),
    {
        match locate(self.root.as_str(), request_path) {
            Some(path) => Step::Stat(Lookup { path, index: false }),
            None => Step::Respond(self.not_found()),
        }
    }

    /// Starts on a request: checks its method and looks its path up.
    pub fn call(&self, req: &Request) -> (step: Step)
        ensures
            step@ == begun(self.root@, req@),
    {
        if req.method != Method::Get {
            return Step::Respond(self.method_not_allowed());
        }
        self.get_file(req.path.as_str())
    }

    /// Goes on after the file system has found `kind` at the path of
    /// `lookup`.
    pub fn resolve(&self, lookup: Lookup, kind: PathKind) -> (step: Step)
        ensures
            step@ == resolved(lookup@, kind),
    {
        match kind {
            PathKind::File => {
                let content_type = if lookup.index {
                    ContentType::html()
                } else {
                    ContentType::guess(lookup.path.as_str())
                };
                Step::Open(Target { path: lookup.path, content_type })
            },
            PathKind::Directory => {
                if lookup.index {
                    Step::Respond(self.not_found())
                } else {
                    Step::Stat(Lookup { path: join_path(lookup.path.as_str(), INDEX), index: true })
                }
            },
            PathKind::Missing => Step::Respond(self.not_found()),
        }
    }

    /// Goes on after the file of `target` was opened and its metadata
    /// taken, or after either failed, with the description of the failure.
    pub fn validate(&self, req: &Request, target: Target, opened: Result<FileStats, String>) -> (step:
        Step)
        ensures
            step@ == validated(req@, target@, failure_text(opened)),
    {
        match opened {
            Err(msg) => Step::Respond(self.internal_error(msg)),
            Ok(stats) => {
                let (etag, modified) = cache_headers(&stats);
                match self.cache_response(req, &etag) {
                    Some(response) => Step::Respond(response),
                    None => Step::Read(
                        Snapshot {
                            path: target.path,
                            content_type: target.content_type,
                            etag,
                            modified,
                        },
                    ),
                }
            },
        }
    }

    /// The response that carries `content`, the bytes of the file of
    /// `snapshot`, in the coding that the request asks for.
    pub fn send_file(&self, req: &Request, snapshot: Snapshot, content: &[u8]) -> (response:
        Response)
        ensures
            response@ == sent(req@, snapshot@, content@),
    {
        let encoding = negotiate(&req.accept_encoding);
        let body = encode(content, encoding);
        Response::file(body, encoding, snapshot.content_type, snapshot.etag, snapshot.modified)
    }
}

} // verus!
