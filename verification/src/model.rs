//! What a client gets, stated over a model of the file system, and the
//! laws that hold of it.

use crate::cache::{cache_tokens, FileStats};
use crate::encoding::{accepts_deflate, deflate_stream};
use crate::http::{
    cache_hit, internal_error_response, method_not_allowed_response, not_found_response,
    not_modified_response, IfNoneMatchView, Method, RequestView, ResponseView, StatusCode,
};
use crate::mime::{media_type_of, names_index, HTML, INDEX};
use crate::path::{
    climbs_out, depth, descent, escapes_root, joined, lemma_climbs_out_push,
    lemma_segments_nonempty, located, segments, strip_separator, PathKind,
};
use crate::service::{
    begun, resolved, sent, validated, LookupView, SnapshotView, StepView, TargetView,
};
use vstd::prelude::*;

verus! {

/// What the file system holds at one path.
pub enum Node {
    /// A regular file that can be opened, with its metadata and its bytes.
    File { stats: FileStats, content: Seq<u8> },
    /// A regular file that cannot be opened, with the reason.
    Unreadable { error: Seq<char> },
    /// A directory.
    Directory,
}

/// A state of the file system: what it holds at each path that leads
/// somewhere.
pub struct Disk {
    pub entries: Map<Seq<char>, Node>,
}

impl Disk {
    /// What the file system finds at `path`.
    pub open spec fn kind(self, path: Seq<char>) -> PathKind {
        if !self.entries.dom().contains(path) {
            PathKind::Missing
        } else {
            match self.entries[path] {
                Node::Directory => PathKind::Directory,
                _ => PathKind::File,
            }
        }
    }

    /// What opening the regular file at `path` gives: its metadata, or the
    /// description of a failure.
    pub open spec fn opened(self, path: Seq<char>) -> Result<FileStats, Seq<char>>
        recommends
            self.kind(path) == PathKind::File,
    {
        match self.entries[path] {
            Node::File { stats, .. } => Ok(stats),
            Node::Unreadable { error } => Err(error),
            Node::Directory => Err(Seq::empty()),
        }
    }

    /// The bytes of the file at `path`.
    pub open spec fn content(self, path: Seq<char>) -> Seq<u8>
        recommends
            self.opened(path) is Ok,
    {
        match self.entries[path] {
            Node::File { content, .. } => content,
            _ => Seq::empty(),
        }
    }
}

/// The step that follows `step` when the file system is in the state
/// `disk`.
pub open spec fn advance(step: StepView, req: RequestView, disk: Disk) -> StepView {
    match step {
        StepView::Stat(lookup) => resolved(lookup, disk.kind(lookup.path)),
        StepView::Open(target) => validated(req, target, disk.opened(target.path)),
        StepView::Read(snapshot) => StepView::Respond(
            sent(req, snapshot, disk.content(snapshot.path)),
        ),
        StepView::Respond(response) => StepView::Respond(response),
    }
}

/// Where `step` has led after `rounds` rounds of work on the file system.
pub open spec fn run(step: StepView, req: RequestView, disk: Disk, rounds: nat) -> StepView
    decreases rounds,
{
    if rounds == 0 {
        step
    } else {
        run(advance(step, req, disk), req, disk, (rounds - 1) as nat)
    }
}

/// The file that a request for `request_path` resolves to, with its
/// content type: the file that the path names, or the index file of the
/// directory that it names, or nothing.
pub open spec fn target(root: Seq<char>, request_path: Seq<char>, disk: Disk) -> Option<
    TargetView,
> {
    match located(root, request_path) {
        None => None,
        Some(path) => match disk.kind(path) {
            PathKind::File => Some(TargetView { path, content_type: media_type_of(path) }),
            PathKind::Directory => {
                let index = joined(path, INDEX@);
                if disk.kind(index) == PathKind::File {
                    Some(TargetView { path: index, content_type: HTML@ })
                } else {
                    None
                }
            },
            PathKind::Missing => None,
        },
    }
}

/// The response to `req` of a server for `root` when the file system is in
/// the state `disk`.
pub open spec fn served(root: Seq<char>, req: RequestView, disk: Disk) -> ResponseView {
    if req.method != Method::Get {
        method_not_allowed_response()
    } else {
        match target(root, req.path, disk) {
            None => not_found_response(),
            Some(file) => match disk.opened(file.path) {
                Err(msg) => internal_error_response(msg),
                Ok(stats) => {
                    let tokens = cache_tokens(stats);
                    if cache_hit(req.if_none_match, tokens.0) {
                        not_modified_response()
                    } else {
                        sent(
                            req,
                            SnapshotView {
                                path: file.path,
                                content_type: file.content_type,
                                etag: tokens.0,
                                modified: tokens.1,
                            },
                            disk.content(file.path),
                        )
                    }
                },
            },
        }
    }
}

/// The handler answers every request within four rounds of work on the
/// file system, and its answer is `served`.
pub proof fn lemma_run_serves(root: Seq<char>, req: RequestView, disk: Disk)
    ensures
        run(begun(root, req), req, disk, 4) == StepView::Respond(served(root, req, disk)),
{
    reveal_with_fuel(run, 5);
}

/// Text without a separator, put behind a path, lengthens the path's last
/// segment.
proof fn lemma_segments_extend(path: Seq<char>, name: Seq<char>)
    requires
        forall|i: int| 0 <= i < name.len() ==> name[i] != '/',
    ensures
        segments(path).len() >= 1,
        segments(path + name) == segments(path).drop_last().push(segments(path).last() + name),
    decreases name.len(),
{
    lemma_segments_nonempty(path);
    let segs = segments(path);
    if name.len() == 0 {
        assert(path + name =~= path);
        assert(segs.last() + name =~= segs.last());
        assert(segs.drop_last().push(segs.last()) =~= segs);
    } else {
        let shorter = name.drop_last();
        lemma_segments_extend(path, shorter);
        let whole = path + name;
        assert(whole.drop_last() =~= path + shorter);
        assert(whole.last() == name.last());
        let before = segments(path + shorter);
        assert(before.drop_last() =~= segs.drop_last());
        assert(before.last() == segs.last() + shorter);
        assert((segs.last() + shorter).push(name.last()) =~= segs.last() + name);
    }
}

/// A separator behind a path ends its last segment and starts an empty
/// one.
proof fn lemma_segments_separator(path: Seq<char>)
    ensures
        segments(path + seq!['/']) == segments(path).push(Seq::empty()),
{
    let whole = path + seq!['/'];
    assert(whole.drop_last() =~= path);
    assert(whole.last() == '/');
}

/// A walk is above its start at its end only if it is so at some point.
proof fn lemma_depth_climbs(segs: Seq<Seq<char>>)
    requires
        depth(segs) < 0,
    ensures
        climbs_out(segs),
{
    assert(segs.take(segs.len() as int) =~= segs);
}

/// The name of the index file is a plain name: it holds no separator and
/// leads one directory down.
proof fn lemma_index_name()
    ensures
        INDEX@.len() == 10,
        forall|i: int| 0 <= i < INDEX@.len() ==> INDEX@[i] != '/',
        descent(INDEX@) == 1,
{
    reveal_strlit("index.html");
    assert(!(INDEX@ =~= seq!['.', '.']));
    assert(!(INDEX@ =~= seq!['.']));
}

/// The index file of a directory is as far below the served directory as
/// the directory itself: its path leaves the served directory if and only
/// if the directory's does.
proof fn lemma_index_stays(rel: Seq<char>)
    ensures
        escapes_root(joined(rel, INDEX@)) == escapes_root(rel),
{
    lemma_index_name();
    lemma_segments_nonempty(rel);
    let name = INDEX@;
    let segs = segments(rel);
    let closed = segs.drop_last();
    assert(segs =~= closed.push(segs.last()));
    lemma_climbs_out_push(closed, segs.last());
    if rel.len() == 0 {
        assert(joined(rel, name) == name);
        lemma_segments_extend(rel, name);
        assert(Seq::<char>::empty() + name =~= name);
        assert(segs =~= seq![Seq::<char>::empty()]);
        assert(closed =~= Seq::<Seq<char>>::empty());
        assert(segs.last() + name =~= name);
        lemma_climbs_out_push(closed, name);
        assert(depth(closed) == 0);
        assert(closed.push(name).drop_last() =~= closed);
        assert(segs.drop_last() =~= closed);
    } else if rel.last() == '/' {
        let path = joined(rel, name);
        assert(path == rel + name);
        lemma_segments_extend(rel, name);
        assert(rel.drop_last() + seq!['/'] =~= rel);
        lemma_segments_separator(rel.drop_last());
        assert(segs.last() =~= Seq::<char>::empty());
        assert(segs.last() + name =~= name);
        lemma_climbs_out_push(closed, name);
        assert(closed.push(name).drop_last() =~= closed);
        assert(closed.push(name).last() == name);
        if depth(closed) < 0 {
            lemma_depth_climbs(closed);
        }
        assert(path[0] == rel[0]);
    } else {
        let path = joined(rel, name);
        assert(path == rel + seq!['/'] + name);
        lemma_segments_separator(rel);
        lemma_segments_extend(rel + seq!['/'], name);
        let opened = segs.push(Seq::<char>::empty());
        assert(opened.drop_last() =~= segs);
        assert(opened.last() + name =~= name);
        lemma_climbs_out_push(segs, name);
        assert(segs.push(name).drop_last() =~= segs);
        assert(segs.push(name).last() == name);
        if depth(segs) < 0 {
            lemma_depth_climbs(segs);
        }
        assert(path[0] == rel[0]);
    }
}

/// To ask for the index file of a directory by name is to ask for the path
/// that the lookup of the directory arrives at.
proof fn lemma_index_located(root: Seq<char>, request_path: Seq<char>)
    ensures
        located(root, joined(request_path, INDEX@)) == match located(root, request_path) {
            Some(dir) => Some(joined(dir, INDEX@)),
            None => None,
        },
        located(root, request_path) matches Some(dir) ==> names_index(joined(dir, INDEX@)),
{
    lemma_index_name();
    let name = INDEX@;
    let rel = strip_separator(request_path);
    let direct = joined(request_path, name);
    assert(strip_separator(direct) =~= joined(rel, name)) by {
        reveal_strlit("index.html");
        if request_path.len() == 0 {
        } else if request_path[0] == '/' {
            if request_path.len() == 1 {
                assert(rel =~= Seq::<char>::empty());
                assert(direct =~= seq!['/'] + name);
            } else {
                assert(rel.last() == request_path.last());
            }
        } else {
            assert(direct[0] == request_path[0]);
        }
    }
    lemma_index_stays(rel);
    if !escapes_root(rel) {
        let dir = joined(root, rel);
        assert(joined(root, joined(rel, name)) =~= joined(dir, name)) by {
            if root.len() > 0 && rel.len() > 0 {
                assert(dir.last() == rel.last());
            }
        }
        let index = joined(dir, name);
        if dir.len() > 0 {
            assert(index.skip(index.len() - name.len() - 1) =~= seq!['/'] + name);
        }
    }
}

/// A request for an existing regular file below the served directory is
/// answered with the file: its bytes as they are where the client names no
/// coding that the server has, its DEFLATE stream where the client accepts
/// `deflate`. The client's cache must not already hold the current
/// version.
pub proof fn law_file_is_served(
    root: Seq<char>,
    req: RequestView,
    disk: Disk,
    path: Seq<char>,
    stats: FileStats,
    content: Seq<u8>,
)
    requires
        req.method == Method::Get,
        located(root, req.path) == Some(path),
        disk.entries.dom().contains(path),
        disk.entries[path] == (Node::File { stats, content }),
        !cache_hit(req.if_none_match, cache_tokens(stats).0),
    ensures
        served(root, req, disk).status == StatusCode::Success,
        served(root, req, disk).headers.etag == Some(cache_tokens(stats).0),
        served(root, req, disk).headers.content_type == Some(media_type_of(path)),
        req.accept_encoding is None ==> served(root, req, disk).body == content,
        req.accept_encoding matches Some(list) ==> served(root, req, disk).body == if accepts_deflate(
            list,
        ) {
            deflate_stream(content)
        } else {
            content
        },
{
}

/// A request for a directory that holds a regular file `index.html` is
/// answered as the request for that file by name is.
pub proof fn law_directory_serves_index(
    root: Seq<char>,
    req: RequestView,
    disk: Disk,
    dir: Seq<char>,
)
    requires
        located(root, req.path) == Some(dir),
        disk.kind(dir) == PathKind::Directory,
        disk.kind(joined(dir, INDEX@)) == PathKind::File,
    ensures
        served(root, req, disk) == served(
            root,
            RequestView { path: joined(req.path, INDEX@), ..req },
            disk,
        ),
{
    lemma_index_located(root, req.path);
}

/// A request for a directory without a regular file `index.html` finds
/// nothing.
pub proof fn law_directory_without_index(
    root: Seq<char>,
    req: RequestView,
    disk: Disk,
    dir: Seq<char>,
)
    requires
        req.method == Method::Get,
        located(root, req.path) == Some(dir),
        disk.kind(dir) == PathKind::Directory,
        disk.kind(joined(dir, INDEX@)) != PathKind::File,
    ensures
        served(root, req, disk) == not_found_response(),
{
}

/// A request for a path at which there is nothing finds nothing, and so
/// does one for a path that would leave the served directory.
pub proof fn law_missing_is_not_found(root: Seq<char>, req: RequestView, disk: Disk)
    requires
        req.method == Method::Get,
        located(root, req.path) matches Some(path) ==> disk.kind(path) == PathKind::Missing,
    ensures
        served(root, req, disk) == not_found_response(),
{
}

/// After a request that was answered with a file, a second request for the
/// same path that carries the first answer's entity tag in `If-None-Match`
/// is answered with 304 and no body, as long as the file system has not
/// changed.
pub proof fn law_revalidation(
    root: Seq<char>,
    first: RequestView,
    second: RequestView,
    disk: Disk,
)
    requires
        served(root, first, disk).status == StatusCode::Success,
        second.method == Method::Get,
        second.path == first.path,
        second.if_none_match matches Some(IfNoneMatchView::Items(tags)) && exists|i: int|
            0 <= i < tags.len() && Some(#[trigger] tags[i]) == served(
                root,
                first,
                disk,
            ).headers.etag,
    ensures
        served(root, second, disk) == not_modified_response(),
        served(root, second, disk).status == StatusCode::NotModified,
        served(root, second, disk).body.len() == 0,
{
}

/// A request with any method but GET is turned down with 405, whatever
/// its path and whatever is on the file system.
pub proof fn law_only_get(root: Seq<char>, req: RequestView, disk: Disk)
    requires
        req.method != Method::Get,
    ensures
        served(root, req, disk) == method_not_allowed_response(),
        served(root, req, disk).status == StatusCode::MethodNotAllowed,
{
}

/// A file that is there but cannot be opened is reported as a failure of
/// the server, with the reason as the body.
pub proof fn law_unreadable_is_internal_error(
    root: Seq<char>,
    req: RequestView,
    disk: Disk,
    path: Seq<char>,
    error: Seq<char>,
)
    requires
        req.method == Method::Get,
        located(root, req.path) == Some(path),
        disk.entries.dom().contains(path),
        disk.entries[path] == (Node::Unreadable { error }),
    ensures
        served(root, req, disk) == internal_error_response(error),
{
}

} // verus!
