//! From a request path to a path below the served directory.

use vstd::prelude::*;
use vstd::std_specs::iter::IteratorSpec;
use vstd::string::*;

verus! {

/// What the file system finds at a path.
#[derive(Clone, Copy, Debug, PartialEq, Eq, Structural)]
pub enum PathKind {
    /// A regular file.
    File,
    /// A directory.
    Directory,
    /// Nothing that can be served: no entry at all, or one of another kind.
    Missing,
}

/// The request path without its leading separator, if it has one.
pub open spec fn strip_separator(path: Seq<char>) -> Seq<char> {
    if path.len() > 0 && path[0] == '/' {
        path.skip(1)
    } else {
        path
    }
}

/// `rel` below `base`: one after the other, with a separator between them
/// unless `base` is empty or ends in one. `rel` never takes the place of
/// `base`.
pub open spec fn joined(base: Seq<char>, rel: Seq<char>) -> Seq<char> {
    if base.len() == 0 {
        rel
    } else if base.last() == '/' {
        base + rel
    } else {
        base + seq!['/'] + rel
    }
}

/// The pieces of `path` between its separators, in order. A path without a
/// separator is one piece; two separators in a row hold an empty piece.
pub open spec fn segments(path: Seq<char>) -> Seq<Seq<char>>
    decreases path.len(),
{
    if path.len() == 0 {
        seq![Seq::empty()]
    } else {
        let before = segments(path.drop_last());
        if path.last() == '/' {
            before.push(Seq::empty())
        } else {
            before.drop_last().push(before.last().push(path.last()))
        }
    }
}

/// By how many directories a segment leads down: one for a name, none for
/// an empty segment or `.`, one up for `..`.
pub open spec fn descent(segment: Seq<char>) -> int {
    if segment =~= seq!['.', '.'] {
        -1
    } else if segment.len() == 0 || segment =~= seq!['.'] {
        0
    } else {
        1
    }
}

/// How many directories below its start a walk along `segs` ends.
pub open spec fn depth(segs: Seq<Seq<char>>) -> int
    decreases segs.len(),
{
    if segs.len() == 0 {
        0
    } else {
        depth(segs.drop_last()) + descent(segs.last())
    }
}

/// Whether a walk along `segs` is at some point above its start.
pub open spec fn climbs_out(segs: Seq<Seq<char>>) -> bool {
    exists|k: int| 0 <= k <= segs.len() && depth(#[trigger] segs.take(k)) < 0
}

/// Whether the relative path `rel` leaves the directory it is joined to:
/// it starts at the file system's root, or its `..` segments lead above
/// the directory at some point of the walk.
pub open spec fn escapes_root(rel: Seq<char>) -> bool {
    (rel.len() > 0 && rel[0] == '/') || climbs_out(segments(rel))
}

/// The path that a request for `request_path` names below `root`, where it
/// stays below `root`.
pub open spec fn located(root: Seq<char>, request_path: Seq<char>) -> Option<Seq<char>> {
    let rel = strip_separator(request_path);
    if escapes_root(rel) {
        None
    } else {
        Some(joined(root, rel))
    }
}

/// A path always has a last segment.
pub proof fn lemma_segments_nonempty(path: Seq<char>)
    ensures
        segments(path).len() >= 1,
    decreases path.len(),
{
    if path.len() > 0 {
        lemma_segments_nonempty(path.drop_last());
    }
}

/// One more segment at the end leaves the walk above its start if it was
/// there before, or if it ends there now.
pub proof fn lemma_climbs_out_push(segs: Seq<Seq<char>>, last: Seq<char>)
    ensures
        climbs_out(segs.push(last)) <==> climbs_out(segs) || depth(segs.push(last)) < 0,
{
    let more = segs.push(last);
    assert(more.take(more.len() as int) =~= more);
    if climbs_out(segs) {
        let k = choose|k: int| 0 <= k <= segs.len() && depth(#[trigger] segs.take(k)) < 0;
        assert(more.take(k) =~= segs.take(k));
    }
    if climbs_out(more) {
        let k = choose|k: int| 0 <= k <= more.len() && depth(#[trigger] more.take(k)) < 0;
        if k <= segs.len() {
            assert(more.take(k) =~= segs.take(k));
        }
    }
}

/// Removes the leading separator of a request path, if there is one.
pub fn strip_leading_separator(path: &str) -> (rest: &str)
    ensures
        rest@ == strip_separator(path@),
{
    let n = path.unicode_len();
    if n > 0 && path.get_char(0) == '/' {
        let rest = path.substring_char(1, n);
        assert(rest@ =~= path@.skip(1));
        rest
    } else {
        path
    }
}

/// Puts `rel` below `base`.
pub fn join_path(base: &str, rel: &str) -> (path: String)
    ensures
        path@ == joined(base@, rel@),
{
    let n = base.unicode_len();
    if n == 0 {
        return rel.to_owned();
    }
    let mut path = base.to_owned();
    if base.get_char(n - 1) != '/' {
        proof {
            reveal_strlit("/");
        }
        path.append("/");
        assert(path@ =~= base@ + seq!['/']);
    }
    path.append(rel);
    path
}

/// Tells whether the relative path `rel` leaves the directory it is joined
/// to.
pub fn leaves_root(rel: &str) -> (out: bool)
    ensures
        out == escapes_root(rel@),
{
    let n = rel.unicode_len();
    // Depth after the segments that have ended, while the walk has stayed
    // at or below its start.
    let mut level: usize = 0;
    let mut out = false;
    // The segment that has not ended yet: its length up to three, and
    // whether it holds dots only.
    let mut len: u8 = 0;
    let mut dots = true;
    let absolute = n > 0 && rel.get_char(0) == '/';
    proof {
        assert(rel@.take(0) =~= Seq::<char>::empty());
        assert(segments(rel@.take(0)).drop_last() =~= Seq::<Seq<char>>::empty());
        assert(Seq::<Seq<char>>::empty().take(0) =~= Seq::<Seq<char>>::empty());
    }
    for c in it: rel.chars()
        invariant
            it.seq() == rel@,
            n == rel@.len(),
            segments(rel@.take(it.index() as int)).len() >= 1,
            segments(rel@.take(it.index() as int)).len() <= it.index() + 1,
            out == climbs_out(segments(rel@.take(it.index() as int)).drop_last()),
            !out ==> level == depth(segments(rel@.take(it.index() as int)).drop_last()),
            level <= it.index(),
            len <= 3,
            len < 3 ==> len == segments(rel@.take(it.index() as int)).last().len(),
            len == 3 ==> segments(rel@.take(it.index() as int)).last().len() >= 3,
            dots == (forall|i: int|
                0 <= i < segments(rel@.take(it.index() as int)).last().len() ==> segments(
                    rel@.take(it.index() as int),
                ).last()[i] == '.'),
    {
        let ghost k = it.index() as int;
        let ghost before = segments(rel@.take(k));
        let ghost closed = before.drop_last();
        let ghost open = before.last();
        let ghost after = segments(rel@.take(k + 1));
        proof {
            assert(rel@.take(k + 1).drop_last() =~= rel@.take(k));
            assert(rel@.take(k + 1).last() == c);
            assert(before =~= closed.push(open));
        }
        if c == '/' {
            proof {
                assert(after =~= before.push(Seq::empty()));
                assert(after.drop_last() =~= before);
                lemma_climbs_out_push(closed, open);
                assert(open =~= seq!['.', '.'] <==> len == 2 && dots) by {
                    if len == 2 && dots {
                        assert(open[0] == '.' && open[1] == '.');
                    }
                }
                assert(open =~= seq!['.'] <==> len == 1 && dots) by {
                    if len == 1 && dots {
                        assert(open[0] == '.');
                    }
                }
            }
            if !out {
                if len == 2 && dots {
                    if level == 0 {
                        out = true;
                    } else {
                        level = level - 1;
                    }
                } else if len == 0 || (len == 1 && dots) {
                } else {
                    level = level + 1;
                }
            }
            len = 0;
            dots = true;
        } else {
            proof {
                assert(after =~= closed.push(open.push(c)));
                assert(after.drop_last() =~= closed);
                assert(after.last() =~= open.push(c));
            }
            if len < 3 {
                len = len + 1;
            }
            let ghost was = dots;
            dots = dots && c == '.';
            proof {
                let grown = open.push(c);
                if dots {
                    assert forall|i: int| 0 <= i < grown.len() implies grown[i] == '.' by {
                        if i < open.len() {
                            assert(grown[i] == open[i]);
                        }
                    }
                } else if !was {
                    let j = choose|j: int| 0 <= j < open.len() && open[j] != '.';
                    assert(grown[j] == open[j]);
                } else {
                    assert(grown[open.len() as int] == c);
                }
            }
        }
    }
    proof {
        assert(rel@.take(n as int) =~= rel@);
        let all = segments(rel@);
        let closed = all.drop_last();
        let open = all.last();
        assert(all =~= closed.push(open));
        lemma_climbs_out_push(closed, open);
        assert(open =~= seq!['.', '.'] <==> len == 2 && dots) by {
            if len == 2 && dots {
                assert(open[0] == '.' && open[1] == '.');
            }
        }
    }
    absolute || out || (len == 2 && dots && level == 0)
}

/// The path below `root` that a request for `request_path` names, or
/// nothing where that path would leave `root`.
pub fn locate(root: &str, request_path: &str) -> (path: Option<String>)
    ensures
        match path {
            Some(p) => located(root@, request_path@) == Some(p@),
            None => located(root@, request_path@) is None,
        },
{
    let rel = strip_leading_separator(request_path);
    if leaves_root(rel) {
        None
    } else {
        Some(join_path(root, rel))
    }
}

} // verus!
