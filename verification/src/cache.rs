//! Cache validators: the entity tag and the modification time that a file's
//! metadata gives.

use crate::decimal::{decimal, is_digit, lemma_decimal_digits, lemma_decimal_injective, push_decimal};
use vstd::prelude::*;
use vstd::std_specs::iter::IteratorSpec;
use vstd::string::*;

verus! {

/// An instant, as the time that has passed since the Unix epoch.
#[derive(Clone, Copy, Debug, PartialEq, Eq)]
pub struct ModTime {
    /// Whole seconds.
    pub secs: u64,
    /// The part below a second, in nanoseconds.
    pub nanos: u32,
}

/// What the file system records of an opened file.
#[derive(Clone, Copy, Debug, PartialEq, Eq)]
pub struct FileStats {
    /// Size in bytes.
    pub len: u64,
    /// When the file was last modified, where the file system knows it.
    pub modified: Option<ModTime>,
}

/// The `Last-Modified` validator.
#[derive(Clone, Copy, Debug, PartialEq, Eq)]
pub struct LastModified(pub ModTime);

/// Whether `c` may stand in the opaque part of an entity tag: any character
/// but controls, the space, the double quote and DEL.
pub open spec fn is_tag_char(c: char) -> bool {
    c == '\u{21}' || ('\u{23}' <= c <= '\u{7e}') || c >= '\u{80}'
}

/// Whether `tag` can be the opaque part of an entity tag.
pub open spec fn is_valid_tag(tag: Seq<char>) -> bool {
    forall|i: int| 0 <= i < tag.len() ==> is_tag_char(#[trigger] tag[i])
}

/// An entity tag as a mathematical value.
pub struct EntityTagView {
    pub weak: bool,
    pub tag: Seq<char>,
}

/// An entity tag: an opaque validator for one version of a resource.
#[derive(Clone, Debug, PartialEq, Eq)]
pub struct EntityTag {
    /// Whether the tag is a weak validator.
    pub weak: bool,
    /// The opaque text between the quotes.
    pub tag: String,
}

impl View for EntityTag {
    type V = EntityTagView;

    open spec fn view(&self) -> EntityTagView {
        EntityTagView { weak: self.weak, tag: self.tag@ }
    }
}

/// Strong comparison: both tags are strong and their texts are the same,
/// character by character.
pub open spec fn strong_match(a: EntityTagView, b: EntityTagView) -> bool {
    !a.weak && !b.weak && a.tag == b.tag
}

/// Tells whether `tag` can be the opaque part of an entity tag.
pub fn valid_tag(tag: &str) -> (ok: bool)
    ensures
        ok == is_valid_tag(tag@),
{
    let mut ok = true;
    for c in it: tag.chars()
        invariant
            it.seq() == tag@,
            ok == is_valid_tag(tag@.take(it.index() as int)),
    {
        let here = c == '\u{21}' || ('\u{23}' <= c && c <= '\u{7e}') || c >= '\u{80}';
        proof {
            let k = it.index() as int;
            let before = tag@.take(k);
            let after = tag@.take(k + 1);
            assert(after =~= before.push(c));
            if ok && here {
                assert forall|i: int| 0 <= i < after.len() implies is_tag_char(
                    #[trigger] after[i],
                ) by {
                    if i < k {
                        assert(after[i] == before[i]);
                    }
                }
            } else if !ok {
                let j = choose|j: int| 0 <= j < before.len() && !is_tag_char(#[trigger] before[j]);
                assert(after[j] == before[j]);
            } else {
                assert(after[k] == c);
            }
        }
        ok = ok && here;
    }
    assert(tag@.take(tag@.len() as int) =~= tag@);
    ok
}

impl EntityTag {
    /// Whether the tag's text holds only characters that a tag may hold.
    pub open spec fn well_formed(&self) -> bool {
        is_valid_tag(self.tag@)
    }

    /// Makes an entity tag.
    pub fn new(weak: bool, tag: String) -> (etag: EntityTag)
        requires
            is_valid_tag(tag@),
        ensures
            etag@ == (EntityTagView { weak, tag: tag@ }),
            etag.well_formed(),
    {
        EntityTag { weak, tag }
    }

    /// Makes a weak entity tag.
    pub fn weak(tag: String) -> (etag: EntityTag)
        requires
            is_valid_tag(tag@),
        ensures
            etag@ == (EntityTagView { weak: true, tag: tag@ }),
            etag.well_formed(),
    {
        EntityTag::new(true, tag)
    }

    /// Makes a strong entity tag.
    pub fn strong(tag: String) -> (etag: EntityTag)
        requires
            is_valid_tag(tag@),
        ensures
            etag@ == (EntityTagView { weak: false, tag: tag@ }),
            etag.well_formed(),
    {
        EntityTag::new(false, tag)
    }

    /// The opaque text of the tag.
    pub fn tag(&self) -> (text: &str)
        ensures
            text@ == self.tag@,
    {
        self.tag.as_str()
    }

    /// Strong comparison with `other`.
    pub fn strong_eq(&self, other: &EntityTag) -> (same: bool)
        ensures
            same == strong_match(self@, other@),
    {
        !self.weak && !other.weak && self.tag == other.tag
    }
}

/// The text of the entity tag of a file with the metadata `stats`: seconds,
/// a dot, nanoseconds, a hyphen and the size where the modification time is
/// known, the size alone where it is not.
pub open spec fn etag_text(stats: FileStats) -> Seq<char> {
    match stats.modified {
        Some(at) => decimal(at.secs as nat) + seq!['.'] + decimal(at.nanos as nat) + seq!['-']
            + decimal(stats.len as nat),
        None => decimal(stats.len as nat),
    }
}

/// The validators of a file with the metadata `stats`.
pub open spec fn cache_tokens(stats: FileStats) -> (EntityTagView, Option<LastModified>) {
    (
        EntityTagView { weak: false, tag: etag_text(stats) },
        match stats.modified {
            Some(at) => Some(LastModified(at)),
            None => None,
        },
    )
}

/// In `head`, then `sep`, then `tail`, where `head` is free of `sep`, the
/// place of the first `sep` tells `head` and `tail` apart.
proof fn lemma_split_unique(a1: Seq<char>, b1: Seq<char>, a2: Seq<char>, b2: Seq<char>, sep: char)
    requires
        forall|i: int| 0 <= i < a1.len() ==> a1[i] != sep,
        forall|i: int| 0 <= i < a2.len() ==> a2[i] != sep,
        a1 + seq![sep] + b1 == a2 + seq![sep] + b2,
    ensures
        a1 == a2,
        b1 == b2,
{
    let left = a1 + seq![sep] + b1;
    let right = a2 + seq![sep] + b2;
    assert(left[a1.len() as int] == sep);
    assert(right[a2.len() as int] == sep);
    if a1.len() < a2.len() {
        assert(right[a1.len() as int] == a2[a1.len() as int]);
    }
    if a2.len() < a1.len() {
        assert(left[a2.len() as int] == a1[a2.len() as int]);
    }
    assert(a1 =~= left.take(a1.len() as int));
    assert(a2 =~= right.take(a2.len() as int));
    assert(b1 =~= left.skip(a1.len() as int + 1));
    assert(b2 =~= right.skip(a2.len() as int + 1));
}

/// The text of an entity tag made from metadata is a valid tag.
pub proof fn lemma_etag_text_valid(stats: FileStats)
    ensures
        is_valid_tag(etag_text(stats)),
{
    lemma_decimal_digits(stats.len as nat);
    match stats.modified {
        Some(at) => {
            lemma_decimal_digits(at.secs as nat);
            lemma_decimal_digits(at.nanos as nat);
        },
        None => {},
    }
}

/// Two observations of a file give different entity tags if and only if the
/// size or the modification time differs between them.
pub proof fn law_etag_tracks_metadata(first: FileStats, second: FileStats)
    ensures
        cache_tokens(first).0 != cache_tokens(second).0 <==> (first.len != second.len
            || first.modified != second.modified),
{
    let size1 = decimal(first.len as nat);
    let size2 = decimal(second.len as nat);
    lemma_decimal_digits(first.len as nat);
    lemma_decimal_digits(second.len as nat);
    if etag_text(first) == etag_text(second) {
        match (first.modified, second.modified) {
            (Some(m1), Some(m2)) => {
                let s1 = decimal(m1.secs as nat);
                let s2 = decimal(m2.secs as nat);
                let n1 = decimal(m1.nanos as nat);
                let n2 = decimal(m2.nanos as nat);
                lemma_decimal_digits(m1.secs as nat);
                lemma_decimal_digits(m2.secs as nat);
                lemma_decimal_digits(m1.nanos as nat);
                lemma_decimal_digits(m2.nanos as nat);
                assert(etag_text(first) =~= s1 + seq!['.'] + (n1 + seq!['-'] + size1));
                assert(etag_text(second) =~= s2 + seq!['.'] + (n2 + seq!['-'] + size2));
                lemma_split_unique(s1, n1 + seq!['-'] + size1, s2, n2 + seq!['-'] + size2, '.');
                lemma_split_unique(n1, size1, n2, size2, '-');
                lemma_decimal_injective(m1.secs as nat, m2.secs as nat);
                lemma_decimal_injective(m1.nanos as nat, m2.nanos as nat);
                lemma_decimal_injective(first.len as nat, second.len as nat);
            },
            (Some(m1), None) => {
                let s1 = decimal(m1.secs as nat);
                lemma_decimal_digits(m1.secs as nat);
                assert(etag_text(first)[s1.len() as int] == '.');
                assert(is_digit(size2[s1.len() as int]));
            },
            (None, Some(m2)) => {
                let s2 = decimal(m2.secs as nat);
                lemma_decimal_digits(m2.secs as nat);
                assert(etag_text(second)[s2.len() as int] == '.');
                assert(is_digit(size1[s2.len() as int]));
            },
            (None, None) => {
                lemma_decimal_injective(first.len as nat, second.len as nat);
            },
        }
    }
}

/// Derives the validators of a file from its metadata: a strong entity tag
/// that changes whenever the size or the modification time does, and the
/// modification time itself where the file system knows it.
pub fn cache_headers(stats: &FileStats) -> (tokens: (EntityTag, Option<LastModified>))
    ensures
        (tokens.0@, tokens.1) == cache_tokens(*stats),
        tokens.0.well_formed(),
{
    proof {
        lemma_etag_text_valid(*stats);
    }
    let mut text = String::new();
    match stats.modified {
        Some(at) => {
            proof {
                reveal_strlit(".");
                reveal_strlit("-");
            }
            push_decimal(&mut text, at.secs);
            text.append(".");
            push_decimal(&mut text, at.nanos as u64);
            text.append("-");
            push_decimal(&mut text, stats.len);
            assert(text@ =~= etag_text(*stats));
            (EntityTag::strong(text), Some(LastModified(at)))
        },
        None => {
            push_decimal(&mut text, stats.len);
            assert(text@ =~= etag_text(*stats));
            (EntityTag::strong(text), None)
        },
    }
}

} // verus!
