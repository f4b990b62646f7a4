//! The content type of a file, told by its name.

use vstd::prelude::*;
use vstd::string::*;

verus! {

/// The `Content-Type` of a response: a media type, such as `text/html`.
#[derive(Clone, Debug, PartialEq, Eq)]
pub struct ContentType(pub String);

impl View for ContentType {
    type V = Seq<char>;

    open spec fn view(&self) -> Seq<char> {
        self.0@
    }
}

/// The name of the file that stands for a directory.
pub const INDEX: &'static str = "index.html";

/// The media type of HTML.
pub const HTML: &'static str = "text/html";

/// Whether the last component of `path` is `index.html`.
pub open spec fn names_index(path: Seq<char>) -> bool {
    path == INDEX@ || (path.len() > INDEX@.len() && path.skip(path.len() - INDEX@.len() - 1)
        == seq!['/'] + INDEX@)
}

/// The media type that the extension table gives for the path `path`:
/// that of its extension, or `application/octet-stream` where it has none
/// or an unknown one.
pub uninterp spec fn guessed_media_type(path: Seq<char>) -> Seq<char>;

/// The content type of the file at `path`: HTML for a file named
/// `index.html`, else what the extension table gives.
pub open spec fn media_type_of(path: Seq<char>) -> Seq<char> {
    if names_index(path) {
        HTML@
    } else {
        guessed_media_type(path)
    }
}

/// Calls `mime_guess::guess_mime_type` and writes the media type out as
/// text. The guess looks at the extension of `path` alone and never at the
/// file system, so it depends on `path` alone. For a file named
/// `index.html` the extension is `html`, for which the table holds
/// `text/html`.
#[verifier::external_body]
#[allow(deprecated)]
fn guess_mime_type(path: &str) -> (media_type: String)
    ensures
        media_type@ == guessed_media_type(path@),
        names_index(path@) ==> media_type@ == HTML@,
{
    mime_guess::guess_mime_type(path).to_string()
}

impl ContentType {
    /// The content type of HTML.
    pub fn html() -> (content_type: ContentType)
        ensures
            content_type@ == HTML@,
    {
        ContentType(HTML.to_owned())
    }

    /// The content type of the file at `path`, told by its extension.
    pub fn guess(path: &str) -> (content_type: ContentType)
        ensures
            content_type@ == media_type_of(path@),
    {
        ContentType(guess_mime_type(path))
    }
}

} // verus!
