//! How the development server answers a request: which file under the
//! output directory serves a URI path.
use vstd::prelude::*;

use crate::pathname::{ext_of, extension, join, join_of, name, name_of};

verus! {

/// The media type that new_mime_guess gives first for an extension, or
/// `text/plain` when it knows none.
pub uninterp spec fn mime_of(ext: Seq<char>) -> Seq<char>;

/// Relies on new_mime_guess's `from_ext` and `MimeGuess::first_or_text_plain`:
/// the first media type known for the extension, `text/plain` when none is.
#[verifier::external_body]
fn guess_mime(ext: &str) -> (r: String)
    ensures
        r@ == mime_of(ext@),
{
    new_mime_guess::from_ext(ext).first_or_text_plain().to_string()
}

/// Serves files from one directory.
#[derive(Debug, Clone)]
pub struct FileServe {
    pub dir: String,
}

/// What to answer.
#[derive(Debug, Clone)]
pub enum Route {
    /// Only `GET` is served.
    MethodNotAllowed,
    /// A page: `file` as HTML if it exists, else `not_found` (the site's
    /// 404 page) if that exists, else a plain not-found answer.
    Page { file: String, not_found: String },
    /// A file with an extension, with its media type; a plain, empty
    /// not-found answer when it does not exist.
    File { file: String, mime: String },
}

/// The URI path below the served directory: what follows the leading `/`,
/// or nothing when there is none.
pub open spec fn relative_of(uri: Seq<char>) -> Seq<char> {
    if uri.len() > 0 && uri[0] == '/' {
        uri.subrange(1, uri.len() as int)
    } else {
        Seq::empty()
    }
}

impl FileServe {
    pub fn new(dir: &str) -> (r: FileServe)
        ensures
            r.dir@ == dir@,
    {
        FileServe { dir: dir.to_string() }
    }

    /// The answer to a request for `uri_path`: a path whose last component
    /// has no extension is a page directory holding `index.html`.
    pub fn route(&self, is_get: bool, uri_path: &str) -> (r: Route)
        ensures
            !is_get ==> r is MethodNotAllowed,
            is_get && ext_of(name_of(uri_path@)) is None ==> (r matches Route::Page {
                file,
                not_found,
            } && file@ == join_of(join_of(self.dir@, relative_of(uri_path@)), "index.html"@)
                && not_found@ == join_of(self.dir@, "404.html"@)),
            is_get && ext_of(name_of(uri_path@)) is Some ==> (r matches Route::File { file, mime }
                && file@ == join_of(self.dir@, relative_of(uri_path@)) && mime@ == mime_of(
                ext_of(name_of(uri_path@)).unwrap(),
            )),
    {
        if !is_get {
            return Route::MethodNotAllowed;
        }
        let n = uri_path.unicode_len();
        let rel = if n > 0 && uri_path.get_char(0) == '/' {
            uri_path.substring_char(1, n)
        } else {
            uri_path.substring_char(0, 0)
        };
        match extension(name(uri_path)) {
            None => {
                let page_dir = join(self.dir.as_str(), rel);
                Route::Page {
                    file: join(page_dir.as_str(), "index.html"),
                    not_found: join(self.dir.as_str(), "404.html"),
                }
            },
            Some(ext) => Route::File { file: join(self.dir.as_str(), rel), mime: guess_mime(ext) },
        }
    }
}

} // verus!
