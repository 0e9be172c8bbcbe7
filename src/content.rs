//! The content model: the type of a source file, its front matter, and
//! where its page goes in the output tree.
use vstd::prelude::*;

use crate::pathname::{
    ext_of, extension, file_name, file_name_of, join, join_of, last_sep, name, name_of, parent,
    parent_of, stem, stem_of, str_eq,
};
use crate::templating::TemplatePath;
use crate::utils::{clone_opt, opt_view, unprefixed_parent, unprefixed_parent_of};

verus! {

/// What a source file holds, by its extension.
#[derive(Debug, Clone, Copy, PartialEq, Eq, Structural)]
pub enum ContentType {
    Html,
    Xml,
    Jotdown,
    Typst,
    Unknown,
}

/// Why a content file could not be taken in or rendered.
#[derive(Debug, Clone, Copy, PartialEq, Eq, Structural)]
pub enum ContentError {
    NoExtension,
    NoFileName,
    MissingFrontmatter,
    UnknownType,
}

/// The content type for an extension.
pub open spec fn content_type_of(ext: Seq<char>) -> ContentType {
    if ext == "xml"@ || ext == "xsl"@ {
        ContentType::Xml
    } else if ext == "html"@ {
        ContentType::Html
    } else if ext == "dj"@ || ext == "djot"@ {
        ContentType::Jotdown
    } else if ext == "typ"@ {
        ContentType::Typst
    } else {
        ContentType::Unknown
    }
}

impl ContentType {
    /// The content type of the file at `path`; a file without an extension
    /// has none.
    pub fn from_ext(path: &str) -> (r: Result<ContentType, ContentError>)
        ensures
            match ext_of(name_of(path@)) {
                Some(e) => r == Ok::<ContentType, ContentError>(content_type_of(e)),
                None => r == Err::<ContentType, ContentError>(ContentError::NoExtension),
            },
    {
        match extension(name(path)) {
            None => Err(ContentError::NoExtension),
            Some(e) => {
                if str_eq(e, "xml") || str_eq(e, "xsl") {
                    Ok(ContentType::Xml)
                } else if str_eq(e, "html") {
                    Ok(ContentType::Html)
                } else if str_eq(e, "dj") || str_eq(e, "djot") {
                    Ok(ContentType::Jotdown)
                } else if str_eq(e, "typ") {
                    Ok(ContentType::Typst)
                } else {
                    Ok(ContentType::Unknown)
                }
            },
        }
    }

    /// Whether pages of this type are HTML documents.
    pub fn is_html_family(self) -> (r: bool)
        ensures
            r == (self == ContentType::Html || self == ContentType::Jotdown || self
                == ContentType::Typst),
    {
        matches!(self, ContentType::Html | ContentType::Jotdown | ContentType::Typst)
    }
}

/// A calendar date.
#[derive(Debug, Clone, Copy, PartialEq, Eq, Structural)]
pub struct Date {
    pub year: i16,
    pub month: u8,
    pub day: u8,
}

/// The metadata block of a content file.
#[derive(Debug)]
pub struct Frontmatter {
    pub title: String,
    pub subtitle: Option<String>,
    pub description: Option<String>,
    pub slug: Option<String>,
    pub layout: Option<String>,
    pub last_modified: Option<Date>,
    pub created: Option<Date>,
}

impl Frontmatter {
    /// The front matter of a file that has none.
    pub fn empty() -> (r: Frontmatter)
        ensures
            r.title@.len() == 0,
            r.subtitle is None,
            r.description is None,
            r.slug is None,
            r.layout is None,
            r.last_modified is None,
            r.created is None,
    {
        Frontmatter {
            title: String::new(),
            subtitle: None,
            description: None,
            slug: None,
            layout: None,
            last_modified: None,
            created: None,
        }
    }

    /// The path segment of a page: its slug when it has one, else `stem`,
    /// with a trailing `/`.
    pub fn url(&self, stem: &str) -> (r: String)
        ensures
            r@ == match opt_view(self.slug) {
                Some(s) => s,
                None => stem@,
            } + seq!['/'],
    {
        let mut r = match &self.slug {
            Some(s) => s.clone(),
            None => stem.to_string(),
        };
        r.append("/");
        proof { reveal_strlit("/"); }
        r
    }
}

/// The file names that always go to the root of the output tree.
pub open spec fn is_special_name(n: Seq<char>) -> bool {
    n == "404.html"@ || n == "500.html"@
}

/// Where the page of a source file goes, relative to the output root.
pub open spec fn out_path_of(
    kind: ContentType,
    path: Seq<char>,
    dir: Option<Seq<char>>,
    slug: Option<Seq<char>>,
) -> Seq<char> {
    let index = "index.html"@;
    let base = match slug {
        Some(s) => s,
        None => stem_of(name_of(path)),
    };
    match kind {
        ContentType::Xml => name_of(path),
        ContentType::Jotdown | ContentType::Typst => join_of(base, index),
        _ => if is_special_name(name_of(path)) {
            name_of(path)
        } else {
            match dir {
                None => join_of(base, index),
                Some(d) => join_of(join_of(d, base), index),
            }
        },
    }
}

/// Whether `n` names a page that is always written at the output root.
pub fn is_special_page_name(n: &str) -> (r: bool)
    ensures
        r == is_special_name(n@),
{
    str_eq(n, "404.html") || str_eq(n, "500.html")
}

/// Where the page of `path` goes in the output tree, for its content type,
/// its directory below the content root and its slug.
pub fn out_path(kind: ContentType, path: &str, dir: &Option<String>, slug: &Option<String>) -> (r:
    String)
    ensures
        r@ == out_path_of(kind, path@, opt_view(*dir), opt_view(*slug)),
{
    let file = name(path);
    let base = match slug {
        Some(s) => s.as_str(),
        None => stem(file),
    };
    match kind {
        ContentType::Xml => file.to_string(),
        ContentType::Jotdown | ContentType::Typst => join(base, "index.html"),
        _ => {
            if is_special_page_name(file) {
                file.to_string()
            } else {
                match dir {
                    None => join(base, "index.html"),
                    Some(d) => {
                        let ds = join(d.as_str(), base);
                        join(ds.as_str(), "index.html")
                    },
                }
            }
        },
    }
}

/// How a page is turned into HTML.
#[derive(Debug, Clone)]
pub enum RenderRoute {
    /// The body is itself a template, rendered against the page context.
    Inline,
    /// The body goes through its markup renderer, and the result is placed
    /// into the layout with this key.
    Layout(TemplatePath),
}

/// A parsed source file.
#[derive(Debug)]
pub struct Content {
    pub source: String,
    pub out_path: String,
    pub dir: Option<String>,
    pub url: String,
    pub frontmatter: Frontmatter,
    pub content: String,
    pub kind: ContentType,
}

/// The canonical path of a page: the directory of its output, with a
/// trailing `/`.
pub open spec fn url_of(out: Seq<char>) -> Seq<char> {
    parent_of(out) + seq!['/']
}

impl Content {
    /// Takes in the file at `path` below `root`, of type `kind`, with the
    /// front matter and body found in it. Only XML may come without front
    /// matter; it then gets an empty one.
    pub fn new(
        path: &str,
        root: &str,
        kind: ContentType,
        frontmatter: Option<Frontmatter>,
        body: String,
    ) -> (r: Result<Content, ContentError>)
        ensures
            file_name_of(path@) is None ==> r == Err::<Content, ContentError>(
                ContentError::NoFileName,
            ),
            file_name_of(path@) is Some && frontmatter is None && kind != ContentType::Xml ==> r
                == Err::<Content, ContentError>(ContentError::MissingFrontmatter),
            file_name_of(path@) is Some && (frontmatter is Some || kind == ContentType::Xml)
                ==> r is Ok,
            r matches Ok(c) ==> {
                &&& c.source@ == path@
                &&& c.kind == kind
                &&& c.content@ == body@
                &&& opt_view(c.dir) == unprefixed_parent_of(path@, root@)
                &&& c.out_path@ == out_path_of(
                    kind,
                    path@,
                    unprefixed_parent_of(path@, root@),
                    opt_view(c.frontmatter.slug),
                )
                &&& c.url@ == url_of(c.out_path@)
                &&& (frontmatter matches Some(f) ==> c.frontmatter == f)
                &&& (frontmatter is None ==> {
                    &&& c.frontmatter.title@.len() == 0
                    &&& c.frontmatter.subtitle is None
                    &&& c.frontmatter.description is None
                    &&& c.frontmatter.slug is None
                    &&& c.frontmatter.layout is None
                    &&& c.frontmatter.last_modified is None
                    &&& c.frontmatter.created is None
                })
            },
    {
        if file_name(path).is_none() {
            return Err(ContentError::NoFileName);
        }
        let frontmatter = match frontmatter {
            Some(f) => f,
            None => {
                if matches!(kind, ContentType::Xml) {
                    Frontmatter::empty()
                } else {
                    return Err(ContentError::MissingFrontmatter);
                }
            },
        };
        let dir = unprefixed_parent(path, root);
        let out = out_path(kind, path, &dir, &frontmatter.slug);
        let mut url = parent(out.as_str()).to_string();
        url.append("/");
        proof { reveal_strlit("/"); }
        Ok(Content {
            source: path.to_string(),
            out_path: out,
            dir,
            url,
            frontmatter,
            content: body,
            kind,
        })
    }

    /// The file name of the source.
    pub fn filename(&self) -> (r: String)
        ensures
            file_name_of(self.source@) == Some(r@) || (file_name_of(self.source@) is None
                && r@.len() == 0),
    {
        match file_name(self.source.as_str()) {
            Some(f) => f.to_string(),
            None => String::new(),
        }
    }

    /// Whether the page is the site-wide 404 or 500 page.
    pub fn is_special_page(&self) -> (r: bool)
        ensures
            r == is_special_name(self.out_path@),
    {
        is_special_page_name(self.out_path.as_str())
    }

    /// Whether the page is listed for other pages and in the sitemap: an
    /// HTML-family page that is not a special page.
    pub fn is_public_page(&self) -> (r: bool)
        ensures
            r == ((self.kind == ContentType::Jotdown || self.kind == ContentType::Typst
                || self.kind == ContentType::Html) && !is_special_name(self.out_path@)),
    {
        self.kind.is_html_family() && !self.is_special_page()
    }

    /// The layout of a markup page: the one its front matter names, else
    /// `page` in its own directory.
    pub fn layout(&self) -> (r: TemplatePath)
        ensures
            match opt_view(self.frontmatter.layout) {
                Some(l) => r@ == (None::<Seq<char>>, l),
                None => r@ == (opt_view(self.dir), "page"@),
            },
    {
        match &self.frontmatter.layout {
            Some(l) => TemplatePath(None, l.clone()),
            None => TemplatePath(clone_opt(&self.dir), "page".to_string()),
        }
    }

    /// How the page is rendered: HTML and XML bodies are templates, markup
    /// goes into its layout, and unknown files cannot be rendered.
    pub fn render_route(&self) -> (r: Result<RenderRoute, ContentError>)
        ensures
            (self.kind == ContentType::Html || self.kind == ContentType::Xml) ==> r
                matches Ok(RenderRoute::Inline),
            (self.kind == ContentType::Jotdown || self.kind == ContentType::Typst) ==> (r
                matches Ok(RenderRoute::Layout(t)) && (match opt_view(self.frontmatter.layout) {
                Some(l) => t@ == (None::<Seq<char>>, l),
                None => t@ == (opt_view(self.dir), "page"@),
            })),
            self.kind == ContentType::Unknown ==> r == Err::<RenderRoute, ContentError>(
                ContentError::UnknownType,
            ),
    {
        match self.kind {
            ContentType::Html | ContentType::Xml => Ok(RenderRoute::Inline),
            ContentType::Jotdown | ContentType::Typst => Ok(RenderRoute::Layout(self.layout())),
            ContentType::Unknown => Err(ContentError::UnknownType),
        }
    }
}

/// A path segment: non-empty and without `/`.
pub open spec fn is_segment(s: Seq<char>) -> bool {
    s.len() > 0 && forall|i: int| 0 <= i < s.len() ==> s[i] != '/'
}

proof fn lemma_join_segment(a: Seq<char>, b: Seq<char>)
    requires
        is_segment(b),
    ensures
        parent_of(join_of(a, b)) == (if a.len() > 0 && a.last() == '/' {
            a.drop_last()
        } else {
            a
        }),
        name_of(join_of(a, b)) == b,
{
    let j = join_of(a, b);
    if a.len() == 0 {
        crate::pathname::lemma_last_sep_bounds(j);
        assert(j == b);
        if last_sep(j) >= 0 {
            assert(b[last_sep(j)] == '/');
        }
        assert(j.subrange(0, j.len() as int) == b);
    } else {
        let k = if a.last() == '/' { a.len() - 1 } else { a.len() as int };
        assert(j[k] == '/');
        assert forall|i: int| k < i < j.len() implies j[i] != '/' by {
            if a.last() == '/' {
                assert(j[i] == b[i - a.len()]);
            } else {
                assert(j[i] == b[i - a.len() - 1]);
            }
        }
        crate::pathname::lemma_last_sep_bounds(j);
        if last_sep(j) < k {
        } else if last_sep(j) > k {
            assert(j[last_sep(j)] != '/');
        }
        assert(last_sep(j) == k);
        assert(j.subrange(k + 1, j.len() as int) =~= b);
        if a.last() == '/' {
            assert(j.subrange(0, k) =~= a.drop_last());
        } else {
            assert(j.subrange(0, k) =~= a);
        }
    }
}

proof fn lemma_index_segment()
    ensures
        is_segment("index.html"@),
{
    reveal_strlit("index.html");
}

/// The site-wide 404 and 500 pages are written at the output root under
/// their own name, whatever their directory or slug.
pub proof fn lemma_special_pages_at_root(
    path: Seq<char>,
    dir: Option<Seq<char>>,
    slug: Option<Seq<char>>,
)
    requires
        is_special_name(name_of(path)),
    ensures
        out_path_of(ContentType::Html, path, dir, slug) == name_of(path),
        out_path_of(ContentType::Unknown, path, dir, slug) == name_of(path),
{
}

/// Without a slug a page's output directory is named after the source
/// file's stem; with one, after the slug, verbatim.
pub proof fn lemma_slug_or_stem(
    kind: ContentType,
    path: Seq<char>,
    dir: Option<Seq<char>>,
    slug: Option<Seq<char>>,
)
    requires
        kind != ContentType::Xml,
        !(kind == ContentType::Html || kind == ContentType::Unknown) || !is_special_name(
            name_of(path),
        ),
        is_segment(
            match slug {
                Some(s) => s,
                None => stem_of(name_of(path)),
            },
        ),
    ensures
        name_of(out_path_of(kind, path, dir, slug)) == "index.html"@,
        name_of(parent_of(out_path_of(kind, path, dir, slug))) == match slug {
            Some(s) => s,
            None => stem_of(name_of(path)),
        },
{
    let base = match slug {
        Some(s) => s,
        None => stem_of(name_of(path)),
    };
    let index = "index.html"@;
    lemma_index_segment();
    match kind {
        ContentType::Jotdown | ContentType::Typst => {
            lemma_join_segment(base, index);
            lemma_join_segment(Seq::empty(), base);
        },
        _ => {
            match dir {
                None => {
                    lemma_join_segment(base, index);
                    lemma_join_segment(Seq::empty(), base);
                },
                Some(d) => {
                    let db = join_of(d, base);
                    lemma_join_segment(db, index);
                    lemma_join_segment(d, base);
                    assert(db.len() > 0 && db.last() != '/') by {
                        assert(db.last() == base.last()) by {
                            if d.len() == 0 {
                            } else if d.last() == '/' {
                                assert(db == d + base);
                            } else {
                                assert(db == d + seq!['/'] + base);
                            }
                        }
                    }
                },
            }
        },
    }
}

} // verus!
