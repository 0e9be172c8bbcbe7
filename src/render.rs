//! What a build writes: the renderer turns the build context into a plan of
//! copies and writes below its destination directory, which the caller
//! carries out.
use vstd::prelude::*;

use crate::asset::{Asset, PublicFile};
use crate::build_mode::BuildMode;
use crate::content::{Content, ContentType};
use crate::context::BuildContext;
use crate::pathname::{join, join_of, name, name_of, strip_prefix_of};
use crate::store::Store;
use crate::sitemap::{entries, entries_ok, some_url_fails, UrlEntry};
use crate::utils::copy_target;

verus! {

/// Writes into one output directory.
#[derive(Debug, Clone)]
pub struct Renderer {
    pub dest: String,
}

/// A public file to copy, byte for byte.
#[derive(Debug, Clone)]
pub struct FileCopy {
    pub from: String,
    pub to: String,
}

/// A text to write.
#[derive(Debug, Clone)]
pub struct FileWrite {
    pub path: String,
    pub content: String,
}

/// A page to render and write: the page is the one stored under `key`.
#[derive(Debug, Clone)]
pub struct PageJob {
    pub key: String,
    pub target: String,
    pub minify: bool,
}

/// Everything a full build writes: the destination is emptied, then the
/// copies, the assets and the pages are written in that order, and last
/// `sitemap.xml` with the given entries.
#[derive(Debug, Clone)]
pub struct RenderPlan {
    pub dest: String,
    pub copies: Vec<FileCopy>,
    pub assets: Vec<FileWrite>,
    pub pages: Vec<PageJob>,
    pub sitemap: Vec<UrlEntry>,
}

/// Why no plan could be made.
#[derive(Debug, Clone, Copy, PartialEq, Eq, Structural)]
pub enum RenderError {
    /// The public file at this index does not lie below its prefix.
    OutsidePrefix(usize),
    /// A listed page's URL cannot be formed below the base URL.
    BadUrl,
}

/// Whether a page of this kind goes through the HTML minifier in `mode`.
pub open spec fn minified(mode: BuildMode, kind: ContentType) -> bool {
    mode == BuildMode::Optimized && (kind == ContentType::Html || kind == ContentType::Jotdown
        || kind == ContentType::Typst)
}

/// The copies for `files` into `dest`, each keeping its path below its
/// prefix; `Err(i)` names the first file that is not below its prefix.
pub open spec fn copies_ok(dest: Seq<char>, files: Seq<PublicFile>, r: Result<Vec<FileCopy>, RenderError>) -> bool {
    match r {
        Ok(v) => v@.len() == files.len() && forall|i: int|
            0 <= i < files.len() ==> {
                &&& strip_prefix_of((#[trigger] files[i]).path@, files[i].prefix@) is Some
                &&& v@[i].from@ == files[i].path@
                &&& v@[i].to@ == join_of(dest, strip_prefix_of(files[i].path@, files[i].prefix@).unwrap())
            },
        Err(RenderError::BadUrl) => false,
        Err(RenderError::OutsidePrefix(k)) => k < files.len() && strip_prefix_of(
            files[k as int].path@,
            files[k as int].prefix@,
        ) is None && forall|i: int|
            0 <= i < k ==> strip_prefix_of((#[trigger] files[i]).path@, files[i].prefix@) is Some,
    }
}

/// The writes for the assets of a store, in its order: each under the file
/// name of its build path, directly in `dest`.
pub open spec fn asset_writes_ok(dest: Seq<char>, es: Seq<(String, Asset)>, v: Seq<FileWrite>) -> bool {
    v.len() == es.len() && forall|i: int|
        0 <= i < es.len() ==> (#[trigger] v[i]).path@ == join_of(dest, name_of(es[i].1.build_path@))
            && v[i].content@ == es[i].1.content@
}

/// The jobs for the pages of a store, in its order: each at its output path
/// below `dest`, minified when `minified` says so.
pub open spec fn page_jobs_ok(dest: Seq<char>, mode: BuildMode, es: Seq<(String, Content)>, v: Seq<PageJob>) -> bool {
    v.len() == es.len() && forall|i: int|
        0 <= i < es.len() ==> (#[trigger] v[i]).key@ == es[i].0@ && v[i].target@ == join_of(
            dest,
            es[i].1.out_path@,
        ) && v[i].minify == minified(mode, es[i].1.kind)
}

impl Renderer {
    pub fn new(dest: &str) -> (r: Renderer)
        ensures
            r.dest@ == dest@,
    {
        Renderer { dest: dest.to_string() }
    }

    /// The copies of the public files.
    pub fn copy_public_files(&self, files: &Vec<PublicFile>) -> (r: Result<Vec<FileCopy>, RenderError>)
        ensures
            copies_ok(self.dest@, files@, r),
    {
        let mut v: Vec<FileCopy> = Vec::new();
        let mut i: usize = 0;
        while i < files.len()
            invariant
                i <= files@.len(),
                v@.len() == i,
                forall|j: int|
                    0 <= j < i ==> {
                        &&& strip_prefix_of((#[trigger] files@[j]).path@, files@[j].prefix@) is Some
                        &&& v@[j].from@ == files@[j].path@
                        &&& v@[j].to@ == join_of(
                            self.dest@,
                            strip_prefix_of(files@[j].path@, files@[j].prefix@).unwrap(),
                        )
                    },
            decreases files@.len() - i,
        {
            let f = &files[i];
            match copy_target(self.dest.as_str(), f.prefix.as_str(), f.path.as_str()) {
                Some(to) => {
                    v.push(FileCopy { from: f.path.clone(), to });
                },
                None => {
                    return Err(RenderError::OutsidePrefix(i));
                },
            }
            i = i + 1;
        }
        Ok(v)
    }

    /// The writes of the assets.
    pub fn write_assets(&self, assets: &Store<Asset>) -> (r: Vec<FileWrite>)
        ensures
            asset_writes_ok(self.dest@, assets.entries(), r@),
    {
        let mut v: Vec<FileWrite> = Vec::new();
        let mut i: usize = 0;
        while i < assets.len()
            invariant
                i <= assets.entries().len(),
                v@.len() == i,
                forall|j: int|
                    0 <= j < i ==> (#[trigger] v@[j]).path@ == join_of(
                        self.dest@,
                        name_of(assets.entries()[j].1.build_path@),
                    ) && v@[j].content@ == assets.entries()[j].1.content@,
            decreases assets.entries().len() - i,
        {
            let e = assets.entry(i);
            let path = join(self.dest.as_str(), name(e.1.build_path.as_str()));
            v.push(FileWrite { path, content: e.1.content.clone() });
            i = i + 1;
        }
        v
    }

    /// The pages to render, with where each goes and whether it is minified.
    pub fn write_content(&self, mode: BuildMode, pages: &Store<Content>) -> (r: Vec<PageJob>)
        ensures
            page_jobs_ok(self.dest@, mode, pages.entries(), r@),
    {
        let mut v: Vec<PageJob> = Vec::new();
        let mut i: usize = 0;
        while i < pages.len()
            invariant
                i <= pages.entries().len(),
                v@.len() == i,
                forall|j: int|
                    0 <= j < i ==> (#[trigger] v@[j]).key@ == pages.entries()[j].0@ && v@[j].target@
                        == join_of(self.dest@, pages.entries()[j].1.out_path@) && v@[j].minify
                        == minified(mode, pages.entries()[j].1.kind),
            decreases pages.entries().len() - i,
        {
            let e = pages.entry(i);
            let target = join(self.dest.as_str(), e.1.out_path.as_str());
            let minify = mode.optimize() && e.1.kind.is_html_family();
            v.push(PageJob { key: e.0.clone(), target, minify });
            i = i + 1;
        }
        v
    }

    /// The plan of a full build of `context`, with the sitemap entries of
    /// its listed pages below `base_url`.
    pub fn render_context(&self, context: &BuildContext, base_url: &str) -> (r: Result<RenderPlan, RenderError>)
        ensures
            match r {
                Ok(p) => p.dest@ == self.dest@ && copies_ok(
                    self.dest@,
                    context.public_files@,
                    Ok(p.copies),
                ) && asset_writes_ok(self.dest@, context.assets.entries(), p.assets@)
                    && page_jobs_ok(self.dest@, context.mode, context.pages.entries(), p.pages@)
                    && entries_ok(context.pages.entries(), base_url@, p.sitemap@),
                Err(RenderError::BadUrl) => (forall|i: int|
                    0 <= i < context.public_files@.len() ==> strip_prefix_of(
                        (#[trigger] context.public_files@[i]).path@,
                        context.public_files@[i].prefix@,
                    ) is Some) && some_url_fails(context.pages.entries(), base_url@),
                Err(e) => copies_ok(self.dest@, context.public_files@, Err(e)),
            },
    {
        let copies = match self.copy_public_files(&context.public_files) {
            Ok(c) => c,
            Err(e) => return Err(e),
        };
        let sitemap = match entries(&context.pages, base_url) {
            Some(v) => v,
            None => return Err(RenderError::BadUrl),
        };
        let assets = self.write_assets(&context.assets);
        let pages = self.write_content(context.mode, &context.pages);
        Ok(RenderPlan { dest: self.dest.clone(), copies, assets, pages, sitemap })
    }
}

} // verus!
