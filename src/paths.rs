//! Where the parts of a project live, below its root.
use vstd::prelude::*;

use crate::pathname::{join, join_of};

verus! {

/// The directories of a project.
#[derive(Debug, Clone)]
pub struct Paths {
    pub root: String,
    pub out: String,
    pub templates: String,
    pub public: String,
    pub css: String,
    pub js: String,
    pub content: String,
}

impl Paths {
    /// The default layout below `root`.
    pub fn new(root: String) -> (r: Paths)
        ensures
            r.root@ == root@,
            r.out@ == join_of(root@, "_dist"@),
            r.templates@ == join_of(root@, "templates"@),
            r.public@ == join_of(root@, "public"@),
            r.css@ == join_of(root@, "css"@),
            r.js@ == join_of(root@, "js"@),
            r.content@ == join_of(root@, "content"@),
    {
        let out = join(root.as_str(), "_dist");
        let templates = join(root.as_str(), "templates");
        let public = join(root.as_str(), "public");
        let css = join(root.as_str(), "css");
        let js = join(root.as_str(), "js");
        let content = join(root.as_str(), "content");
        Paths { root, out, templates, public, css, js, content }
    }
}

} // verus!
