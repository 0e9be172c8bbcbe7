//! The directories that a project's script configures.
use vstd::prelude::*;

use crate::pathname::{join, join_of};

verus! {

/// The configured directories; relative until `with_root` anchors them.
#[derive(Debug, Clone)]
pub struct PathConfig {
    pub root: String,
    pub out_dir: String,
    pub content: String,
    pub templates: String,
    pub public: String,
    pub css: String,
    pub js: String,
}

impl Default for PathConfig {
    fn default() -> (r: PathConfig)
        ensures
            r.root@ == "."@,
            r.out_dir@ == "_dist"@,
            r.content@ == "content"@,
            r.templates@ == "templates"@,
            r.public@ == "public"@,
            r.css@ == "css"@,
            r.js@ == "js"@,
    {
        PathConfig {
            root: ".".to_string(),
            out_dir: "_dist".to_string(),
            content: "content".to_string(),
            templates: "templates".to_string(),
            public: "public".to_string(),
            css: "css".to_string(),
            js: "js".to_string(),
        }
    }
}

impl PathConfig {
    /// Anchors every directory at `root`.
    pub fn with_root(&mut self, root: &str)
        ensures
            final(self).root@ == root@,
            final(self).out_dir@ == join_of(root@, old(self).out_dir@),
            final(self).content@ == join_of(root@, old(self).content@),
            final(self).templates@ == join_of(root@, old(self).templates@),
            final(self).public@ == join_of(root@, old(self).public@),
            final(self).css@ == join_of(root@, old(self).css@),
            final(self).js@ == join_of(root@, old(self).js@),
    {
        self.out_dir = join(root, self.out_dir.as_str());
        self.content = join(root, self.content.as_str());
        self.templates = join(root, self.templates.as_str());
        self.public = join(root, self.public.as_str());
        self.css = join(root, self.css.as_str());
        self.js = join(root, self.js.as_str());
        self.root = root.to_string();
    }
}

} // verus!
