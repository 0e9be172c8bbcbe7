//! The default directories, relative to the working directory.
use vstd::prelude::*;

verus! {

/// The directories of a project run from its root.
#[derive(Debug, Clone)]
pub struct Paths {
    pub out: String,
    pub root: String,
    pub templates: String,
    pub public: String,
    pub styles: String,
    pub js: String,
    pub content: String,
}

impl Paths {
    pub fn new() -> (r: Paths)
        ensures
            r.out@ == "./_dist"@,
            r.root@ == "./"@,
            r.templates@ == "./templates"@,
            r.public@ == "./public"@,
            r.styles@ == "./styles"@,
            r.js@ == "./js"@,
            r.content@ == "./content"@,
    {
        Paths {
            out: "./_dist".to_string(),
            root: "./".to_string(),
            templates: "./templates".to_string(),
            public: "./public".to_string(),
            styles: "./styles".to_string(),
            js: "./js".to_string(),
            content: "./content".to_string(),
        }
    }
}

} // verus!
