//! The project descriptor that a project's setup script returns.
use vstd::prelude::*;

use crate::build_mode::BuildMode;
use crate::output::Output;
use crate::path_config::PathConfig;
use crate::pathname::{join, join_of};

verus! {

/// Output and input directories, relative to the project root.
#[derive(Debug, Clone)]
pub struct StatiskConfig {
    pub out_dir: String,
    pub template_root: String,
    pub public_files: String,
}

impl Default for StatiskConfig {
    fn default() -> (r: StatiskConfig)
        ensures
            r.out_dir@ == "_dist"@,
            r.template_root@ == "templates"@,
            r.public_files@ == "public"@,
    {
        StatiskConfig {
            out_dir: "_dist".to_string(),
            template_root: "templates".to_string(),
            public_files: "public".to_string(),
        }
    }
}

/// The address pages are served from during development.
pub open spec fn dev_url() -> Seq<char> {
    "http://localhost:3000"@
}

/// A loaded project: its mode, root, public URL, directories and output
/// rules in declaration order.
pub struct LuaStatisk<F> {
    pub mode: BuildMode,
    pub root: String,
    pub site_url: String,
    pub config: StatiskConfig,
    pub paths: PathConfig,
    pub outputs: Vec<Output<F>>,
}

impl<F> LuaStatisk<F> {
    /// The project as declared, its directories anchored at `root`.
    pub fn new(
        mode: BuildMode,
        root: String,
        site_url: String,
        config: StatiskConfig,
        paths: PathConfig,
        outputs: Vec<Output<F>>,
    ) -> (r: LuaStatisk<F>)
        ensures
            r.mode == mode,
            r.root@ == root@,
            r.site_url@ == site_url@,
            r.config == config,
            r.outputs == outputs,
            r.paths.root@ == root@,
            r.paths.out_dir@ == join_of(root@, paths.out_dir@),
            r.paths.content@ == join_of(root@, paths.content@),
            r.paths.templates@ == join_of(root@, paths.templates@),
            r.paths.public@ == join_of(root@, paths.public@),
            r.paths.css@ == join_of(root@, paths.css@),
            r.paths.js@ == join_of(root@, paths.js@),
    {
        let mut paths = paths;
        paths.with_root(root.as_str());
        LuaStatisk { mode, root, site_url, config, paths, outputs }
    }

    /// The base URL of pages: the development address in development, the
    /// site's own URL in production.
    pub fn url(&self) -> (r: String)
        ensures
            self.mode == BuildMode::Normal ==> r@ == dev_url(),
            self.mode == BuildMode::Optimized ==> r@ == self.site_url@,
    {
        match self.mode {
            BuildMode::Normal => "http://localhost:3000".to_string(),
            BuildMode::Optimized => self.site_url.clone(),
        }
    }

    pub fn template_root(&self) -> (r: String)
        ensures
            r@ == join_of(self.root@, self.config.template_root@),
    {
        join(self.root.as_str(), self.config.template_root.as_str())
    }

    pub fn public_files(&self) -> (r: String)
        ensures
            r@ == join_of(self.root@, self.config.public_files@),
    {
        join(self.root.as_str(), self.config.public_files.as_str())
    }

    pub fn out_dir(&self) -> (r: String)
        ensures
            r@ == join_of(self.root@, self.config.out_dir@),
    {
        join(self.root.as_str(), self.config.out_dir.as_str())
    }
}

} // verus!
