//! Stylesheets and scripts as they are written out: under their own name in
//! development, under a content-addressed name in production.
use vstd::prelude::*;

use crate::build_mode::BuildMode;
use crate::pathname::{ext_of, extension, file_name, file_name_of, join, join_of, name, name_of, str_eq};
use crate::templating::is_partial_spec;
use crate::utils::{digest_filename, hashed_name_of, is_hex_digit, sha1_hex};

verus! {

/// A file copied verbatim, found below `prefix`.
#[derive(Debug, Clone)]
pub struct PublicFile {
    pub path: String,
    pub prefix: String,
}

/// A built stylesheet or script, keyed by its source file name.
#[derive(Debug, Clone)]
pub struct Asset {
    pub source_name: String,
    pub build_path: String,
    pub content: String,
}

/// Why an asset could not be built.
#[derive(Debug, Clone, Copy, PartialEq, Eq, Structural)]
pub enum AssetError {
    NoFileName,
    NoExtension,
    /// A production stylesheet came without its minified text.
    NotMinified,
}

/// What building `path` gives, for its bundled text `code` and, in
/// production, its minified text.
pub open spec fn asset_of(
    path: Seq<char>,
    mode: BuildMode,
    code: Seq<char>,
    minified: Option<Seq<char>>,
    a: Asset,
) -> bool {
    &&& a.source_name@ == name_of(path)
    &&& mode == BuildMode::Normal ==> a.build_path@ == path && a.content@ == code
    &&& mode == BuildMode::Optimized ==> a.build_path@ == hashed_name_of(
        path,
        sha1_hex(code).subrange(0, 8),
    ) && sha1_hex(code).len() == 40 && (forall|i: int|
        0 <= i < 40 ==> is_hex_digit(#[trigger] sha1_hex(code)[i])) && a.content@ == match minified {
        Some(m) => m,
        None => code,
    }
}

/// The outcome of building an asset: a file name is needed, and in
/// production an extension too, to put the hash before it, and the minified
/// text when `needs_minified` says the kind has a minifier.
pub open spec fn build_result_ok(
    needs_minified: bool,
    path: Seq<char>,
    mode: BuildMode,
    code: Seq<char>,
    minified: Option<Seq<char>>,
    r: Result<Asset, AssetError>,
) -> bool {
    if file_name_of(path) is None {
        r == Err::<Asset, AssetError>(AssetError::NoFileName)
    } else if mode == BuildMode::Optimized && ext_of(name_of(path)) is None {
        r == Err::<Asset, AssetError>(AssetError::NoExtension)
    } else if needs_minified && mode == BuildMode::Optimized && minified is None {
        r == Err::<Asset, AssetError>(AssetError::NotMinified)
    } else {
        r matches Ok(a) && asset_of(path, mode, code, minified, a)
    }
}

fn bundle(needs_minified: bool, path: &str, mode: BuildMode, code: String, minified: Option<String>) -> (r: Result<
    Asset,
    AssetError,
>)
    ensures
        build_result_ok(
            needs_minified,
            path@,
            mode,
            code@,
            match minified {
                Some(m) => Some(m@),
                None => None,
            },
            r,
        ),
{
    let source_name = match file_name(path) {
        Some(f) => f.to_string(),
        None => return Err(AssetError::NoFileName),
    };
    match mode {
        BuildMode::Normal => Ok(Asset { source_name, build_path: path.to_string(), content: code }),
        BuildMode::Optimized => {
            if extension(name(path)).is_none() {
                return Err(AssetError::NoExtension);
            }
            if needs_minified && minified.is_none() {
                return Err(AssetError::NotMinified);
            }
            let build_path = digest_filename(path, code.as_str());
            let content = match minified {
                Some(m) => m,
                None => code,
            };
            Ok(Asset { source_name, build_path, content })
        },
    }
}

impl Asset {
    /// The asset of the stylesheet at `path`, from its bundled text and, in
    /// production, its minified text, which is then required; the hash is
    /// taken of the bundle.
    pub fn build_css(path: &str, mode: BuildMode, code: String, minified: Option<String>) -> (r:
        Result<Asset, AssetError>)
        ensures
            build_result_ok(
                true,
                path@,
                mode,
                code@,
                match minified {
                    Some(m) => Some(m@),
                    None => None,
                },
                r,
            ),
    {
        bundle(true, path, mode, code, minified)
    }

    /// The asset of the script at `path`, from its source and, in
    /// production, its minified text when a minifier gave one; the hash is
    /// taken of the source.
    pub fn build_js(path: &str, mode: BuildMode, source: String, minified: Option<String>) -> (r:
        Result<Asset, AssetError>)
        ensures
            build_result_ok(
                false,
                path@,
                mode,
                source@,
                match minified {
                    Some(m) => Some(m@),
                    None => None,
                },
                r,
            ),
    {
        bundle(false, path, mode, source, minified)
    }

    /// The live-reload helper, kept in memory and written to `out_dir`.
    pub fn livereload(out_dir: &str, script: String) -> (r: Asset)
        ensures
            r.source_name@ == "livereload.js"@,
            r.build_path@ == join_of(out_dir@, "livereload.js"@),
            r.content@ == script@,
    {
        Asset {
            source_name: "livereload.js".to_string(),
            build_path: join(out_dir, "livereload.js"),
            content: script,
        }
    }
}

/// A script: `.js`, `.mjs` or `.cjs`.
pub fn is_js(path: &str) -> (r: bool)
    ensures
        r == (ext_of(name_of(path@)) == Some("js"@) || ext_of(name_of(path@)) == Some("mjs"@)
            || ext_of(name_of(path@)) == Some("cjs"@)),
{
    match extension(name(path)) {
        Some(e) => str_eq(e, "js") || str_eq(e, "mjs") || str_eq(e, "cjs"),
        None => false,
    }
}

/// A stylesheet that is bundled on its own: `.css` and not a partial.
pub fn is_buildable_css_file(path: &str) -> (r: bool)
    ensures
        r == (!is_partial_spec(path@) && ext_of(name_of(path@)) == Some("css"@)),
{
    let partial = crate::templating::is_partial(path);
    match extension(name(path)) {
        Some(e) => !partial && str_eq(e, "css"),
        None => false,
    }
}

} // verus!
