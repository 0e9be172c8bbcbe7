//! The collection pass: which of the files found under each root take part
//! in a build, and the assets built from them.
use vstd::prelude::*;

use crate::asset::{is_buildable_css_file, Asset, AssetError, PublicFile, build_result_ok};
use crate::build_mode::BuildMode;
use crate::pathname::{ext_of, extension, name, name_of, str_eq};
use crate::paths::Paths;
use crate::templating::{is_partial_spec, is_template_spec};

verus! {

/// Whether a directory entry is shown to the build: its name does not begin
/// with `.`.
pub fn is_visible(entry_name: &str) -> (r: bool)
    ensures
        r == !(entry_name@.len() > 0 && entry_name@[0] == '.'),
{
    !(entry_name.unicode_len() > 0 && entry_name.get_char(0) == '.')
}

/// The public files found under the public root, each copied relative to it.
pub fn collect_public_files(paths: &Paths, found: &Vec<String>) -> (r: Vec<PublicFile>)
    ensures
        r@.len() == found@.len(),
        forall|i: int|
            0 <= i < found@.len() ==> (#[trigger] r@[i]).path@ == found@[i]@ && r@[i].prefix@
                == paths.public@,
{
    let mut r: Vec<PublicFile> = Vec::new();
    let mut i: usize = 0;
    while i < found.len()
        invariant
            i <= found@.len(),
            r@.len() == i,
            forall|j: int|
                0 <= j < i ==> (#[trigger] r@[j]).path@ == found@[j]@ && r@[j].prefix@
                    == paths.public@,
        decreases found@.len() - i,
    {
        r.push(PublicFile { path: found[i].clone(), prefix: paths.public.clone() });
        i = i + 1;
    }
    r
}

/// The paths of `found` that `keep` accepts, in order.
pub open spec fn kept_paths(found: Seq<String>, keep: spec_fn(Seq<char>) -> bool) -> Seq<Seq<char>>
    decreases found.len(),
{
    if found.len() == 0 {
        Seq::empty()
    } else if keep(found.last()@) {
        kept_paths(found.drop_last(), keep).push(found.last()@)
    } else {
        kept_paths(found.drop_last(), keep)
    }
}

/// A stylesheet bundled on its own.
pub open spec fn buildable_css(p: Seq<char>) -> bool {
    !is_partial_spec(p) && ext_of(name_of(p)) == Some("css"@)
}

/// A page among the template files: neither a layout nor a partial.
pub open spec fn template_page(p: Seq<char>) -> bool {
    !is_template_spec(p) && !is_partial_spec(p)
}

/// The stylesheets among the files found under the stylesheet root.
pub fn css_sources(found: &Vec<String>) -> (r: Vec<String>)
    ensures
        r@.map_values(|s: String| s@) == kept_paths(found@, |p: Seq<char>| buildable_css(p)),
{
    let mut r: Vec<String> = Vec::new();
    let mut i: usize = 0;
    while i < found.len()
        invariant
            i <= found@.len(),
            r@.map_values(|s: String| s@) == kept_paths(
                found@.subrange(0, i as int),
                |p: Seq<char>| buildable_css(p),
            ),
        decreases found@.len() - i,
    {
        assert(found@.subrange(0, i as int) == found@.subrange(0, i + 1).drop_last());
        if is_buildable_css_file(found[i].as_str()) {
            r.push(found[i].clone());
            assert(r@.map_values(|s: String| s@) =~= kept_paths(
                found@.subrange(0, i as int),
                |p: Seq<char>| buildable_css(p),
            ).push(found@[i as int]@));
        }
        i = i + 1;
    }
    assert(found@.subrange(0, found@.len() as int) == found@);
    r
}

/// The pages among the files found under the template root.
pub fn page_sources(found: &Vec<String>) -> (r: Vec<String>)
    ensures
        r@.map_values(|s: String| s@) == kept_paths(found@, |p: Seq<char>| template_page(p)),
{
    let mut r: Vec<String> = Vec::new();
    let mut i: usize = 0;
    while i < found.len()
        invariant
            i <= found@.len(),
            r@.map_values(|s: String| s@) == kept_paths(
                found@.subrange(0, i as int),
                |p: Seq<char>| template_page(p),
            ),
        decreases found@.len() - i,
    {
        assert(found@.subrange(0, i as int) == found@.subrange(0, i + 1).drop_last());
        if crate::templating::is_page(found[i].as_str()) {
            r.push(found[i].clone());
            assert(r@.map_values(|s: String| s@) =~= kept_paths(
                found@.subrange(0, i as int),
                |p: Seq<char>| template_page(p),
            ).push(found@[i as int]@));
        }
        i = i + 1;
    }
    assert(found@.subrange(0, found@.len() as int) == found@);
    r
}

/// A source ready to become an asset: its path, its bundled text and, in
/// production, its minified text.
#[derive(Debug, Clone)]
pub struct Bundle {
    pub path: String,
    pub code: String,
    pub minified: Option<String>,
}

/// The minified text of a bundle, as characters.
pub open spec fn minified_view(b: Bundle) -> Option<Seq<char>> {
    match b.minified {
        Some(m) => Some(m@),
        None => None,
    }
}

/// Builds every bundle in order, the first failure ending the pass.
fn build_all(mode: BuildMode, bundles: &Vec<Bundle>, css: bool) -> (r: Result<Vec<Asset>, AssetError>)
    ensures
        match r {
            Ok(v) => v@.len() == bundles@.len() && forall|i: int|
                0 <= i < bundles@.len() ==> build_result_ok(
                    css,
                    (#[trigger] bundles@[i]).path@,
                    mode,
                    bundles@[i].code@,
                    minified_view(bundles@[i]),
                    Ok(v@[i]),
                ),
            Err(e) => exists|i: int|
                0 <= i < bundles@.len() && build_result_ok(
                    css,
                    (#[trigger] bundles@[i]).path@,
                    mode,
                    bundles@[i].code@,
                    minified_view(bundles@[i]),
                    Err(e),
                ),
        },
{
    let mut out: Vec<Asset> = Vec::new();
    let mut i: usize = 0;
    while i < bundles.len()
        invariant
            i <= bundles@.len(),
            out@.len() == i,
            forall|j: int|
                0 <= j < i ==> build_result_ok(
                    css,
                    (#[trigger] bundles@[j]).path@,
                    mode,
                    bundles@[j].code@,
                    minified_view(bundles@[j]),
                    Ok(out@[j]),
                ),
        decreases bundles@.len() - i,
    {
        let b = &bundles[i];
        let minified = match &b.minified {
            Some(m) => Some(m.clone()),
            None => None,
        };
        let a = if css {
            Asset::build_css(b.path.as_str(), mode, b.code.clone(), minified)
        } else {
            Asset::build_js(b.path.as_str(), mode, b.code.clone(), minified)
        };
        match a {
            Ok(a) => out.push(a),
            Err(e) => return Err(e),
        }
        i = i + 1;
    }
    Ok(out)
}

/// The stylesheet assets, one per bundle, in order.
pub fn collect_css(mode: BuildMode, bundles: Vec<Bundle>) -> (r: Result<Vec<Asset>, AssetError>)
    ensures
        match r {
            Ok(v) => v@.len() == bundles@.len() && forall|i: int|
                0 <= i < bundles@.len() ==> build_result_ok(
                    true,
                    (#[trigger] bundles@[i]).path@,
                    mode,
                    bundles@[i].code@,
                    minified_view(bundles@[i]),
                    Ok(v@[i]),
                ),
            Err(e) => exists|i: int|
                0 <= i < bundles@.len() && build_result_ok(
                    true,
                    (#[trigger] bundles@[i]).path@,
                    mode,
                    bundles@[i].code@,
                    minified_view(bundles@[i]),
                    Err(e),
                ),
        },
{
    build_all(mode, &bundles, true)
}

/// The script assets, one per source, in order.
pub fn collect_js(mode: BuildMode, sources: Vec<Bundle>) -> (r: Result<Vec<Asset>, AssetError>)
    ensures
        match r {
            Ok(v) => v@.len() == sources@.len() && forall|i: int|
                0 <= i < sources@.len() ==> build_result_ok(
                    false,
                    (#[trigger] sources@[i]).path@,
                    mode,
                    sources@[i].code@,
                    minified_view(sources@[i]),
                    Ok(v@[i]),
                ),
            Err(e) => exists|i: int|
                0 <= i < sources@.len() && build_result_ok(
                    false,
                    (#[trigger] sources@[i]).path@,
                    mode,
                    sources@[i].code@,
                    minified_view(sources@[i]),
                    Err(e),
                ),
        },
{
    build_all(mode, &sources, false)
}

/// The extensions of files that get compressed copies.
pub open spec fn compressible_ext(e: Seq<char>) -> bool {
    e == "html"@ || e == "css"@ || e == "js"@ || e == "xml"@ || e == "cjs"@ || e == "mjs"@
        || e == "json"@ || e == "txt"@ || e == "svg"@ || e == "map"@ || e == "ttf"@ || e
        == "otf"@ || e == "woff2"@ || e == "eot"@
}

/// Whether the output file at `path` gets compressed copies.
pub fn compressible_files(path: &str) -> (r: bool)
    ensures
        r == (ext_of(name_of(path@)) matches Some(e) && compressible_ext(e)),
{
    match extension(name(path)) {
        Some(e) => str_eq(e, "html") || str_eq(e, "css") || str_eq(e, "js") || str_eq(e, "xml")
            || str_eq(e, "cjs") || str_eq(e, "mjs") || str_eq(e, "json") || str_eq(e, "txt")
            || str_eq(e, "svg") || str_eq(e, "map") || str_eq(e, "ttf") || str_eq(e, "otf")
            || str_eq(e, "woff2") || str_eq(e, "eot"),
        None => false,
    }
}

} // verus!
