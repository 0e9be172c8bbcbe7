use statisk::asset::{is_buildable_css_file, is_js, Asset, AssetError};
use statisk::build_mode::BuildMode;
use statisk::utils::{append_extension, digest_filename, filename, hashed_filename};

#[test]
fn production_css_gets_hashed_name() {
    let a = Asset::build_css("styles/main.css", BuildMode::Optimized, "a{color:red}".to_string(), Some("a{color:red}".to_string())).unwrap();
    assert_eq!(a.source_name, "main.css");
    assert_eq!(a.build_path, "styles/main.84cf6341.css");
    assert_eq!(filename(&a.build_path), "main.84cf6341.css");
}

#[test]
fn development_css_keeps_name() {
    let a = Asset::build_css("styles/main.css", BuildMode::Normal, "a{color:red}".to_string(), None).unwrap();
    assert_eq!(a.build_path, "styles/main.css");
    assert_eq!(a.content, "a{color:red}");
}

#[test]
fn production_content_is_minified_text() {
    let a = Asset::build_js("js/app.js", BuildMode::Optimized, "console.log(1)".to_string(), Some("x".to_string())).unwrap();
    assert_eq!(a.build_path, "js/app.ccb093eb.js");
    assert_eq!(a.content, "x");
}

#[test]
fn edited_partial_changes_bundle_hash() {
    let before = Asset::build_css("styles/main.css", BuildMode::Optimized, "a{color:red}".to_string(), Some("m".to_string())).unwrap();
    let after = Asset::build_css("styles/main.css", BuildMode::Optimized, "a{color:blue}".to_string(), Some("m".to_string())).unwrap();
    assert_eq!(after.build_path, "styles/main.d6621a1f.css");
    assert_ne!(before.build_path, after.build_path);
}

#[test]
fn digest_is_stable_and_content_sensitive() {
    let a = digest_filename("main.css", "a{color:red}");
    let b = digest_filename("main.css", "a{color:red}");
    let c = digest_filename("main.css", "a{color:ree}");
    assert_eq!(a, b);
    assert_ne!(a, c);
    assert_eq!(digest_filename("x.tar.gz", ""), "x.tar.da39a3ee.gz");
    assert_eq!(hashed_filename("a/b.js", "0123456789"), "a/b.01234567.js");
    assert_eq!(append_extension("out/index.html", "gz"), "out/index.html.gz");
}

#[test]
fn asset_without_extension_is_refused_in_production() {
    let r = Asset::build_css("styles/main", BuildMode::Optimized, String::new(), None);
    assert_eq!(r.err(), Some(AssetError::NoExtension));
    let r = Asset::build_css("styles/", BuildMode::Normal, String::new(), None);
    assert_eq!(r.err(), Some(AssetError::NoFileName));
    assert!(Asset::build_css("styles/main", BuildMode::Normal, String::new(), None).is_ok());
    let r = Asset::build_css("styles/main.css", BuildMode::Optimized, "a{}".to_string(), None);
    assert_eq!(r.err(), Some(AssetError::NotMinified));
    assert!(Asset::build_js("js/a.js", BuildMode::Optimized, "x".to_string(), None).is_ok());
}

#[test]
fn livereload_asset() {
    let a = Asset::livereload("site/_dist", "reload()".to_string());
    assert_eq!(a.source_name, "livereload.js");
    assert_eq!(a.build_path, "site/_dist/livereload.js");
    assert_eq!(a.content, "reload()");
}

#[test]
fn asset_file_kinds() {
    assert!(is_js("js/a.js") && is_js("js/a.mjs") && is_js("js/a.cjs"));
    assert!(!is_js("js/a.ts"));
    assert!(is_buildable_css_file("styles/main.css"));
    assert!(!is_buildable_css_file("styles/_base.css"));
    assert!(!is_buildable_css_file("styles/main.scss"));
}
