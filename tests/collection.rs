use statisk::asset::Asset;
use statisk::build_mode::BuildMode;
use statisk::collect::{collect_css, collect_js, collect_public_files, compressible_files, css_sources, is_visible, page_sources, Bundle};
use statisk::config::{LuaStatisk, StatiskConfig};
use statisk::context::BuildContext;
use statisk::output::{template, Output, OutputBuilder};
use statisk::path_config::PathConfig;
use statisk::paths::Paths;

#[test]
fn visible_entries() {
    assert!(is_visible("index.html"));
    assert!(!is_visible(".git"));
    assert!(is_visible(""));
}

#[test]
fn source_filters() {
    let found = vec!["css/main.css".to_string(), "css/_base.css".to_string(), "css/x.scss".to_string(), "css/print.css".to_string()];
    assert_eq!(css_sources(&found), vec!["css/main.css".to_string(), "css/print.css".to_string()]);
    let tpl = vec!["t/index.html".to_string(), "t/[page].html".to_string(), "t/_nav.html".to_string(), "t/404.html".to_string()];
    assert_eq!(page_sources(&tpl), vec!["t/index.html".to_string(), "t/404.html".to_string()]);
    let p = Paths::new("site".to_string());
    let files = collect_public_files(&p, &vec!["site/public/a.png".to_string()]);
    assert_eq!(files[0].prefix, "site/public");
}

#[test]
fn collecting_assets() {
    let b = vec![Bundle { path: "css/main.css".to_string(), code: "a{color:red}".to_string(), minified: Some("m".to_string()) }];
    let v = collect_css(BuildMode::Optimized, b).unwrap();
    assert_eq!(v[0].build_path, "css/main.84cf6341.css");
    assert_eq!(v[0].content, "m");
    let j = vec![Bundle { path: "js/a.js".to_string(), code: "x".to_string(), minified: None }, Bundle { path: "js/b".to_string(), code: "y".to_string(), minified: None }];
    assert!(collect_js(BuildMode::Optimized, j).is_err());
    let j = vec![Bundle { path: "js/b".to_string(), code: "y".to_string(), minified: None }];
    assert_eq!(collect_js(BuildMode::Normal, j).unwrap()[0].build_path, "js/b");
}

#[test]
fn compressible_outputs() {
    assert!(compressible_files("_dist/index.html"));
    assert!(compressible_files("_dist/fonts/a.woff2"));
    assert!(!compressible_files("_dist/img/a.png"));
    assert!(!compressible_files("_dist/README"));
}

#[test]
fn asset_name_for_templates() {
    let mut ctx = BuildContext::new(BuildMode::Optimized);
    ctx.add_asset(Asset::build_css("css/main.css", BuildMode::Optimized, "a{color:red}".to_string(), Some("m".to_string())).unwrap());
    assert_eq!(ctx.get_asset("main.css"), Some("main.84cf6341.css".to_string()));
    assert_eq!(ctx.get_asset("app.js"), None);
}

#[test]
fn template_rule_output_paths() {
    let b: OutputBuilder<u8> = template("posts/*.html").unwrap();
    let r: Output<u8> = b.filter(0).pattern("blog/{slug}.html".to_string()).build().unwrap();
    let out = r.expand_all(&vec!["a".to_string(), "b-c".to_string()]);
    assert_eq!(out, vec!["blog/a.html".to_string(), "blog/b-c.html".to_string()]);
}

#[test]
fn project_descriptor() {
    let s: LuaStatisk<u8> = LuaStatisk::new(BuildMode::Normal, "/srv/site".to_string(), "https://example.org/".to_string(), StatiskConfig::default(), PathConfig::default(), vec![]);
    assert_eq!(s.url(), "http://localhost:3000");
    assert_eq!(s.out_dir(), "/srv/site/_dist");
    assert_eq!(s.template_root(), "/srv/site/templates");
    assert_eq!(s.public_files(), "/srv/site/public");
    assert_eq!(s.paths.css, "/srv/site/css");
    let p: LuaStatisk<u8> = LuaStatisk::new(BuildMode::Optimized, "r".to_string(), "https://example.org/".to_string(), StatiskConfig::default(), PathConfig::default(), vec![]);
    assert_eq!(p.url(), "https://example.org/");
}
