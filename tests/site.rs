use statisk::asset::{Asset, PublicFile};
use statisk::build_mode::BuildMode;
use statisk::content::{Content, ContentType, Frontmatter};
use statisk::context::BuildContext;
use statisk::events::Event;
use statisk::path_config::PathConfig;
use statisk::paths::Paths;
use statisk::render::{RenderError, Renderer};
use statisk::server::{FileServe, Route};
use statisk::sitemap::{date_text, entries, is_valid_priority, priority_text, sitemap, ChangeFreq, UrlEntry};
use statisk::content::Date;
use statisk::store::Store;
use statisk::watcher::{classify, filter_event, is_relevant, plan_rebuilds, Area, ChangeKind};

fn page(path: &str, slug: Option<&str>) -> Content {
    let mut f = Frontmatter::empty();
    f.slug = slug.map(|s| s.to_string());
    let kind = ContentType::from_ext(path).unwrap();
    Content::new(path, "content", kind, Some(f), String::new()).unwrap()
}

#[test]
fn build_modes() {
    assert!(BuildMode::Optimized.optimize() && !BuildMode::Optimized.normal());
    assert!(BuildMode::Normal.normal() && !BuildMode::Normal.optimize());
    assert_eq!(BuildMode::Normal.name(), "normal");
    assert_eq!(BuildMode::Optimized.name(), "optimized");
}

#[test]
fn project_paths() {
    let p = Paths::new("site".to_string());
    assert_eq!(p.out, "site/_dist");
    assert_eq!(p.css, "site/css");
    assert_eq!(p.content, "site/content");
    let mut c = PathConfig::default();
    c.with_root("/srv/site");
    assert_eq!(c.root, "/srv/site");
    assert_eq!(c.out_dir, "/srv/site/_dist");
    assert_eq!(c.templates, "/srv/site/templates");
    let d = statisk::constants::Paths::new();
    assert_eq!(d.styles, "./styles");
}

#[test]
fn collect_keeps_last_page_per_name_and_adds_livereload() {
    let mut ctx = BuildContext::new(BuildMode::Normal);
    let pages = vec![page("content/a/post.dj", None), page("content/b/post.dj", Some("b")), page("content/c.dj", None)];
    let assets = vec![Asset::livereload("x", "1".to_string())];
    let files = vec![PublicFile { path: "public/img/a.png".to_string(), prefix: "public".to_string() }];
    ctx.collect(pages, assets, files, "_dist", "reload()".to_string());
    assert_eq!(ctx.pages.len(), 2);
    assert_eq!(ctx.pages.get("post.dj").unwrap().out_path, "b/index.html");
    assert_eq!(ctx.assets.get("livereload.js").unwrap().build_path, "_dist/livereload.js");
    let mut prod = BuildContext::new(BuildMode::Optimized);
    prod.collect(vec![], vec![], vec![], "_dist", String::new());
    assert!(prod.assets.get("livereload.js").is_none());
}

#[test]
fn updates_publish_reload() {
    let mut ctx = BuildContext::new(BuildMode::Normal);
    let e = ctx.update_asset("main.css".to_string(), Asset::livereload("o", "c".to_string()));
    assert!(matches!(e, Event::Reload));
    assert_eq!(e.frame(), Some("reload"));
    let e = ctx.update_page("c.dj".to_string(), page("content/c.dj", None));
    assert!(matches!(e, Event::Reload));
    assert_eq!(Event::Path("x".to_string()).frame(), None);
    assert_eq!(ctx.pages.get("c.dj").unwrap().out_path, "c/index.html");
}

#[test]
fn render_plan() {
    let mut ctx = BuildContext::new(BuildMode::Optimized);
    ctx.add_page(page("content/c.dj", None));
    ctx.add_page(Content::new("content/feed.xml", "content", ContentType::Xml, None, String::new()).unwrap());
    ctx.add_asset(Asset::build_css("css/main.css", BuildMode::Optimized, "a{color:red}".to_string(), Some("m".to_string())).unwrap());
    ctx.public_files.push(PublicFile { path: "public/img/a.png".to_string(), prefix: "public".to_string() });
    let r = Renderer::new("_dist");
    let plan = r.render_context(&ctx, "https://example.org/").unwrap();
    assert_eq!(plan.sitemap.len(), 1);
    assert_eq!(plan.sitemap[0].loc, "https://example.org/c/");
    assert_eq!(plan.copies[0].to, "_dist/img/a.png");
    assert_eq!(plan.assets[0].path, "_dist/main.84cf6341.css");
    assert_eq!(plan.pages[0].target, "_dist/c/index.html");
    assert!(plan.pages[0].minify);
    assert_eq!(plan.pages[1].target, "_dist/feed.xml");
    assert!(!plan.pages[1].minify);
    ctx.public_files.push(PublicFile { path: "elsewhere/b.png".to_string(), prefix: "public".to_string() });
    assert!(matches!(r.render_context(&ctx, "https://example.org/"), Err(RenderError::OutsidePrefix(1))));
    ctx.public_files.pop();
    assert!(matches!(r.render_context(&ctx, "no url"), Err(RenderError::BadUrl)));
}

#[test]
fn editing_a_partial_rebuilds_styles() {
    let cfg = Paths::new("site".to_string());
    assert_eq!(classify(&cfg, "site/css/_base.css"), Area::Styles);
    assert_eq!(plan_rebuilds(&cfg, &vec!["site/css/_base.css".to_string()]), vec![Area::Styles]);
}

#[test]
fn rapid_saves_rebuild_once() {
    let cfg = Paths::new("site".to_string());
    let saves = vec!["site/templates/[page].html".to_string(); 3];
    assert_eq!(plan_rebuilds(&cfg, &saves), vec![Area::Templates]);
    let mixed = vec!["site/js/a.js".to_string(), "site/content/a.dj".to_string(), "site/js/b.js".to_string(), "site/README".to_string()];
    assert_eq!(plan_rebuilds(&cfg, &mixed), vec![Area::Scripts, Area::Content]);
}

#[test]
fn event_filtering() {
    assert!(is_relevant(ChangeKind::Create) && is_relevant(ChangeKind::Remove));
    assert!(!is_relevant(ChangeKind::Access) && !is_relevant(ChangeKind::ModifyOther));
    let paths = vec!["a".to_string(), "b".to_string(), "c".to_string()];
    let ignored = vec![false, true, false];
    assert_eq!(filter_event(ChangeKind::ModifyData, &paths, &ignored), vec!["a".to_string(), "c".to_string()]);
    assert!(filter_event(ChangeKind::Access, &paths, &ignored).is_empty());
    let repeated = vec!["a".to_string(), "a".to_string(), "b".to_string(), "a".to_string()];
    let none = vec![false, false, false, false];
    assert_eq!(filter_event(ChangeKind::ModifyData, &repeated, &none), vec!["a".to_string(), "b".to_string()]);
}

#[test]
fn file_serving_routes() {
    let s = FileServe::new("_dist");
    assert!(matches!(s.route(false, "/"), Route::MethodNotAllowed));
    match s.route(true, "/blog/hello") {
        Route::Page { file, not_found } => {
            assert_eq!(file, "_dist/blog/hello/index.html");
            assert_eq!(not_found, "_dist/404.html");
        }
        _ => panic!("expected a page"),
    }
    match s.route(true, "/main.css") {
        Route::File { file, mime } => {
            assert_eq!(file, "_dist/main.css");
            assert_eq!(mime, "text/css");
        }
        _ => panic!("expected a file"),
    }
}

#[test]
fn sitemap_priority_bounds() {
    assert!(!is_valid_priority(Some(150)));
    assert!(!is_valid_priority(Some(-10)));
    assert!(is_valid_priority(Some(0)));
    assert!(is_valid_priority(Some(100)));
    assert!(is_valid_priority(None));
    let e = UrlEntry::new("https://example.org/".to_string(), None, Some(ChangeFreq::Weekly), Some(80));
    assert_eq!(e.change_freq, Some("weekly".to_string()));
    assert_eq!(ChangeFreq::Never.as_str(), "never");
}

#[test]
fn sitemap_lists_public_pages() {
    let mut pages: Store<Content> = Store::new();
    pages.insert("hello.dj".to_string(), page("content/blog/hello.dj", None));
    pages.insert("404.html".to_string(), page("content/404.html", None));
    let v = entries(&pages, "https://example.org/").unwrap();
    assert_eq!(v.len(), 1);
    assert_eq!(v[0].loc, "https://example.org/hello/");
    assert_eq!(v[0].change_freq, Some("monthly".to_string()));
    assert!(entries(&pages, "not a url").is_none());
}

#[test]
fn sitemap_text_forms() {
    assert_eq!(priority_text(0), "0");
    assert_eq!(priority_text(100), "1");
    assert_eq!(priority_text(80), "0.8");
    assert_eq!(priority_text(25), "0.25");
    assert_eq!(priority_text(5), "0.05");
    assert_eq!(date_text(Date { year: 2005, month: 1, day: 1 }), "2005-01-01");
    assert_eq!(date_text(Date { year: 987, month: 12, day: 23 }), "0987-12-23");
}

#[test]
fn sitemap_document() {
    let urls = vec![
        UrlEntry::new("http://www.example.com/".to_string(), None, None, None),
        UrlEntry::new("https://example.org/".to_string(), Some(Date { year: 2005, month: 1, day: 1 }), Some(ChangeFreq::Monthly), Some(80)),
    ];
    let xml = sitemap(&urls).unwrap();
    assert!(xml.contains("<?xml-stylesheet type=\"text/xsl\" href=\"/sitemap.xsl\"?>"));
    assert!(xml.contains("<urlset xmlns=\"http://www.sitemaps.org/schemas/sitemap/0.9\">"));
    assert!(xml.contains("<loc>http://www.example.com/</loc>"));
    assert!(xml.contains("<lastmod>2005-01-01</lastmod>"));
    assert!(xml.contains("<changefreq>monthly</changefreq>"));
    assert!(xml.contains("<priority>0.8</priority>"));
    assert_eq!(xml.matches("<url>").count(), 2);
}
