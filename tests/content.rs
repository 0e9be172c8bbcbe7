use statisk::content::{out_path, Content, ContentError, ContentType, Frontmatter};
use statisk::content::RenderRoute;
use statisk::utils::{split_frontmatter, unprefixed_parent};

fn fm(slug: Option<&str>) -> Frontmatter {
    let mut f = Frontmatter::empty();
    f.title = "Hello".to_string();
    f.slug = slug.map(|s| s.to_string());
    f
}

#[test]
fn content_type_from_extension() {
    assert_eq!(ContentType::from_ext("a/b.html"), Ok(ContentType::Html));
    assert_eq!(ContentType::from_ext("feed.xml"), Ok(ContentType::Xml));
    assert_eq!(ContentType::from_ext("sitemap.xsl"), Ok(ContentType::Xml));
    assert_eq!(ContentType::from_ext("post.dj"), Ok(ContentType::Jotdown));
    assert_eq!(ContentType::from_ext("paper.typ"), Ok(ContentType::Typst));
    assert_eq!(ContentType::from_ext("notes.txt"), Ok(ContentType::Unknown));
    assert_eq!(ContentType::from_ext("Makefile"), Err(ContentError::NoExtension));
}

#[test]
fn markup_page_without_slug_drops_directory() {
    let c = Content::new("content/blog/hello.dj", "content", ContentType::Jotdown, Some(fm(None)), "Hi".to_string()).unwrap();
    assert_eq!(c.out_path, "hello/index.html");
    assert_eq!(c.dir, Some("blog".to_string()));
    assert_eq!(c.url, "hello/");
}

#[test]
fn markup_pages_with_same_stem_collide() {
    let a = Content::new("content/a/post.dj", "content", ContentType::Jotdown, Some(fm(None)), String::new()).unwrap();
    let b = Content::new("content/b/post.dj", "content", ContentType::Jotdown, Some(fm(None)), String::new()).unwrap();
    assert_eq!(a.out_path, b.out_path);
}

#[test]
fn slug_replaces_stem() {
    let c = Content::new("content/blog/hello.dj", "content", ContentType::Jotdown, Some(fm(Some("greeting"))), String::new()).unwrap();
    assert_eq!(c.out_path, "greeting/index.html");
    let h = Content::new("templates/docs/intro.html", "templates", ContentType::Html, Some(fm(None)), String::new()).unwrap();
    assert_eq!(h.out_path, "docs/intro/index.html");
    assert_eq!(h.url, "docs/intro/");
    let s = Content::new("templates/docs/intro.html", "templates", ContentType::Html, Some(fm(Some("start"))), String::new()).unwrap();
    assert_eq!(s.out_path, "docs/start/index.html");
}

#[test]
fn special_pages_stay_at_root() {
    for name in ["404.html", "500.html"] {
        let path = format!("templates/errors/{name}");
        let c = Content::new(&path, "templates", ContentType::Html, Some(fm(Some("oops"))), String::new()).unwrap();
        assert_eq!(c.out_path, name);
        assert!(c.is_special_page());
        assert!(!c.is_public_page());
    }
    assert_eq!(out_path(ContentType::Html, "404.html", &None, &None), "404.html");
}

#[test]
fn xml_needs_no_frontmatter() {
    let c = Content::new("templates/feeds/feed.xml", "templates", ContentType::Xml, None, "<rss/>".to_string()).unwrap();
    assert_eq!(c.out_path, "feed.xml");
    assert_eq!(c.url, "/");
    assert_eq!(c.frontmatter.title, "");
    let e = Content::new("templates/about.html", "templates", ContentType::Html, None, String::new());
    assert_eq!(e.err(), Some(ContentError::MissingFrontmatter));
    let d = Content::new("templates/", "templates", ContentType::Html, Some(fm(None)), String::new());
    assert_eq!(d.err(), Some(ContentError::NoFileName));
}

#[test]
fn render_routes_by_kind() {
    let h = Content::new("t/a.html", "t", ContentType::Html, Some(fm(None)), String::new()).unwrap();
    assert!(matches!(h.render_route(), Ok(RenderRoute::Inline)));
    let mut f = fm(None);
    f.layout = Some("post".to_string());
    let j = Content::new("c/blog/a.dj", "c", ContentType::Jotdown, Some(f), String::new()).unwrap();
    match j.render_route() {
        Ok(RenderRoute::Layout(p)) => {
            assert_eq!(p.0, None);
            assert_eq!(p.1, "post");
        }
        _ => panic!("expected a layout"),
    }
    let k = Content::new("c/blog/b.dj", "c", ContentType::Jotdown, Some(fm(None)), String::new()).unwrap();
    let l = k.layout();
    assert_eq!(l.0, Some("blog".to_string()));
    assert_eq!(l.1, "page");
    let u = Content::new("t/a.txt", "t", ContentType::Unknown, Some(fm(None)), String::new()).unwrap();
    assert_eq!(u.render_route().err(), Some(ContentError::UnknownType));
    assert_eq!(u.filename(), "a.txt");
}

#[test]
fn frontmatter_split() {
    let (f, b) = split_frontmatter("+++\ntitle = \"x\"\n+++\n\nbody text\n").unwrap();
    assert_eq!(f, Some("title = \"x\"".to_string()));
    assert_eq!(b, "body text");
    let (f, b) = split_frontmatter("  just a body ").unwrap();
    assert_eq!(f, None);
    assert_eq!(b, "just a body");
    assert_eq!(split_frontmatter("  \n "), None);
    assert_eq!(split_frontmatter("+++a+++b+++c"), None);
}

#[test]
fn directory_below_root() {
    assert_eq!(unprefixed_parent("content/blog/post.dj", "content"), Some("blog".to_string()));
    assert_eq!(unprefixed_parent("content/post.dj", "content"), None);
    assert_eq!(unprefixed_parent("other/post.dj", "content"), None);
    assert_eq!(unprefixed_parent("content/a/b/c.dj", "content/"), Some("a/b".to_string()));
}

#[test]
fn frontmatter_url_segment() {
    assert_eq!(fm(None).url("hello"), "hello/");
    assert_eq!(fm(Some("greeting")).url("hello"), "greeting/");
}
