use statisk::templating::{is_page, is_partial, is_template, template_name, Template, TemplatePath, Templates, TemplateError};

#[test]
fn test_is_page() {
    let pages = vec!["index.html", "about.jinja", "404.html"];
    for page in pages {
        assert!(is_page(page));
    }
}

#[test]
fn test_is_template() {
    let pages = vec!["pages/[slug].html", "posts/[post].jinja"];
    for page in pages {
        assert!(is_template(page));
    }
}

#[test]
fn partials_are_not_pages() {
    assert!(is_partial("templates/_header.html"));
    assert!(!is_page("templates/_header.html"));
    assert!(!is_page("templates/posts/[slug].html"));
    assert!(!is_partial("templates/header.html"));
}

#[test]
fn bracketed_template_is_indexed_as_layout() {
    let mut t = Templates::new();
    assert_eq!(template_name("templates/posts/[slug].html"), "slug");
    t.add_template("templates/posts/[slug].html", "templates", "<main/>".to_string()).unwrap();
    let key = TemplatePath(Some("posts".to_string()), "slug".to_string());
    assert_eq!(t.lookup(&key).unwrap().content, "<main/>");
    t.add_template("templates/about.html", "templates", "x".to_string()).unwrap();
    let page_key = TemplatePath(None, "about".to_string());
    assert_eq!(t.lookup(&page_key).err(), Some(TemplateError::NotFound));
}

#[test]
fn layout_lookup_falls_back_toward_root() {
    let mut t = Templates::new();
    t.add_template("templates/[page].html", "templates", "root".to_string()).unwrap();
    t.add_template("templates/blog/[page].html", "templates", "blog".to_string()).unwrap();
    let deep = TemplatePath(Some("blog/2024".to_string()), "page".to_string());
    assert_eq!(t.resolve(&deep).unwrap().content, "blog");
    let other = TemplatePath(Some("docs".to_string()), "page".to_string());
    assert_eq!(t.resolve(&other).unwrap().content, "root");
    let missing = TemplatePath(None, "post".to_string());
    assert_eq!(t.resolve(&missing).err(), Some(TemplateError::NotFound));
    let _ = Template { content: String::new() };
}

#[test]
fn replacing_a_layout_keeps_the_latest() {
    let mut t = Templates::new();
    t.add_template("templates/[page].html", "templates", "one".to_string()).unwrap();
    t.add_template("templates/[page].html", "templates", "two".to_string()).unwrap();
    let key = TemplatePath(None, "page".to_string());
    assert_eq!(t.lookup(&key).unwrap().content, "two");
}
