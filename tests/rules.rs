use statisk::watcher::watch_triggers;
use statisk::output::{expand_pattern, file_output, public_file, select_output, template, GlobPattern, Output, OutputBuilder, OutputError, OutputKind, OutputMatch, Selection};

fn rule(kind: OutputKind, glob: &str) -> Output<u32> {
    let b: OutputBuilder<u32> = OutputBuilder::new(kind, glob).unwrap();
    b.filter(1).output("x".to_string()).build().unwrap()
}

#[test]
fn first_declared_rule_wins() {
    let rules = vec![rule(OutputKind::PublicFile, "public/**"), rule(OutputKind::Template, "public/*.html")];
    assert_eq!(select_output(&rules, "public/index.html"), Selection::Primary(0, OutputKind::PublicFile));
    let rules = vec![rule(OutputKind::Template, "public/*.html"), rule(OutputKind::PublicFile, "public/**")];
    assert_eq!(select_output(&rules, "public/index.html"), Selection::Primary(0, OutputKind::Template));
    assert_eq!(select_output(&rules, "public/a.png"), Selection::Primary(1, OutputKind::PublicFile));
}

#[test]
fn watch_match_produces_no_output() {
    let b: OutputBuilder<u32> = OutputBuilder::new(OutputKind::Asset, "styles/main.css").unwrap();
    let r = b.watch("styles/_*.css").unwrap().build().unwrap();
    assert_eq!(r.match_kind("styles/_base.css"), OutputMatch::Watch(OutputKind::Asset));
    assert_eq!(r.match_kind("styles/main.css"), OutputMatch::Glob(OutputKind::Asset));
    assert_eq!(r.match_kind("js/app.js"), OutputMatch::NoMatch);
    let rules = vec![r];
    let s = select_output(&rules, "styles/_base.css");
    assert_eq!(s, Selection::Watch(0, OutputKind::Asset));
    assert!(!s.produces_output());
    assert!(select_output(&rules, "styles/main.css").produces_output());
    assert_eq!(select_output(&rules, "other.txt"), Selection::NoMatch);
}

#[test]
fn builders_validate_required_fields() {
    let t: OutputBuilder<u32> = template("posts/*.dj").unwrap();
    assert_eq!(t.out_pattern, Some("{slug}.html".to_string()));
    assert_eq!(t.build().err(), Some(OutputError::MissingFilter));
    let t: OutputBuilder<u32> = template("posts/*.dj").unwrap();
    let built = t.filter(7).pattern("blog/{slug}/index.html".to_string()).build().unwrap();
    assert_eq!(built.filter_fn, Some(7));
    let f: OutputBuilder<u32> = file_output("robots.txt").unwrap();
    assert_eq!(f.build().err(), Some(OutputError::MissingOutput));
    let f: OutputBuilder<u32> = file_output("robots.txt").unwrap();
    assert_eq!(f.output("robots.txt".to_string()).build().unwrap().output, Some("robots.txt".to_string()));
    let p: OutputBuilder<u32> = public_file("public/**").unwrap();
    assert!(p.build().is_ok());
    let bad: Result<OutputBuilder<u32>, OutputError> = public_file("a[");
    assert_eq!(bad.err(), Some(OutputError::InvalidGlob));
}

#[test]
fn glob_keeps_its_pattern() {
    let g = GlobPattern::new("*.css").unwrap();
    assert_eq!(g.pattern(), "*.css");
    assert!(g.is_match("main.css"));
    assert!(!g.is_match("main.js"));
    assert!(GlobPattern::new("{a").is_none());
}

#[test]
fn pattern_expansion() {
    assert_eq!(expand_pattern("{slug}.html", "hello"), "hello.html");
    assert_eq!(expand_pattern("posts/{slug}/{slug}.html", "a"), "posts/a/a.html");
    assert_eq!(expand_pattern("static.html", "a"), "static.html");
    assert_eq!(expand_pattern("{slu}", "a"), "{slu}");
}

#[test]
fn watched_partial_triggers_its_rule() {
    let b: OutputBuilder<u32> = OutputBuilder::new(OutputKind::Asset, "styles/main.css").unwrap();
    let css = b.watch("styles/_*.css").unwrap().build().unwrap();
    let b: OutputBuilder<u32> = OutputBuilder::new(OutputKind::PublicFile, "public/**").unwrap();
    let public = b.watch("styles/_base.css").unwrap().build().unwrap();
    let rules = vec![css, public];
    let changed = vec!["styles/_base.css".to_string(), "styles/_base.css".to_string(), "styles/main.css".to_string()];
    assert_eq!(watch_triggers(&rules, &changed), vec![0]);
    assert!(watch_triggers(&rules, &vec!["public/a.png".to_string()]).is_empty());
}

#[test]
fn overlong_glob_is_refused() {
    let deep = format!("{}a{}", "{a,".repeat(300), "}".repeat(300));
    assert!(GlobPattern::new(&deep).is_none());
    let long = "a".repeat(70000);
    assert!(GlobPattern::new(&long).is_none());
}
