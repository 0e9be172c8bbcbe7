//! The entries of `sitemap.xml`.
use vstd::prelude::*;

use crate::content::{Content, ContentType, Date, is_special_name};
use crate::store::Store;
use crate::text::{decimal, dec_of, digit_char, pad_to};
use crate::utils::opt_view;
use xml::writer::XmlEvent;

verus! {

/// How often a page is expected to change.
#[derive(Debug, Clone, Copy, PartialEq, Eq, Structural)]
pub enum ChangeFreq {
    Always,
    Hourly,
    Daily,
    Weekly,
    Monthly,
    Yearly,
    Never,
}

/// The sitemap name of each frequency.
pub open spec fn freq_name(f: ChangeFreq) -> Seq<char> {
    match f {
        ChangeFreq::Always => "always"@,
        ChangeFreq::Hourly => "hourly"@,
        ChangeFreq::Daily => "daily"@,
        ChangeFreq::Weekly => "weekly"@,
        ChangeFreq::Monthly => "monthly"@,
        ChangeFreq::Yearly => "yearly"@,
        ChangeFreq::Never => "never"@,
    }
}

impl ChangeFreq {
    pub fn as_str(self) -> (r: &'static str)
        ensures
            r@ == freq_name(self),
    {
        match self {
            ChangeFreq::Always => "always",
            ChangeFreq::Hourly => "hourly",
            ChangeFreq::Daily => "daily",
            ChangeFreq::Weekly => "weekly",
            ChangeFreq::Monthly => "monthly",
            ChangeFreq::Yearly => "yearly",
            ChangeFreq::Never => "never",
        }
    }
}

/// A priority, in hundredths, lies between 0.0 and 1.0.
pub open spec fn priority_ok(p: Option<i32>) -> bool {
    match p {
        Some(x) => 0 <= x <= 100,
        None => true,
    }
}

/// Whether `priority` (in hundredths) may be given to `UrlEntry::new`.
pub fn is_valid_priority(priority: Option<i32>) -> (r: bool)
    ensures
        r == priority_ok(priority),
{
    match priority {
        Some(x) => 0 <= x && x <= 100,
        None => true,
    }
}

/// One `<url>` of the sitemap. The priority is in hundredths.
#[derive(Debug, Clone)]
pub struct UrlEntry {
    pub loc: String,
    pub last_mod: Option<Date>,
    pub change_freq: Option<String>,
    pub priority: Option<i32>,
}

/// The URL that the url crate gives for `rel` resolved against `base`, if
/// `base` parses and the join succeeds.
pub uninterp spec fn url_join_of(base: Seq<char>, rel: Seq<char>) -> Option<Seq<char>>;

/// Relies on url's `Url::parse` of the base, `Url::join` and the text form of
/// the result.
#[verifier::external_body]
fn join_url(base: &str, rel: &str) -> (r: Option<String>)
    ensures
        opt_view(r) == url_join_of(base@, rel@),
{
    let base = url::Url::parse(base).ok()?;
    base.join(rel).ok().map(|u| u.to_string())
}

impl UrlEntry {
    /// An entry; a priority outside 0.0 to 1.0 is a caller's error.
    pub fn new(
        loc: String,
        last_mod: Option<Date>,
        change_freq: Option<ChangeFreq>,
        priority: Option<i32>,
    ) -> (r: UrlEntry)
        requires
            priority_ok(priority),
        ensures
            r.loc@ == loc@,
            r.last_mod == last_mod,
            opt_view(r.change_freq) == match change_freq {
                Some(f) => Some(freq_name(f)),
                None => None,
            },
            r.priority == priority,
    {
        let change_freq = match change_freq {
            Some(f) => Some(f.as_str().to_string()),
            None => None,
        };
        UrlEntry { loc, last_mod, change_freq, priority }
    }

    /// The entry of a page: its URL below `base`, its modification date,
    /// monthly, no priority. Nothing when the URL cannot be formed.
    pub fn from_content(value: &Content, base: &str) -> (r: Option<UrlEntry>)
        ensures
            url_join_of(base@, value.url@) is None ==> r is None,
            url_join_of(base@, value.url@) matches Some(u) ==> (r matches Some(e) && e.loc@ == u
                && e.last_mod == value.frontmatter.last_modified && opt_view(e.change_freq)
                == Some("monthly"@) && e.priority is None),
    {
        match join_url(base, value.url.as_str()) {
            Some(loc) => Some(
                UrlEntry::new(loc, value.frontmatter.last_modified, Some(ChangeFreq::Monthly), None),
            ),
            None => None,
        }
    }
}

/// A page listed in the sitemap: an HTML-family page that is not a special
/// page.
pub open spec fn listed(c: Content) -> bool {
    (c.kind == ContentType::Html || c.kind == ContentType::Jotdown || c.kind == ContentType::Typst)
        && !is_special_name(c.out_path@)
}

/// The sitemap entry of a listed page below `base`.
pub open spec fn entry_of(page: Content, base: Seq<char>, e: UrlEntry) -> bool {
    &&& Some(e.loc@) == url_join_of(base, page.url@)
    &&& e.last_mod == page.frontmatter.last_modified
    &&& opt_view(e.change_freq) == Some("monthly"@)
    &&& e.priority is None
}

/// `v` holds the entries of the listed pages of `es`, in order.
pub open spec fn entries_ok(es: Seq<(String, Content)>, base: Seq<char>, v: Seq<UrlEntry>) -> bool {
    let listed_pages = es.filter(|e: (String, Content)| listed(e.1));
    &&& v.len() == listed_pages.len()
    &&& forall|i: int| 0 <= i < v.len() ==> entry_of(listed_pages[i].1, base, #[trigger] v[i])
}

/// Some listed page of `es` has a URL that cannot be formed below `base`.
pub open spec fn some_url_fails(es: Seq<(String, Content)>, base: Seq<char>) -> bool {
    exists|i: int|
        0 <= i < es.len() && listed(#[trigger] es[i].1) && url_join_of(base, es[i].1.url@) is None
}

/// The entries of the sitemap: one for each listed page, in store order.
/// Nothing when a page's URL cannot be formed.
pub fn entries(pages: &Store<Content>, base: &str) -> (r: Option<Vec<UrlEntry>>)
    ensures
        r matches Some(v) ==> entries_ok(pages.entries(), base@, v@),
        r is None <==> some_url_fails(pages.entries(), base@),
{
    let mut v: Vec<UrlEntry> = Vec::new();
    let n = pages.len();
    let mut i: usize = 0;
    while i < n
        invariant
            n == pages.entries().len(),
            i <= n,
            forall|j: int|
                0 <= j < i && listed(#[trigger] pages.entries()[j].1) ==> url_join_of(
                    base@,
                    pages.entries()[j].1.url@,
                ) is Some,
            entries_ok(pages.entries().subrange(0, i as int), base@, v@),
        decreases n - i,
    {
        let e = pages.entry(i);
        let ghost prefix = pages.entries().subrange(0, i as int);
        let ghost f = |e: (String, Content)| listed(e.1);
        proof {
            assert(pages.entries().subrange(0, i + 1) == prefix.push(*e));
            prefix.lemma_filter_push(*e, f);
        }
        if e.1.is_public_page() {
            match UrlEntry::from_content(&e.1, base) {
                Some(u) => v.push(u),
                None => return None,
            }
        }
        i = i + 1;
    }
    assert(pages.entries().subrange(0, n as int) == pages.entries());
    Some(v)
}

/// A piece of an XML document.
#[derive(Debug, Clone)]
pub enum XmlItem {
    /// A processing instruction: its target and data.
    Instruction(String, String),
    /// An opening tag, with a default namespace when given.
    Start(String, Option<String>),
    Text(String),
    /// The closing tag of the innermost open element.
    End,
}

/// A piece of an XML document, as characters.
pub enum XmlNode {
    Instruction(Seq<char>, Seq<char>),
    Start(Seq<char>, Option<Seq<char>>),
    Text(Seq<char>),
    End,
}

impl View for XmlItem {
    type V = XmlNode;

    open spec fn view(&self) -> XmlNode {
        match self {
            XmlItem::Instruction(n, d) => XmlNode::Instruction(n@, d@),
            XmlItem::Start(n, ns) => XmlNode::Start(n@, opt_view(*ns)),
            XmlItem::Text(s) => XmlNode::Text(s@),
            XmlItem::End => XmlNode::End,
        }
    }
}

/// The characters of a list of items.
pub open spec fn nodes_of(items: Seq<XmlItem>) -> Seq<XmlNode> {
    items.map_values(|x: XmlItem| x@)
}

/// The text that xml-rs's indenting writer gives for `items`, after its own
/// document declaration; nothing when it reports an error.
pub uninterp spec fn xml_text_of(items: Seq<XmlNode>) -> Option<Seq<char>>;

/// Relies on xml-rs's `EventWriter` (from `EmitterConfig` with indentation),
/// writing each item as the `XmlEvent` of the same kind; `None` when a write
/// or the UTF-8 conversion fails.
#[verifier::external_body]
fn write_xml(items: &Vec<XmlItem>) -> (r: Option<String>)
    ensures
        opt_view(r) == xml_text_of(nodes_of(items@)),
{
    let mut out = Vec::new();
    let mut w = xml::writer::EmitterConfig::new().perform_indent(true).create_writer(&mut out);
    for item in items {
        let event: XmlEvent = match item {
            XmlItem::Instruction(n, d) => XmlEvent::processing_instruction(n, Some(d)),
            XmlItem::Start(n, None) => XmlEvent::start_element(n.as_str()).into(),
            XmlItem::Start(n, Some(ns)) => XmlEvent::start_element(n.as_str()).default_ns(ns.as_str()).into(),
            XmlItem::Text(s) => XmlEvent::characters(s),
            XmlItem::End => XmlEvent::end_element().into(),
        };
        w.write(event).ok()?;
    }
    drop(w);
    String::from_utf8(out).ok()
}

/// A date as `YYYY-MM-DD`, with a `-` before a negative year.
pub open spec fn date_text_of(d: Date) -> Seq<char> {
    let y: int = d.year as int;
    (if y < 0 { seq!['-'] } else { Seq::empty() }) + pad_to(dec_of((if y < 0 { -y } else { y }) as nat), 4)
        + seq!['-'] + pad_to(dec_of(d.month as nat), 2) + seq!['-'] + pad_to(dec_of(d.day as nat), 2)
}

pub fn date_text(d: Date) -> (r: String)
    ensures
        r@ == date_text_of(d),
{
    let y: i32 = d.year as i32;
    let mut r = if y < 0 { "-".to_string() } else { String::new() };
    proof { reveal_strlit("-"); }
    let a: u32 = if y < 0 { (-y) as u32 } else { y as u32 };
    r.append(decimal(a, 4).as_str());
    r.append("-");
    r.append(decimal(d.month as u32, 2).as_str());
    r.append("-");
    r.append(decimal(d.day as u32, 2).as_str());
    r
}

/// A priority of `p` hundredths as the shortest decimal: `0`, `1`, `0.8`,
/// `0.25`.
pub open spec fn priority_text_of(p: int) -> Seq<char> {
    if p <= 0 {
        "0"@
    } else if p >= 100 {
        "1"@
    } else if p % 10 == 0 {
        "0."@ + seq![digit_char((p / 10) as nat)]
    } else {
        "0."@ + pad_to(dec_of(p as nat), 2)
    }
}

pub fn priority_text(p: i32) -> (r: String)
    requires
        0 <= p <= 100,
    ensures
        r@ == priority_text_of(p as int),
{
    if p == 0 {
        "0".to_string()
    } else if p == 100 {
        "1".to_string()
    } else if p % 10 == 0 {
        let mut r = "0.".to_string();
        let d = decimal((p / 10) as u32, 1);
        proof {
            reveal_strlit("0.");
            assert(dec_of((p / 10) as nat) == seq![digit_char((p / 10) as nat)]);
        }
        r.append(d.as_str());
        r
    } else {
        let mut r = "0.".to_string();
        r.append(decimal(p as u32, 2).as_str());
        r
    }
}

/// An element holding only text.
pub open spec fn element_nodes(name: Seq<char>, text: Seq<char>) -> Seq<XmlNode> {
    seq![XmlNode::Start(name, None), XmlNode::Text(text), XmlNode::End]
}

/// The `<url>` element of an entry.
pub open spec fn entry_nodes(e: UrlEntry) -> Seq<XmlNode> {
    seq![XmlNode::Start("url"@, None)] + element_nodes("loc"@, e.loc@) + (match e.last_mod {
        Some(d) => element_nodes("lastmod"@, date_text_of(d)),
        None => Seq::empty(),
    }) + (match opt_view(e.change_freq) {
        Some(f) => element_nodes("changefreq"@, f),
        None => Seq::empty(),
    }) + (match e.priority {
        Some(p) => element_nodes("priority"@, priority_text_of(p as int)),
        None => Seq::empty(),
    }) + seq![XmlNode::End]
}

/// The `<url>` elements of a list of entries.
pub open spec fn entries_nodes(es: Seq<UrlEntry>) -> Seq<XmlNode>
    decreases es.len(),
{
    if es.len() == 0 {
        Seq::empty()
    } else {
        entries_nodes(es.drop_last()) + entry_nodes(es.last())
    }
}

/// The sitemap document: the stylesheet instruction, then the `urlset` in
/// the sitemap namespace holding one `<url>` per entry.
pub open spec fn sitemap_nodes(es: Seq<UrlEntry>) -> Seq<XmlNode> {
    seq![
        XmlNode::Instruction("xml-stylesheet"@, "type=\"text/xsl\" href=\"/sitemap.xsl\""@),
        XmlNode::Start("urlset"@, Some("http://www.sitemaps.org/schemas/sitemap/0.9"@)),
    ] + entries_nodes(es) + seq![XmlNode::End]
}

fn push_item(r: &mut Vec<XmlItem>, x: XmlItem)
    ensures
        nodes_of(final(r)@) == nodes_of(old(r)@).push(x@),
{
    r.push(x);
    assert(nodes_of(r@) =~= nodes_of(old(r)@).push(x@));
}

fn push_element(r: &mut Vec<XmlItem>, name: &str, text: String)
    ensures
        nodes_of(final(r)@) == nodes_of(old(r)@) + element_nodes(name@, text@),
{
    let ghost start = nodes_of(r@);
    push_item(r, XmlItem::Start(name.to_string(), None));
    push_item(r, XmlItem::Text(text));
    push_item(r, XmlItem::End);
    assert(nodes_of(r@) =~= start + element_nodes(name@, text@));
}

/// The items of the sitemap document for `entries`.
pub fn sitemap_events(entries: &Vec<UrlEntry>) -> (r: Vec<XmlItem>)
    requires
        forall|i: int| 0 <= i < entries@.len() ==> priority_ok(#[trigger] entries@[i].priority),
    ensures
        nodes_of(r@) == sitemap_nodes(entries@),
{
    let mut r: Vec<XmlItem> = Vec::new();
    assert(nodes_of(r@) =~= Seq::<XmlNode>::empty());
    push_item(&mut r, XmlItem::Instruction("xml-stylesheet".to_string(), "type=\"text/xsl\" href=\"/sitemap.xsl\"".to_string()));
    push_item(&mut r, XmlItem::Start("urlset".to_string(), Some("http://www.sitemaps.org/schemas/sitemap/0.9".to_string())));
    let ghost head = nodes_of(r@);
    let mut i: usize = 0;
    while i < entries.len()
        invariant
            i <= entries@.len(),
            forall|j: int| 0 <= j < entries@.len() ==> priority_ok(#[trigger] entries@[j].priority),
            nodes_of(r@) == head + entries_nodes(entries@.subrange(0, i as int)),
        decreases entries@.len() - i,
    {
        let e = &entries[i];
        let ghost before = nodes_of(r@);
        push_item(&mut r, XmlItem::Start("url".to_string(), None));
        push_element(&mut r, "loc", e.loc.clone());
        let ghost a = nodes_of(r@);
        match e.last_mod {
            Some(d) => push_element(&mut r, "lastmod", date_text(d)),
            None => {},
        }
        let ghost b = nodes_of(r@);
        match &e.change_freq {
            Some(f) => push_element(&mut r, "changefreq", f.clone()),
            None => {},
        }
        let ghost c = nodes_of(r@);
        match e.priority {
            Some(p) => push_element(&mut r, "priority", priority_text(p)),
            None => {},
        }
        let ghost d = nodes_of(r@);
        push_item(&mut r, XmlItem::End);
        proof {
            let sub = entries@.subrange(0, i + 1);
            assert(sub.drop_last() == entries@.subrange(0, i as int));
            assert(sub.last() == *e);
            assert(a =~= before + (seq![XmlNode::Start("url"@, None)] + element_nodes("loc"@, e.loc@)));
            assert(nodes_of(r@) =~= before + entry_nodes(*e));
            assert(nodes_of(r@) =~= head + entries_nodes(sub));
        }
        i = i + 1;
    }
    push_item(&mut r, XmlItem::End);
    assert(entries@.subrange(0, entries@.len() as int) == entries@);
    proof {
        reveal_strlit("xml-stylesheet");
        reveal_strlit("type=\"text/xsl\" href=\"/sitemap.xsl\"");
        reveal_strlit("urlset");
        reveal_strlit("http://www.sitemaps.org/schemas/sitemap/0.9");
    }
    assert(nodes_of(r@) =~= sitemap_nodes(entries@));
    r
}

/// The text of `sitemap.xml` for `entries`; nothing when the writer fails.
pub fn sitemap(entries: &Vec<UrlEntry>) -> (r: Option<String>)
    requires
        forall|i: int| 0 <= i < entries@.len() ==> priority_ok(#[trigger] entries@[i].priority),
    ensures
        opt_view(r) == xml_text_of(sitemap_nodes(entries@)),
{
    let items = sitemap_events(entries);
    write_xml(&items)
}

} // verus!
