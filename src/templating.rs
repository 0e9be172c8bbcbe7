//! The template index: which files under the template root are pages,
//! partials or reusable layouts, and the lookup of layouts by directory and
//! name.
use vstd::prelude::*;

use crate::pathname::{file_name, file_name_of, name, name_of, parent, parent_of, stem, stem_of, str_eq};
use crate::utils::{opt_eq, opt_view, unprefixed_parent, unprefixed_parent_of};

verus! {

/// A file whose name begins with `_`: included by others, never output.
pub open spec fn is_partial_spec(p: Seq<char>) -> bool {
    file_name_of(p) is Some && file_name_of(p).unwrap()[0] == '_'
}

/// A file whose stem is wrapped in brackets: a reusable layout.
pub open spec fn is_template_spec(p: Seq<char>) -> bool {
    file_name_of(p) is Some && stem_of(name_of(p)).len() > 0 && stem_of(name_of(p))[0] == '['
        && stem_of(name_of(p)).last() == ']'
}

pub fn is_partial(path: &str) -> (r: bool)
    ensures
        r == is_partial_spec(path@),
{
    match file_name(path) {
        Some(f) => f.get_char(0) == '_',
        None => false,
    }
}

pub fn is_template(path: &str) -> (r: bool)
    ensures
        r == is_template_spec(path@),
{
    match file_name(path) {
        Some(f) => {
            let s = stem(f);
            let n = s.unicode_len();
            n > 0 && s.get_char(0) == '[' && s.get_char(n - 1) == ']'
        },
        None => false,
    }
}

/// A page: neither a layout nor a partial.
pub fn is_page(path: &str) -> (r: bool)
    ensures
        r == (!is_template_spec(path@) && !is_partial_spec(path@)),
{
    !is_template(path) && !is_partial(path)
}

/// `s` without any `[` or `]`.
pub open spec fn unbracketed(s: Seq<char>) -> Seq<char>
    decreases s.len(),
{
    if s.len() == 0 {
        s
    } else if s.last() == '[' || s.last() == ']' {
        unbracketed(s.drop_last())
    } else {
        unbracketed(s.drop_last()).push(s.last())
    }
}

/// The name a layout is known by: its file stem without brackets.
pub fn template_name(path: &str) -> (r: String)
    ensures
        r@ == unbracketed(stem_of(name_of(path@))),
{
    let s = stem(name(path));
    let n = s.unicode_len();
    let mut r = String::new();
    let mut i: usize = 0;
    while i < n
        invariant
            n == s@.len(),
            i <= n,
            r@ == unbracketed(s@.subrange(0, i as int)),
        decreases n - i,
    {
        let c = s.get_char(i);
        assert(s@.subrange(0, i as int) == s@.subrange(0, i + 1).drop_last());
        if c != '[' && c != ']' {
            r.append(s.substring_char(i, i + 1));
            assert(s@.subrange(i as int, i + 1) == seq![c]);
        }
        i = i + 1;
    }
    assert(s@.subrange(0, n as int) == s@);
    r
}

/// A layout's source text.
#[derive(Debug)]
pub struct Template {
    pub content: String,
}

/// A layout's key: its directory below the template root, and its name.
#[derive(Debug, Clone)]
pub struct TemplatePath(pub Option<String>, pub String);

impl View for TemplatePath {
    type V = (Option<Seq<char>>, Seq<char>);

    open spec fn view(&self) -> (Option<Seq<char>>, Seq<char>) {
        (opt_view(self.0), self.1@)
    }
}

impl TemplatePath {
    pub fn same(&self, other: &TemplatePath) -> (r: bool)
        ensures
            r == (self@ == other@),
    {
        opt_eq(&self.0, &other.0) && str_eq(self.1.as_str(), other.1.as_str())
    }
}

/// Why a template could not be added or found.
#[derive(Debug, Clone, Copy, PartialEq, Eq, Structural)]
pub enum TemplateError {
    NoFileName,
    NotFound,
}

/// The layouts, by key.
pub struct Templates {
    entries: Vec<(TemplatePath, Template)>,
}

/// The layouts that a list of entries holds; a later entry wins.
pub open spec fn entries_map(es: Seq<(TemplatePath, Template)>) -> Map<
    (Option<Seq<char>>, Seq<char>),
    Seq<char>,
>
    decreases es.len(),
{
    if es.len() == 0 {
        Map::empty()
    } else {
        entries_map(es.drop_last()).insert(es.last().0@, es.last().1.content@)
    }
}

proof fn lemma_absent(es: Seq<(TemplatePath, Template)>, k: (Option<Seq<char>>, Seq<char>))
    requires
        forall|j: int| 0 <= j < es.len() ==> (#[trigger] es[j]).0@ != k,
    ensures
        !entries_map(es).contains_key(k),
    decreases es.len(),
{
    if es.len() > 0 {
        lemma_absent(es.drop_last(), k);
    }
}

proof fn lemma_found(es: Seq<(TemplatePath, Template)>, i: int)
    requires
        0 <= i < es.len(),
        forall|j: int| i < j < es.len() ==> (#[trigger] es[j]).0@ != es[i].0@,
    ensures
        entries_map(es).contains_key(es[i].0@),
        entries_map(es)[es[i].0@] == es[i].1.content@,
    decreases es.len(),
{
    if i < es.len() - 1 {
        lemma_found(es.drop_last(), i);
    }
}

proof fn lemma_replace(es: Seq<(TemplatePath, Template)>, i: int, e: (TemplatePath, Template))
    requires
        0 <= i < es.len(),
        e.0@ == es[i].0@,
        forall|j: int| i < j < es.len() ==> (#[trigger] es[j]).0@ != es[i].0@,
    ensures
        entries_map(es.update(i, e)) == entries_map(es).insert(e.0@, e.1.content@),
    decreases es.len(),
{
    if i < es.len() - 1 {
        lemma_replace(es.drop_last(), i, e);
        assert(es.update(i, e).drop_last() == es.drop_last().update(i, e));
        assert(entries_map(es.update(i, e)) =~= entries_map(es).insert(e.0@, e.1.content@));
    } else {
        assert(es.update(i, e).drop_last() == es.drop_last());
        assert(entries_map(es.update(i, e)) =~= entries_map(es).insert(e.0@, e.1.content@));
    }
}

/// The directory above `d`, absent at the template root.
pub open spec fn up(d: Seq<char>) -> Option<Seq<char>> {
    if parent_of(d).len() == 0 {
        None
    } else {
        Some(parent_of(d))
    }
}

/// The layout named `name` nearest to `dir`: in `dir` itself, else in the
/// directories above it, up to the template root.
pub open spec fn resolve_of(
    m: Map<(Option<Seq<char>>, Seq<char>), Seq<char>>,
    dir: Option<Seq<char>>,
    name: Seq<char>,
) -> Option<Seq<char>>
    decreases
            match dir {
                Some(d) => d.len() + 1,
                None => 0,
            },
{
    if m.contains_key((dir, name)) {
        Some(m[(dir, name)])
    } else {
        match dir {
            Some(d) => {
                if parent_of(d).len() < d.len() {
                    resolve_of(m, up(d), name)
                } else {
                    None
                }
            },
            None => None,
        }
    }
}

impl View for Templates {
    type V = Map<(Option<Seq<char>>, Seq<char>), Seq<char>>;

    closed spec fn view(&self) -> Map<(Option<Seq<char>>, Seq<char>), Seq<char>> {
        entries_map(self.entries@)
    }
}

impl Templates {
    pub fn new() -> (r: Templates)
        ensures
            r@ == Map::<(Option<Seq<char>>, Seq<char>), Seq<char>>::empty(),
    {
        Templates { entries: Vec::new() }
    }

    /// Index of the last entry with key `key`.
    fn position(&self, key: &TemplatePath) -> (r: Option<usize>)
        ensures
            match r {
                Some(i) => i < self.entries@.len() && self.entries@[i as int].0@ == key@
                    && forall|j: int|
                    i < j < self.entries@.len() ==> (#[trigger] self.entries@[j]).0@ != key@,
                None => forall|j: int|
                    0 <= j < self.entries@.len() ==> (#[trigger] self.entries@[j]).0@ != key@,
            },
    {
        let mut i: usize = self.entries.len();
        while i > 0
            invariant
                i <= self.entries@.len(),
                forall|j: int|
                    i <= j < self.entries@.len() ==> (#[trigger] self.entries@[j]).0@ != key@,
            decreases i,
        {
            if self.entries[i - 1].0.same(key) {
                return Some(i - 1);
            }
            i = i - 1;
        }
        None
    }

    /// Sets the layout for `key`, replacing an earlier one.
    pub fn insert(&mut self, key: TemplatePath, template: Template)
        ensures
            final(self)@ == old(self)@.insert(key@, template.content@),
    {
        match self.position(&key) {
            Some(i) => {
                proof {
                    lemma_replace(self.entries@, i as int, (key, template));
                }
                self.entries.set(i, (key, template));
            },
            None => {
                self.entries.push((key, template));
                assert(self.entries@.drop_last() == old(self).entries@);
            },
        }
    }

    /// Indexes the file at `path` below `root`, with source text `content`,
    /// when it is a bracketed layout; other files are left out.
    pub fn add_template(&mut self, path: &str, root: &str, content: String) -> (r: Result<
        (),
        TemplateError,
    >)
        ensures
            file_name_of(path@) is None ==> r == Err::<(), TemplateError>(TemplateError::NoFileName)
                && final(self)@ == old(self)@,
            file_name_of(path@) is Some ==> r is Ok,
            file_name_of(path@) is Some && is_template_spec(path@) ==> final(self)@ == old(
                self,
            )@.insert(
                (unprefixed_parent_of(path@, root@), unbracketed(stem_of(name_of(path@)))),
                content@,
            ),
            !is_template_spec(path@) ==> final(self)@ == old(self)@,
    {
        if file_name(path).is_none() {
            return Err(TemplateError::NoFileName);
        }
        if is_template(path) {
            let key = TemplatePath(unprefixed_parent(path, root), template_name(path));
            self.insert(key, Template { content });
        }
        Ok(())
    }

    /// The layout stored under exactly `key`.
    pub fn lookup(&self, key: &TemplatePath) -> (r: Result<&Template, TemplateError>)
        ensures
            match r {
                Ok(t) => self@.contains_key(key@) && self@[key@] == t.content@,
                Err(e) => !self@.contains_key(key@) && e == TemplateError::NotFound,
            },
    {
        match self.position(key) {
            Some(i) => {
                proof { lemma_found(self.entries@, i as int); }
                Ok(&self.entries[i].1)
            },
            None => {
                proof { lemma_absent(self.entries@, key@); }
                Err(TemplateError::NotFound)
            },
        }
    }

    /// The layout for `key`, looked up in its directory and then in each
    /// directory above, up to the template root.
    pub fn resolve(&self, key: &TemplatePath) -> (r: Result<&Template, TemplateError>)
        ensures
            match r {
                Ok(t) => resolve_of(self@, key@.0, key@.1) == Some(t.content@),
                Err(e) => resolve_of(self@, key@.0, key@.1) is None && e
                    == TemplateError::NotFound,
            },
        decreases
                match key.0 {
                    Some(d) => d@.len() + 1,
                    None => 0,
                },
    {
        match self.lookup(key) {
            Ok(t) => Ok(t),
            Err(e) => match &key.0 {
                Some(d) => {
                    if d.unicode_len() == 0 {
                        return Err(e);
                    }
                    proof { crate::pathname::lemma_last_sep_bounds(d@); }
                    let p = parent(d.as_str());
                    let next = if p.unicode_len() == 0 {
                        None
                    } else {
                        Some(p.to_string())
                    };
                    let k = TemplatePath(next, crate::pathname::copy_str(key.1.as_str()));
                    assert(k@ == (up(d@), key@.1));
                    self.resolve(&k)
                },
                None => Err(e),
            },
        }
    }
}

} // verus!
