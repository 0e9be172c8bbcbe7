//! The output rule engine: an ordered list of rules, each pairing a primary
//! glob with optional watch globs and a kind of build action, and the
//! builders that scripts use to declare them.
use vstd::prelude::*;

use crate::utils::opt_view;

verus! {

#[verifier::external_type_specification]
#[verifier::external_body]
pub struct ExGlobSet(globset::GlobSet);

/// Whether globset accepts `pattern`: `Glob::new` parses it and a set
/// holding it compiles.
pub uninterp spec fn glob_parses(pattern: Seq<char>) -> bool;

/// Whether globset's matcher for `pattern` accepts `path`.
pub uninterp spec fn glob_match(pattern: Seq<char>, path: Seq<char>) -> bool;

/// The longest glob pattern the library takes. globset builds literal
/// prefix and suffix matchers with an `unwrap`, which fails only for
/// patterns far beyond this length.
pub const MAX_GLOB_LEN: usize = 65536;

/// A compiled glob, with the pattern it was compiled from.
pub struct GlobPattern {
    pattern: String,
    set: globset::GlobSet,
}

impl View for GlobPattern {
    type V = Seq<char>;

    closed spec fn view(&self) -> Seq<char> {
        self.pattern@
    }
}

/// Relies on globset's `Glob::new` and on `GlobSetBuilder::build` for a set
/// of that one glob; both report failure (a bad pattern, a regex too deep or
/// too large) as an error rather than a panic.
#[verifier::external_body]
fn compile_glob(pattern: &str) -> (r: Option<GlobPattern>)
    requires
        pattern@.len() <= MAX_GLOB_LEN,
    ensures
        r is Some <==> glob_parses(pattern@),
        r matches Some(g) ==> g@ == pattern@,
{
    let glob = globset::Glob::new(pattern).ok()?;
    let set = globset::GlobSetBuilder::new().add(glob).build().ok()?;
    Some(GlobPattern { pattern: pattern.to_string(), set })
}

/// Relies on globset's `GlobSet::is_match`: the set holds the one glob
/// compiled from the pattern kept beside it.
#[verifier::external_body]
fn matcher_accepts(g: &GlobPattern, path: &str) -> (r: bool)
    ensures
        r == glob_match(g@, path@),
{
    g.set.is_match(path)
}

/// Whether the library takes `pattern`: not too long, and accepted by
/// globset.
pub open spec fn glob_ok(pattern: Seq<char>) -> bool {
    pattern.len() <= MAX_GLOB_LEN && glob_parses(pattern)
}

impl GlobPattern {
    /// Compiles `pattern`; nothing when it is too long or globset refuses
    /// it.
    pub fn new(pattern: &str) -> (r: Option<GlobPattern>)
        ensures
            r is Some <==> glob_ok(pattern@),
            r matches Some(g) ==> g@ == pattern@,
    {
        if pattern.unicode_len() > MAX_GLOB_LEN {
            return None;
        }
        compile_glob(pattern)
    }

    pub fn is_match(&self, path: &str) -> (r: bool)
        ensures
            r == glob_match(self@, path@),
    {
        matcher_accepts(self, path)
    }

    /// The pattern's text.
    pub fn pattern(&self) -> (r: &str)
        ensures
            r@ == self@,
    {
        self.pattern.as_str()
    }
}

/// What a rule does with the files its primary glob selects.
#[derive(Debug, Clone, Copy, PartialEq, Eq, Structural)]
pub enum OutputKind {
    PublicFile,
    File,
    Template,
    Asset,
}

/// How one rule relates to a path.
#[derive(Debug, Clone, Copy, PartialEq, Eq, Structural)]
pub enum OutputMatch {
    Glob(OutputKind),
    Watch(OutputKind),
    NoMatch,
}

/// A rule, fixed once built. `F` is the script's filter callback, which the
/// engine only carries.
pub struct Output<F> {
    pub kind: OutputKind,
    pub glob: GlobPattern,
    pub watch_set: Vec<GlobPattern>,
    pub out_pattern: Option<String>,
    pub output: Option<String>,
    pub filter_fn: Option<F>,
}

/// Whether the rule's primary glob selects `path`.
pub open spec fn primary_match<F>(o: Output<F>, path: Seq<char>) -> bool {
    glob_match(o.glob@, path)
}

/// Whether one of the rule's watch globs selects `path`.
pub open spec fn watch_match<F>(o: Output<F>, path: Seq<char>) -> bool {
    exists|i: int| 0 <= i < o.watch_set@.len() && glob_match(#[trigger] o.watch_set@[i]@, path)
}

/// How the rule relates to `path`: a primary match first, then a watch
/// match.
pub open spec fn match_kind_of<F>(o: Output<F>, path: Seq<char>) -> OutputMatch {
    if primary_match(o, path) {
        OutputMatch::Glob(o.kind)
    } else if watch_match(o, path) {
        OutputMatch::Watch(o.kind)
    } else {
        OutputMatch::NoMatch
    }
}

impl<F> Output<F> {
    pub fn is_glob_match(&self, path: &str) -> (r: bool)
        ensures
            r == primary_match(*self, path@),
    {
        self.glob.is_match(path)
    }

    pub fn is_watch_match(&self, path: &str) -> (r: bool)
        ensures
            r == watch_match(*self, path@),
    {
        let n = self.watch_set.len();
        let mut i: usize = 0;
        while i < n
            invariant
                n == self.watch_set@.len(),
                i <= n,
                forall|j: int| 0 <= j < i ==> !glob_match(#[trigger] self.watch_set@[j]@, path@),
            decreases n - i,
        {
            if self.watch_set[i].is_match(path) {
                return true;
            }
            i = i + 1;
        }
        false
    }

    pub fn match_kind(&self, path: &str) -> (r: OutputMatch)
        ensures
            r == match_kind_of(*self, path@),
    {
        if self.is_glob_match(path) {
            OutputMatch::Glob(self.kind)
        } else if self.is_watch_match(path) {
            OutputMatch::Watch(self.kind)
        } else {
            OutputMatch::NoMatch
        }
    }
}

/// The rule that decides what happens to a path.
#[derive(Debug, Clone, Copy, PartialEq, Eq, Structural)]
pub enum Selection {
    /// The rule at this index selects the path as a source of output.
    Primary(usize, OutputKind),
    /// No rule selects the path; the rule at this index watches it, so a
    /// change to it invalidates that rule's outputs.
    Watch(usize, OutputKind),
    NoMatch,
}

impl Selection {
    /// Whether the path itself becomes output.
    pub fn produces_output(&self) -> (r: bool)
        ensures
            r == (self is Primary),
    {
        matches!(self, Selection::Primary(..))
    }
}

/// `i` is the first rule whose primary glob selects `path`.
pub open spec fn is_first_primary<F>(rules: Seq<Output<F>>, path: Seq<char>, i: int) -> bool {
    0 <= i < rules.len() && primary_match(rules[i], path) && forall|j: int|
        0 <= j < i ==> !primary_match(#[trigger] rules[j], path)
}

/// `i` is the first rule that watches `path`.
pub open spec fn is_first_watch<F>(rules: Seq<Output<F>>, path: Seq<char>, i: int) -> bool {
    0 <= i < rules.len() && watch_match(rules[i], path) && forall|j: int|
        0 <= j < i ==> !watch_match(#[trigger] rules[j], path)
}

/// What the rules decide for `path`: the first rule in declaration order
/// whose primary glob selects it; failing that, the first rule that watches
/// it; failing that, nothing.
pub open spec fn selection_of<F>(rules: Seq<Output<F>>, path: Seq<char>, s: Selection) -> bool {
    match s {
        Selection::Primary(i, k) => is_first_primary(rules, path, i as int) && k
            == rules[i as int].kind,
        Selection::Watch(i, k) => (forall|j: int|
            0 <= j < rules.len() ==> !primary_match(#[trigger] rules[j], path))
            && is_first_watch(rules, path, i as int) && k == rules[i as int].kind,
        Selection::NoMatch => forall|j: int|
            0 <= j < rules.len() ==> !primary_match(#[trigger] rules[j], path) && !watch_match(
                rules[j],
                path,
            ),
    }
}

/// Picks the rule that decides what happens to `path`.
pub fn select_output<F>(rules: &Vec<Output<F>>, path: &str) -> (r: Selection)
    ensures
        selection_of(rules@, path@, r),
{
    let n = rules.len();
    let mut i: usize = 0;
    while i < n
        invariant
            n == rules@.len(),
            i <= n,
            forall|j: int| 0 <= j < i ==> !primary_match(#[trigger] rules@[j], path@),
        decreases n - i,
    {
        if rules[i].is_glob_match(path) {
            return Selection::Primary(i, rules[i].kind);
        }
        i = i + 1;
    }
    let mut i: usize = 0;
    while i < n
        invariant
            n == rules@.len(),
            i <= n,
            forall|j: int| 0 <= j < n ==> !primary_match(#[trigger] rules@[j], path@),
            forall|j: int| 0 <= j < i ==> !watch_match(#[trigger] rules@[j], path@),
        decreases n - i,
    {
        if rules[i].is_watch_match(path) {
            return Selection::Watch(i, rules[i].kind);
        }
        i = i + 1;
    }
    Selection::NoMatch
}

/// Why a rule could not be declared.
#[derive(Debug, Clone, Copy, PartialEq, Eq, Structural)]
pub enum OutputError {
    InvalidGlob,
    MissingFilter,
    MissingOutput,
}

/// A rule under construction.
pub struct OutputBuilder<F> {
    pub kind: OutputKind,
    pub glob: GlobPattern,
    pub watch_set: Vec<GlobPattern>,
    pub out_pattern: Option<String>,
    pub output: Option<String>,
    pub filter_fn: Option<F>,
}

impl<F> OutputBuilder<F> {
    /// A builder of `kind` for the primary glob `glob`.
    pub fn new(kind: OutputKind, glob: &str) -> (r: Result<OutputBuilder<F>, OutputError>)
        ensures
            r is Ok <==> glob_ok(glob@),
            r is Err ==> r == Err::<OutputBuilder<F>, OutputError>(OutputError::InvalidGlob),
            r matches Ok(b) ==> b.kind == kind && b.glob@ == glob@ && b.watch_set@.len() == 0
                && b.out_pattern is None && b.output is None && b.filter_fn is None,
    {
        match GlobPattern::new(glob) {
            Some(g) => Ok(
                OutputBuilder {
                    kind,
                    glob: g,
                    watch_set: Vec::new(),
                    out_pattern: None,
                    output: None,
                    filter_fn: None,
                },
            ),
            None => Err(OutputError::InvalidGlob),
        }
    }

    /// Adds a watch glob.
    pub fn watch(self, glob: &str) -> (r: Result<OutputBuilder<F>, OutputError>)
        ensures
            r is Ok <==> glob_ok(glob@),
            r is Err ==> r == Err::<OutputBuilder<F>, OutputError>(OutputError::InvalidGlob),
            r matches Ok(b) ==> b.kind == self.kind && b.glob == self.glob && b.out_pattern
                == self.out_pattern && b.output == self.output && b.filter_fn == self.filter_fn
                && b.watch_set@.len() == self.watch_set@.len() + 1 && b.watch_set@.drop_last()
                == self.watch_set@ && b.watch_set@.last()@ == glob@,
    {
        match GlobPattern::new(glob) {
            Some(g) => {
                let mut b = self;
                b.watch_set.push(g);
                Ok(b)
            },
            None => Err(OutputError::InvalidGlob),
        }
    }

    /// Sets the filter callback of a template rule.
    pub fn filter(self, f: F) -> (r: OutputBuilder<F>)
        ensures
            r.kind == self.kind && r.glob == self.glob && r.watch_set == self.watch_set
                && r.out_pattern == self.out_pattern && r.output == self.output && r.filter_fn
                == Some(f),
    {
        let mut b = self;
        b.filter_fn = Some(f);
        b
    }

    /// Sets the output-path pattern of a template rule.
    pub fn pattern(self, pattern: String) -> (r: OutputBuilder<F>)
        ensures
            r.kind == self.kind && r.glob == self.glob && r.watch_set == self.watch_set
                && r.out_pattern == Some(pattern) && r.output == self.output && r.filter_fn
                == self.filter_fn,
    {
        let mut b = self;
        b.out_pattern = Some(pattern);
        b
    }

    /// Sets the fixed output path of a file rule.
    pub fn output(self, path: String) -> (r: OutputBuilder<F>)
        ensures
            r.kind == self.kind && r.glob == self.glob && r.watch_set == self.watch_set
                && r.out_pattern == self.out_pattern && r.output == Some(path) && r.filter_fn
                == self.filter_fn,
    {
        let mut b = self;
        b.output = Some(path);
        b
    }

    /// The rule: a template rule needs a filter callback, a file rule an
    /// output path.
    pub fn build(self) -> (r: Result<Output<F>, OutputError>)
        ensures
            self.kind == OutputKind::Template && self.filter_fn is None ==> r == Err::<
                Output<F>,
                OutputError,
            >(OutputError::MissingFilter),
            self.kind == OutputKind::File && self.output is None ==> r == Err::<
                Output<F>,
                OutputError,
            >(OutputError::MissingOutput),
            !(self.kind == OutputKind::Template && self.filter_fn is None) && !(self.kind
                == OutputKind::File && self.output is None) ==> r == Ok::<Output<F>, OutputError>(
                Output {
                    kind: self.kind,
                    glob: self.glob,
                    watch_set: self.watch_set,
                    out_pattern: self.out_pattern,
                    output: self.output,
                    filter_fn: self.filter_fn,
                },
            ),
    {
        if matches!(self.kind, OutputKind::Template) && self.filter_fn.is_none() {
            return Err(OutputError::MissingFilter);
        }
        if matches!(self.kind, OutputKind::File) && self.output.is_none() {
            return Err(OutputError::MissingOutput);
        }
        Ok(
            Output {
                kind: self.kind,
                glob: self.glob,
                watch_set: self.watch_set,
                out_pattern: self.out_pattern,
                output: self.output,
                filter_fn: self.filter_fn,
            },
        )
    }
}

/// A rule that copies the files it selects into the output tree.
pub fn public_file<F>(glob: &str) -> (r: Result<OutputBuilder<F>, OutputError>)
    ensures
        r is Ok <==> glob_ok(glob@),
        r matches Ok(b) ==> b.kind == OutputKind::PublicFile && b.glob@ == glob@
            && b.watch_set@.len() == 0 && b.filter_fn is None && b.output is None,
{
    OutputBuilder::new(OutputKind::PublicFile, glob)
}

/// A rule that maps one source to one fixed output path.
pub fn file_output<F>(glob: &str) -> (r: Result<OutputBuilder<F>, OutputError>)
    ensures
        r is Ok <==> glob_ok(glob@),
        r matches Ok(b) ==> b.kind == OutputKind::File && b.glob@ == glob@
            && b.watch_set@.len() == 0 && b.filter_fn is None && b.output is None,
{
    OutputBuilder::new(OutputKind::File, glob)
}

/// A rule that renders a page for each item its filter callback yields;
/// the output pattern starts as `{slug}.html`.
pub fn template<F>(glob: &str) -> (r: Result<OutputBuilder<F>, OutputError>)
    ensures
        r is Ok <==> glob_ok(glob@),
        r matches Ok(b) ==> b.kind == OutputKind::Template && b.glob@ == glob@
            && b.watch_set@.len() == 0 && b.filter_fn is None && b.output is None
            && opt_view(b.out_pattern) == Some("{slug}.html"@),
{
    match OutputBuilder::new(OutputKind::Template, glob) {
        Ok(b) => Ok(b.pattern("{slug}.html".to_string())),
        Err(e) => Err(e),
    }
}

/// A rule for stylesheets and scripts.
pub fn asset<F>(glob: &str) -> (r: Result<OutputBuilder<F>, OutputError>)
    ensures
        r is Ok <==> glob_ok(glob@),
        r matches Ok(b) ==> b.kind == OutputKind::Asset && b.glob@ == glob@
            && b.watch_set@.len() == 0 && b.filter_fn is None && b.output is None,
{
    OutputBuilder::new(OutputKind::Asset, glob)
}

/// The placeholder that an output pattern holds for an item's slug.
pub open spec fn placeholder() -> Seq<char> {
    "{slug}"@
}

/// Whether the placeholder starts at `p` in `s`.
pub open spec fn placeholder_at(s: Seq<char>, p: int) -> bool {
    0 <= p && p + 6 <= s.len() && s.subrange(p, p + 6) == seq!['{', 's', 'l', 'u', 'g', '}']
}

/// The rest of `pattern` from `p` on, with each placeholder replaced by
/// `slug`.
pub open spec fn expand_from(pattern: Seq<char>, slug: Seq<char>, p: int) -> Seq<char>
    decreases pattern.len() - p,
{
    if p < 0 || p >= pattern.len() {
        Seq::empty()
    } else if placeholder_at(pattern, p) {
        slug + expand_from(pattern, slug, p + 6)
    } else {
        seq![pattern[p]] + expand_from(pattern, slug, p + 1)
    }
}

/// `pattern` with each `{slug}` replaced by `slug`, scanning left to right.
pub open spec fn expand_of(pattern: Seq<char>, slug: Seq<char>) -> Seq<char> {
    expand_from(pattern, slug, 0)
}

/// The output path that a template rule's pattern gives for an item.
pub fn expand_pattern(pattern: &str, slug: &str) -> (r: String)
    ensures
        r@ == expand_of(pattern@, slug@),
{
    let n = pattern.unicode_len();
    let mut r = String::new();
    let mut p: usize = 0;
    while p < n
        invariant
            n == pattern@.len(),
            p <= n,
            r@ + expand_from(pattern@, slug@, p as int) == expand_of(pattern@, slug@),
        decreases n - p,
    {
        let at = n >= 6 && p <= n - 6 && pattern.get_char(p) == '{' && pattern.get_char(p + 1)
            == 's' && pattern.get_char(p + 2) == 'l' && pattern.get_char(p + 3) == 'u'
            && pattern.get_char(p + 4) == 'g' && pattern.get_char(p + 5) == '}';
        proof {
            if p + 6 <= n {
                let w = pattern@.subrange(p as int, p + 6);
                if at {
                    assert(w =~= seq!['{', 's', 'l', 'u', 'g', '}']);
                }
                if placeholder_at(pattern@, p as int) {
                    assert(w[0] == pattern@[p as int]);
                    assert(w[1] == pattern@[p + 1]);
                    assert(w[2] == pattern@[p + 2]);
                    assert(w[3] == pattern@[p + 3]);
                    assert(w[4] == pattern@[p + 4]);
                    assert(w[5] == pattern@[p + 5]);
                }
            }
            assert(at == placeholder_at(pattern@, p as int));
        }
        if at {
            let ghost before = r@;
            r.append(slug);
            assert(before + expand_from(pattern@, slug@, p as int) == before + (slug@
                + expand_from(pattern@, slug@, p + 6)));
            assert(before + (slug@ + expand_from(pattern@, slug@, p + 6)) == r@ + expand_from(
                pattern@, slug@, p + 6));
            p = p + 6;
        } else {
            let ghost before = r@;
            let one = pattern.substring_char(p, p + 1);
            assert(one@ =~= seq![pattern@[p as int]]);
            r.append(one);
            assert(before + expand_from(pattern@, slug@, p as int) == before + (one@
                + expand_from(pattern@, slug@, p + 1)));
            assert(before + (one@ + expand_from(pattern@, slug@, p + 1)) == r@ + expand_from(
                pattern@, slug@, p + 1));
            p = p + 1;
        }
    }
    assert(r@ + expand_from(pattern@, slug@, p as int) == r@ + Seq::<char>::empty());
    assert(r@ + Seq::<char>::empty() == r@);
    r
}

/// The order of the rules decides, not how specific their globs are: when
/// the first two rules both select a path, the first one's action is taken.
pub proof fn lemma_first_rule_wins<F>(rules: Seq<Output<F>>, path: Seq<char>, s: Selection)
    requires
        rules.len() >= 2,
        primary_match(rules[0], path),
        primary_match(rules[1], path),
        selection_of(rules, path, s),
    ensures
        s == Selection::Primary(0, rules[0].kind),
{
    match s {
        Selection::Primary(i, k) => {
            if i > 0 {
                assert(!primary_match(rules[0], path));
            }
        },
        Selection::Watch(i, k) => {
            assert(!primary_match(rules[0], path));
        },
        Selection::NoMatch => {
            assert(!primary_match(rules[0], path));
        },
    }
}

/// A path that only a watch glob selects never becomes output itself; it
/// marks the watching rule's outputs as stale.
pub proof fn lemma_watch_only_produces_nothing<F>(
    rules: Seq<Output<F>>,
    path: Seq<char>,
    s: Selection,
)
    requires
        forall|j: int| 0 <= j < rules.len() ==> !primary_match(#[trigger] rules[j], path),
        exists|j: int| 0 <= j < rules.len() && watch_match(#[trigger] rules[j], path),
        selection_of(rules, path, s),
    ensures
        !(s is Primary),
        s is Watch,
        s matches Selection::Watch(i, k) && watch_match(rules[i as int], path) && k
            == rules[i as int].kind,
{
    match s {
        Selection::Primary(i, k) => {
            assert(!primary_match(rules[i as int], path));
        },
        Selection::Watch(i, k) => {},
        Selection::NoMatch => {
            let j = choose|j: int| 0 <= j < rules.len() && watch_match(#[trigger] rules[j], path);
            assert(!watch_match(rules[j], path));
        },
    }
}

/// The output pattern of a rule: its own, else `{slug}.html`.
pub open spec fn pattern_of<F>(o: Output<F>) -> Seq<char> {
    match o.out_pattern {
        Some(p) => p@,
        None => "{slug}.html"@,
    }
}

impl<F> Output<F> {
    /// The output paths of a template rule for the slugs that its filter
    /// callback yielded, in order.
    pub fn expand_all(&self, slugs: &Vec<String>) -> (r: Vec<String>)
        ensures
            r@.len() == slugs@.len(),
            forall|i: int|
                0 <= i < slugs@.len() ==> (#[trigger] r@[i])@ == expand_of(pattern_of(*self), slugs@[i]@),
    {
        let pattern = match &self.out_pattern {
            Some(p) => p.as_str(),
            None => "{slug}.html",
        };
        let mut r: Vec<String> = Vec::new();
        let mut i: usize = 0;
        while i < slugs.len()
            invariant
                i <= slugs@.len(),
                r@.len() == i,
                pattern@ == pattern_of(*self),
                forall|j: int|
                    0 <= j < i ==> (#[trigger] r@[j])@ == expand_of(pattern_of(*self), slugs@[j]@),
            decreases slugs@.len() - i,
        {
            r.push(expand_pattern(pattern, slugs[i].as_str()));
            i = i + 1;
        }
        r
    }
}

/// The rules decide one selection for a path.
pub proof fn lemma_selection_unique<F>(rules: Seq<Output<F>>, path: Seq<char>, s1: Selection, s2: Selection)
    requires
        selection_of(rules, path, s1),
        selection_of(rules, path, s2),
    ensures
        s1 == s2,
{
    match (s1, s2) {
        (Selection::Primary(i, _), Selection::Primary(j, _)) => {
            if i < j {
                assert(!primary_match(rules[i as int], path));
            } else if j < i {
                assert(!primary_match(rules[j as int], path));
            }
        },
        (Selection::Watch(i, _), Selection::Watch(j, _)) => {
            if i < j {
                assert(!watch_match(rules[i as int], path));
            } else if j < i {
                assert(!watch_match(rules[j as int], path));
            }
        },
        (Selection::Primary(i, _), _) => {
            assert(!primary_match(rules[i as int], path));
        },
        (_, Selection::Primary(j, _)) => {
            assert(!primary_match(rules[j as int], path));
        },
        (Selection::Watch(i, _), Selection::NoMatch) => {
            assert(!watch_match(rules[i as int], path));
        },
        (Selection::NoMatch, Selection::Watch(j, _)) => {
            assert(!watch_match(rules[j as int], path));
        },
        (Selection::NoMatch, Selection::NoMatch) => {},
    }
}

} // verus!
