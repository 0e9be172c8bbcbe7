//! The decisions of the live-reload loop: which file-system events count,
//! which area of the project a changed path belongs to, and which area
//! handlers a debounced batch of changes runs.
use vstd::prelude::*;

use crate::output::{is_first_watch, lemma_selection_unique, select_output, selection_of, Output, Selection};
use crate::paths::Paths;
use crate::pathname::{strip_prefix, strip_prefix_of};

verus! {

/// The kind of a file-system event, as the watcher reports it.
#[derive(Debug, Clone, Copy, PartialEq, Eq, Structural)]
pub enum ChangeKind {
    Create,
    ModifyData,
    ModifyName,
    ModifyOther,
    Remove,
    Access,
    Other,
}

/// Creations, writes, renames and removals change the site; other events
/// do not.
pub open spec fn is_relevant_spec(kind: ChangeKind) -> bool {
    kind == ChangeKind::Create || kind == ChangeKind::ModifyData || kind
        == ChangeKind::ModifyName || kind == ChangeKind::Remove
}

pub fn is_relevant(kind: ChangeKind) -> (r: bool)
    ensures
        r == is_relevant_spec(kind),
{
    matches!(kind, ChangeKind::Create | ChangeKind::ModifyData | ChangeKind::ModifyName | ChangeKind::Remove)
}

/// Some path of `paths` that is not ignored has the characters `s`.
pub open spec fn counts(paths: Seq<String>, ignored: Seq<bool>, s: Seq<char>) -> bool {
    exists|j: int| 0 <= j < paths.len() && !ignored[j] && (#[trigger] paths[j])@ == s
}

/// Some string of `r` has the characters `s`.
pub open spec fn listed_in(r: Seq<String>, s: Seq<char>) -> bool {
    exists|i: int| 0 <= i < r.len() && (#[trigger] r[i])@ == s
}

/// The changed paths of an event that count, each once: `r` holds exactly
/// the paths of `paths` whose flag in `ignored` is off, without repeats.
pub open spec fn unignored_set(paths: Seq<String>, ignored: Seq<bool>, r: Seq<String>) -> bool {
    &&& forall|i: int, j: int| 0 <= i < j < r.len() ==> r[i]@ != r[j]@
    &&& forall|i: int| 0 <= i < r.len() ==> counts(paths, ignored, (#[trigger] r[i])@)
    &&& forall|j: int|
        0 <= j < paths.len() && !ignored[j] ==> listed_in(r, (#[trigger] paths[j])@)
}

/// Whether `s` holds a string with the characters of `p`.
fn holds(s: &Vec<String>, p: &str) -> (r: bool)
    ensures
        r == exists|i: int| 0 <= i < s@.len() && (#[trigger] s@[i])@ == p@,
{
    let mut k: usize = 0;
    while k < s.len()
        invariant
            k <= s@.len(),
            forall|i: int| 0 <= i < k ==> (#[trigger] s@[i])@ != p@,
        decreases s@.len() - k,
    {
        if crate::pathname::str_eq(s[k].as_str(), p) {
            return true;
        }
        k = k + 1;
    }
    false
}

/// The changed paths of an event that count, each once, in order of first
/// appearance: none for an event of another kind, else those the ignore
/// rules do not exclude (`ignored[i]` says whether they exclude `paths[i]`).
pub fn filter_event(kind: ChangeKind, paths: &Vec<String>, ignored: &Vec<bool>) -> (r: Vec<String>)
    requires
        paths@.len() == ignored@.len(),
    ensures
        !is_relevant_spec(kind) ==> r@.len() == 0,
        is_relevant_spec(kind) ==> unignored_set(paths@, ignored@, r@),
{
    let mut r: Vec<String> = Vec::new();
    if !is_relevant(kind) {
        return r;
    }
    let n = paths.len();
    let mut i: usize = 0;
    while i < n
        invariant
            n == paths@.len(),
            n == ignored@.len(),
            i <= n,
            unignored_set(paths@.subrange(0, i as int), ignored@.subrange(0, i as int), r@),
        decreases n - i,
    {
        let ghost before = r@;
        let ghost pre = paths@.subrange(0, i as int);
        let ghost ign = ignored@.subrange(0, i as int);
        let ghost post = paths@.subrange(0, i + 1);
        let ghost ign2 = ignored@.subrange(0, i + 1);
        if !ignored[i] && !holds(&r, paths[i].as_str()) {
            r.push(paths[i].clone());
        }
        proof {
            assert forall|a: int, b: int| 0 <= a < b < r@.len() implies r@[a]@ != r@[b]@ by {
                if b == before.len() {
                    assert(r@[a] == before[a]);
                }
            }
            assert forall|a: int| 0 <= a < r@.len() implies counts(post, ign2, (#[trigger] r@[a])@) by {
                if a < before.len() {
                    assert(counts(pre, ign, before[a]@));
                    let j = choose|j: int| 0 <= j < pre.len() && !ign[j] && (#[trigger] pre[j])@ == before[a]@;
                    assert(post[j] == pre[j]);
                } else {
                    assert(post[i as int] == paths@[i as int]);
                }
            }
            assert forall|j: int| 0 <= j < post.len() && !ign2[j] implies listed_in(r@, (#[trigger] post[j])@) by {
                if j < i {
                    assert(post[j] == pre[j]);
                    assert(listed_in(before, pre[j]@));
                    let a = choose|a: int| 0 <= a < before.len() && (#[trigger] before[a])@ == pre[j]@;
                    assert(r@[a] == before[a]);
                } else {
                    if listed_in(before, paths@[i as int]@) {
                        let a = choose|a: int| 0 <= a < before.len() && (#[trigger] before[a])@ == paths@[i as int]@;
                        assert(r@[a] == before[a]);
                    } else {
                        assert(r@[before.len() as int] == paths@[i as int]);
                    }
                }
            }
        }
        i = i + 1;
    }
    assert(paths@.subrange(0, n as int) == paths@);
    assert(ignored@.subrange(0, n as int) == ignored@);
    r
}

/// The part of a project that a changed path belongs to; each has its own
/// rebuild handler.
#[derive(Debug, Clone, Copy, PartialEq, Eq, Structural)]
pub enum Area {
    Styles,
    Scripts,
    Content,
    Templates,
    Public,
    Other,
}

/// The area of `path`: the first of the stylesheet, script, content,
/// template and public directories that it lies in.
pub open spec fn area_of(cfg: Paths, path: Seq<char>) -> Area {
    if strip_prefix_of(path, cfg.css@) is Some {
        Area::Styles
    } else if strip_prefix_of(path, cfg.js@) is Some {
        Area::Scripts
    } else if strip_prefix_of(path, cfg.content@) is Some {
        Area::Content
    } else if strip_prefix_of(path, cfg.templates@) is Some {
        Area::Templates
    } else if strip_prefix_of(path, cfg.public@) is Some {
        Area::Public
    } else {
        Area::Other
    }
}

pub fn classify(cfg: &Paths, path: &str) -> (r: Area)
    ensures
        r == area_of(*cfg, path@),
{
    if strip_prefix(path, cfg.css.as_str()).is_some() {
        Area::Styles
    } else if strip_prefix(path, cfg.js.as_str()).is_some() {
        Area::Scripts
    } else if strip_prefix(path, cfg.content.as_str()).is_some() {
        Area::Content
    } else if strip_prefix(path, cfg.templates.as_str()).is_some() {
        Area::Templates
    } else if strip_prefix(path, cfg.public.as_str()).is_some() {
        Area::Public
    } else {
        Area::Other
    }
}

/// A list of areas that holds each one at most once.
pub open spec fn distinct(s: Seq<Area>) -> bool {
    forall|i: int, j: int| 0 <= i < j < s.len() ==> s[i] != s[j]
}

/// The handlers a batch of changed paths runs: each area that one of the
/// paths lies in, once, in order of first appearance.
pub open spec fn rebuilds_ok(cfg: Paths, changed: Seq<String>, r: Seq<Area>) -> bool {
    &&& distinct(r)
    &&& forall|a: Area|
        r.contains(a) <==> (a != Area::Other && exists|i: int|
            0 <= i < changed.len() && area_of(cfg, (#[trigger] changed[i])@) == a)
}

/// The area handlers to run for one debounced batch of changed paths.
pub fn plan_rebuilds(cfg: &Paths, changed: &Vec<String>) -> (r: Vec<Area>)
    ensures
        rebuilds_ok(*cfg, changed@, r@),
{
    let mut r: Vec<Area> = Vec::new();
    let n = changed.len();
    let mut i: usize = 0;
    while i < n
        invariant
            n == changed@.len(),
            i <= n,
            distinct(r@),
            forall|a: Area|
                r@.contains(a) <==> (a != Area::Other && exists|j: int|
                    0 <= j < i && area_of(*cfg, (#[trigger] changed@[j])@) == a),
        decreases n - i,
    {
        let a = classify(cfg, changed[i].as_str());
        let mut seen = false;
        let mut k: usize = 0;
        while k < r.len()
            invariant
                k <= r@.len(),
                seen == exists|j: int| 0 <= j < k && r@[j] == a,
            decreases r@.len() - k,
        {
            if r[k] == a {
                seen = true;
            }
            k = k + 1;
        }
        let ghost before = r@;
        if !seen && a != Area::Other {
            r.push(a);
        }
        proof {
            assert forall|b: Area|
                r@.contains(b) <==> (b != Area::Other && exists|j: int|
                    0 <= j < i + 1 && area_of(*cfg, (#[trigger] changed@[j])@) == b) by {
                if r@.contains(b) {
                    let x = choose|x: int| 0 <= x < r@.len() && r@[x] == b;
                    if x < before.len() {
                        assert(before.contains(b));
                    } else {
                        assert(area_of(*cfg, changed@[i as int]@) == b);
                    }
                }
                if b != Area::Other && exists|j: int|
                    0 <= j < i + 1 && area_of(*cfg, (#[trigger] changed@[j])@) == b {
                    let j = choose|j: int|
                        0 <= j < i + 1 && area_of(*cfg, (#[trigger] changed@[j])@) == b;
                    if j < i {
                        assert(before.contains(b));
                        let x = choose|x: int| 0 <= x < before.len() && before[x] == b;
                        assert(r@[x] == b);
                    } else if seen {
                        let x = choose|x: int| 0 <= x < k && r@[x] == a;
                        assert(r@[x] == b);
                    } else {
                        assert(r@[r@.len() - 1] == b);
                    }
                }
            }
        }
        i = i + 1;
    }
    r
}

/// Saves that come in one debounced batch and all touch one area, such as
/// several saves of the same template, run that area's handler once.
pub proof fn lemma_one_area_one_rebuild(cfg: Paths, changed: Seq<String>, r: Seq<Area>, a: Area)
    requires
        changed.len() > 0,
        a != Area::Other,
        forall|i: int| 0 <= i < changed.len() ==> area_of(cfg, (#[trigger] changed[i])@) == a,
        rebuilds_ok(cfg, changed, r),
    ensures
        r == seq![a],
{
    assert(area_of(cfg, changed[0]@) == a);
    assert(r.contains(a));
    assert forall|x: int| 0 <= x < r.len() implies r[x] == a by {
        assert(r.contains(r[x]));
    }
    let x = choose|x: int| 0 <= x < r.len() && r[x] == a;
    if r.len() > 1 {
        assert(r[0] == a && r[1] == a);
    }
    assert(r =~= seq![a]);
}

/// Some changed path is selected only by the watch globs of rule `k`.
pub open spec fn watched_by<F>(rules: Seq<Output<F>>, changed: Seq<String>, k: usize) -> bool {
    exists|i: int|
        0 <= i < changed.len() && selection_of(
            rules,
            (#[trigger] changed[i])@,
            Selection::Watch(k, rules[k as int].kind),
        )
}

/// The rules whose outputs a batch of changes makes stale through their
/// watch globs, each once, in order of first appearance: a changed path
/// that no primary glob selects triggers the first rule watching it.
pub fn watch_triggers<F>(rules: &Vec<Output<F>>, changed: &Vec<String>) -> (r: Vec<usize>)
    ensures
        forall|a: int, b: int| 0 <= a < b < r@.len() ==> r@[a] != r@[b],
        forall|a: int| 0 <= a < r@.len() ==> r@[a] < rules@.len(),
        forall|k: usize| k < rules@.len() ==> (r@.contains(k) <==> watched_by(rules@, changed@, k)),
{
    let mut r: Vec<usize> = Vec::new();
    let n = changed.len();
    let mut i: usize = 0;
    while i < n
        invariant
            n == changed@.len(),
            i <= n,
            forall|a: int, b: int| 0 <= a < b < r@.len() ==> r@[a] != r@[b],
            forall|a: int| 0 <= a < r@.len() ==> r@[a] < rules@.len(),
            forall|k: usize|
                k < rules@.len() ==> (r@.contains(k) <==> watched_by(
                    rules@,
                    changed@.subrange(0, i as int),
                    k,
                )),
        decreases n - i,
    {
        let s = select_output(rules, changed[i].as_str());
        let ghost before = r@;
        let ghost pre = changed@.subrange(0, i as int);
        let ghost post = changed@.subrange(0, i + 1);
        assert(post[i as int] == changed@[i as int]);
        assert forall|x: int| 0 <= x < i implies post[x] == pre[x] by {}
        if let Selection::Watch(k, _) = s {
            let mut seen = false;
            let mut j: usize = 0;
            while j < r.len()
                invariant
                    j <= r@.len(),
                    seen == exists|x: int| 0 <= x < j && r@[x] == k,
                decreases r@.len() - j,
            {
                if r[j] == k {
                    seen = true;
                }
                j = j + 1;
            }
            if !seen {
                r.push(k);
            }
            proof {
                assert(selection_of(rules@, post[i as int]@, Selection::Watch(k, rules@[k as int].kind)));
                assert(watched_by(rules@, post, k));
                assert(r@.contains(k)) by {
                    if seen {
                        let x = choose|x: int| 0 <= x < before.len() && before[x] == k;
                        assert(r@[x] == k);
                    } else {
                        assert(r@[r@.len() - 1] == k);
                    }
                }
            }
        }
        proof {
            assert forall|q: usize| q < rules@.len() implies (r@.contains(q) <==> watched_by(rules@, post, q)) by {
                if watched_by(rules@, pre, q) {
                    let x = choose|x: int| 0 <= x < pre.len() && selection_of(rules@, (#[trigger] pre[x])@, Selection::Watch(q, rules@[q as int].kind));
                    assert(post[x] == pre[x]);
                    assert(before.contains(q));
                    let y = choose|y: int| 0 <= y < before.len() && before[y] == q;
                    assert(r@[y] == q);
                }
                if watched_by(rules@, post, q) && !watched_by(rules@, pre, q) {
                    let x = choose|x: int| 0 <= x < post.len() && selection_of(rules@, (#[trigger] post[x])@, Selection::Watch(q, rules@[q as int].kind));
                    if x < i {
                        assert(post[x] == pre[x]);
                    } else {
                        lemma_selection_unique(rules@, changed@[i as int]@, s, Selection::Watch(q, rules@[q as int].kind));
                    }
                }
                if r@.contains(q) {
                    let y = choose|y: int| 0 <= y < r@.len() && r@[y] == q;
                    if y < before.len() {
                        assert(before[y] == q);
                        assert(before.contains(q));
                    }
                }
            }
        }
        i = i + 1;
    }
    assert(changed@.subrange(0, n as int) == changed@);
    r
}

/// A changed path that only watch globs select triggers the first rule
/// watching it, and produces no output of its own.
pub proof fn lemma_watch_only_triggers_rule<F>(
    rules: Seq<Output<F>>,
    changed: Seq<String>,
    i: int,
    k: usize,
    r: Seq<usize>,
)
    requires
        0 <= i < changed.len(),
        forall|j: int| 0 <= j < rules.len() ==> !crate::output::primary_match(#[trigger] rules[j], changed[i]@),
        is_first_watch(rules, changed[i]@, k as int),
        forall|q: usize| q < rules.len() ==> (r.contains(q) <==> watched_by(rules, changed, q)),
    ensures
        r.contains(k),
{
    assert(selection_of(rules, changed[i]@, Selection::Watch(k, rules[k as int].kind)));
    assert(watched_by(rules, changed, k));
}

} // verus!
