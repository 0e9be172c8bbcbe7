//! The library's model of a path: a relative or absolute, `/`-separated
//! string without trailing separators. Every path operation the build needs
//! is stated over the characters of the path.
use vstd::prelude::*;

verus! {

/// Index of the last `/` in `s`, or -1 when there is none.
pub open spec fn last_sep(s: Seq<char>) -> int
    decreases s.len(),
{
    if s.len() == 0 {
        -1
    } else if s.last() == '/' {
        s.len() - 1
    } else {
        last_sep(s.drop_last())
    }
}

/// Index of the last `.` in `s`, or -1 when there is none.
pub open spec fn last_dot(s: Seq<char>) -> int
    decreases s.len(),
{
    if s.len() == 0 {
        -1
    } else if s.last() == '.' {
        s.len() - 1
    } else {
        last_dot(s.drop_last())
    }
}

pub proof fn lemma_last_sep_bounds(s: Seq<char>)
    ensures
        -1 <= last_sep(s) < s.len(),
        last_sep(s) >= 0 ==> s[last_sep(s)] == '/',
        forall|i: int| last_sep(s) < i < s.len() ==> s[i] != '/',
    decreases s.len(),
{
    if s.len() > 0 && s.last() != '/' {
        lemma_last_sep_bounds(s.drop_last());
        assert forall|i: int| last_sep(s) < i < s.len() implies s[i] != '/' by {
            if i < s.len() - 1 {
                assert(s[i] == s.drop_last()[i]);
            }
        }
    }
}

pub proof fn lemma_last_dot_bounds(s: Seq<char>)
    ensures
        -1 <= last_dot(s) < s.len(),
        last_dot(s) >= 0 ==> s[last_dot(s)] == '.',
        forall|i: int| last_dot(s) < i < s.len() ==> s[i] != '.',
    decreases s.len(),
{
    if s.len() > 0 && s.last() != '.' {
        lemma_last_dot_bounds(s.drop_last());
        assert forall|i: int| last_dot(s) < i < s.len() implies s[i] != '.' by {
            if i < s.len() - 1 {
                assert(s[i] == s.drop_last()[i]);
            }
        }
    }
}

/// The last component of a path: what follows the last `/`.
pub open spec fn name_of(p: Seq<char>) -> Seq<char> {
    p.subrange(last_sep(p) + 1, p.len() as int)
}

/// Everything before the last `/`; empty when there is no `/`.
pub open spec fn parent_of(p: Seq<char>) -> Seq<char> {
    if last_sep(p) < 0 {
        Seq::empty()
    } else {
        p.subrange(0, last_sep(p))
    }
}

/// The stem of a file name: up to its last `.`, unless that dot is the first
/// character (a hidden file) or there is none.
pub open spec fn stem_of(name: Seq<char>) -> Seq<char> {
    if last_dot(name) <= 0 {
        name
    } else {
        name.subrange(0, last_dot(name))
    }
}

/// The extension of a file name: what follows its last `.`, when the name has
/// a dot that is not its first character.
pub open spec fn ext_of(name: Seq<char>) -> Option<Seq<char>> {
    if last_dot(name) <= 0 {
        None
    } else {
        Some(name.subrange(last_dot(name) + 1, name.len() as int))
    }
}

/// The file name of a path, absent when the last component is empty.
pub open spec fn file_name_of(p: Seq<char>) -> Option<Seq<char>> {
    if name_of(p).len() == 0 {
        None
    } else {
        Some(name_of(p))
    }
}

/// `a` joined with `b`: `b` itself when it is absolute or `a` is empty,
/// else the two with one `/` between them.
pub open spec fn join_of(a: Seq<char>, b: Seq<char>) -> Seq<char> {
    if a.len() == 0 || (b.len() > 0 && b[0] == '/') {
        b
    } else if a.last() == '/' {
        a + b
    } else {
        a + seq!['/'] + b
    }
}

/// `p` relative to `root`, when `root` is a whole-component prefix of `p`.
pub open spec fn strip_prefix_of(p: Seq<char>, root: Seq<char>) -> Option<Seq<char>> {
    if root.len() == 0 {
        Some(p)
    } else if p == root {
        Some(Seq::empty())
    } else if root.last() == '/' && root.len() <= p.len() && p.subrange(0, root.len() as int) == root {
        Some(p.subrange(root.len() as int, p.len() as int))
    } else if root.len() < p.len() && p.subrange(0, root.len() as int) == root && p[root.len() as int] == '/' {
        Some(p.subrange(root.len() as int + 1, p.len() as int))
    } else {
        None
    }
}

/// Whether two strings hold the same characters.
pub fn str_eq(a: &str, b: &str) -> (r: bool)
    ensures
        r == (a@ == b@),
{
    let n = a.unicode_len();
    if n != b.unicode_len() {
        return false;
    }
    let mut i: usize = 0;
    while i < n
        invariant
            n == a@.len(),
            n == b@.len(),
            i <= n,
            a@.subrange(0, i as int) == b@.subrange(0, i as int),
        decreases n - i,
    {
        if a.get_char(i) != b.get_char(i) {
            return false;
        }
        assert(a@.subrange(0, i + 1) == a@.subrange(0, i as int).push(a@[i as int]));
        assert(b@.subrange(0, i + 1) == b@.subrange(0, i as int).push(b@[i as int]));
        i = i + 1;
    }
    assert(a@ == a@.subrange(0, n as int));
    assert(b@ == b@.subrange(0, n as int));
    true
}

/// An owned copy of `s`.
pub fn copy_str(s: &str) -> (r: String)
    ensures
        r@ == s@,
{
    s.to_string()
}

/// Position of the last occurrence of `c` in `s`, or `s`'s length when none.
fn find_last(s: &str, c: char) -> (r: usize)
    ensures
        r <= s@.len(),
        r < s@.len() ==> s@[r as int] == c,
        forall|i: int| r < i < s@.len() ==> s@[i] != c,
        r == s@.len() ==> forall|i: int| 0 <= i < s@.len() ==> s@[i] != c,
{
    let n = s.unicode_len();
    let mut i: usize = n;
    while i > 0
        invariant
            n == s@.len(),
            i <= n,
            forall|j: int| i <= j < n ==> s@[j] != c,
        decreases i,
    {
        if s.get_char(i - 1) == c {
            return i - 1;
        }
        i = i - 1;
    }
    n
}

proof fn lemma_last_sep_is(s: Seq<char>, k: int)
    requires
        -1 <= k < s.len(),
        k >= 0 ==> s[k] == '/',
        forall|i: int| k < i < s.len() ==> s[i] != '/',
    ensures
        last_sep(s) == k,
    decreases s.len(),
{
    if s.len() > 0 && s.last() != '/' {
        lemma_last_sep_is(s.drop_last(), k);
    }
}

proof fn lemma_last_dot_is(s: Seq<char>, k: int)
    requires
        -1 <= k < s.len(),
        k >= 0 ==> s[k] == '.',
        forall|i: int| k < i < s.len() ==> s[i] != '.',
    ensures
        last_dot(s) == k,
    decreases s.len(),
{
    if s.len() > 0 && s.last() != '.' {
        lemma_last_dot_is(s.drop_last(), k);
    }
}

/// Index of the last `/`, as `last_sep` states it.
pub fn last_separator(p: &str) -> (r: Option<usize>)
    ensures
        match r {
            Some(k) => last_sep(p@) == k as int && k < p@.len(),
            None => last_sep(p@) == -1,
        },
{
    let k = find_last(p, '/');
    if k == p.unicode_len() {
        proof { lemma_last_sep_is(p@, -1); }
        None
    } else {
        proof { lemma_last_sep_is(p@, k as int); }
        Some(k)
    }
}

/// The last component of `p`.
pub fn name(p: &str) -> (r: &str)
    ensures
        r@ == name_of(p@),
{
    let n = p.unicode_len();
    match last_separator(p) {
        Some(k) => p.substring_char(k + 1, n),
        None => p.substring_char(0, n),
    }
}

/// The file name of `p`, absent when its last component is empty.
pub fn file_name(p: &str) -> (r: Option<&str>)
    ensures
        match r {
            Some(s) => file_name_of(p@) == Some(s@),
            None => file_name_of(p@).is_none(),
        },
{
    let s = name(p);
    if s.unicode_len() == 0 {
        None
    } else {
        Some(s)
    }
}

/// The part of `p` before its last `/`.
pub fn parent(p: &str) -> (r: &str)
    ensures
        r@ == parent_of(p@),
{
    match last_separator(p) {
        Some(k) => p.substring_char(0, k),
        None => {
            proof { reveal_strlit(""); }
            ""
        },
    }
}

/// Index of the last `.` of a file name, when it is not the first character.
fn stem_end(name: &str) -> (r: Option<usize>)
    ensures
        match r {
            Some(k) => last_dot(name@) == k as int && 0 < k < name@.len(),
            None => last_dot(name@) <= 0,
        },
{
    let k = find_last(name, '.');
    if k == name.unicode_len() {
        proof { lemma_last_dot_is(name@, -1); }
        None
    } else {
        proof { lemma_last_dot_is(name@, k as int); }
        if k == 0 {
            None
        } else {
            Some(k)
        }
    }
}

/// The stem of a file name.
pub fn stem(name: &str) -> (r: &str)
    ensures
        r@ == stem_of(name@),
{
    let n = name.unicode_len();
    match stem_end(name) {
        Some(k) => name.substring_char(0, k),
        None => name.substring_char(0, n),
    }
}

/// The extension of a file name.
pub fn extension(name: &str) -> (r: Option<&str>)
    ensures
        match r {
            Some(e) => ext_of(name@) == Some(e@),
            None => ext_of(name@).is_none(),
        },
{
    let n = name.unicode_len();
    match stem_end(name) {
        Some(k) => {
            proof { lemma_last_dot_bounds(name@); }
            Some(name.substring_char(k + 1, n))
        },
        None => None,
    }
}

/// `a` joined with `b`.
pub fn join(a: &str, b: &str) -> (r: String)
    ensures
        r@ == join_of(a@, b@),
{
    let n = a.unicode_len();
    if n == 0 || (b.unicode_len() > 0 && b.get_char(0) == '/') {
        return b.to_string();
    }
    let mut r = a.to_string();
    if a.get_char(n - 1) != '/' {
        r.append("/");
        proof { reveal_strlit("/"); }
    }
    r.append(b);
    r
}

/// `p` relative to `root`, when `root` is a whole-component prefix of it.
pub fn strip_prefix<'a>(p: &'a str, root: &str) -> (r: Option<&'a str>)
    ensures
        match r {
            Some(s) => strip_prefix_of(p@, root@) == Some(s@),
            None => strip_prefix_of(p@, root@).is_none(),
        },
{
    let n = root.unicode_len();
    let m = p.unicode_len();
    if n == 0 {
        return Some(p.substring_char(0, m));
    }
    if str_eq(p, root) {
        return Some(p.substring_char(0, 0));
    }
    if root.get_char(n - 1) == '/' && n <= m && str_eq(p.substring_char(0, n), root) {
        return Some(p.substring_char(n, m));
    }
    if n < m && str_eq(p.substring_char(0, n), root) && p.get_char(n) == '/' {
        return Some(p.substring_char(n + 1, m));
    }
    None
}

} // verus!
