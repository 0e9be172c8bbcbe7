//! Helpers over paths and source text: directory of a file below a root,
//! the front-matter split, and content-addressed file names.
use vstd::prelude::*;

use crate::pathname::{
    ext_of, file_name_of, join, join_of, name_of, parent, parent_of,
    strip_prefix, strip_prefix_of, extension, file_name,
};

verus! {

/// The directory of `path` relative to `root`, absent when `path` is not
/// below `root` or lies directly in it.
pub open spec fn unprefixed_parent_of(path: Seq<char>, root: Seq<char>) -> Option<Seq<char>> {
    match strip_prefix_of(path, root) {
        Some(rel) => if parent_of(rel).len() == 0 {
            None
        } else {
            Some(parent_of(rel))
        },
        None => None,
    }
}

pub fn unprefixed_parent(path: &str, root: &str) -> (r: Option<String>)
    ensures
        match r {
            Some(s) => unprefixed_parent_of(path@, root@) == Some(s@),
            None => unprefixed_parent_of(path@, root@).is_none(),
        },
{
    match strip_prefix(path, root) {
        Some(rel) => {
            let dir = parent(rel);
            if dir.unicode_len() == 0 {
                None
            } else {
                Some(dir.to_string())
            }
        },
        None => None,
    }
}

/// The characters that std's `char::is_whitespace` accepts (Unicode
/// `White_Space`).
pub open spec fn is_space(c: char) -> bool {
    c == '\t' || c == '\n' || c == '\u{0B}' || c == '\u{0C}' || c == '\r' || c == ' '
        || c == '\u{85}' || c == '\u{A0}' || c == '\u{1680}' || ('\u{2000}' <= c
        && c <= '\u{200A}') || c == '\u{2028}' || c == '\u{2029}' || c == '\u{202F}'
        || c == '\u{205F}' || c == '\u{3000}'
}

fn space(c: char) -> (r: bool)
    ensures
        r == is_space(c),
{
    c == '\t' || c == '\n' || c == '\u{0B}' || c == '\u{0C}' || c == '\r' || c == ' '
        || c == '\u{85}' || c == '\u{A0}' || c == '\u{1680}' || ('\u{2000}' <= c && c
        <= '\u{200A}') || c == '\u{2028}' || c == '\u{2029}' || c == '\u{202F}' || c
        == '\u{205F}' || c == '\u{3000}'
}

/// `s` without leading white space.
pub open spec fn trim_start_of(s: Seq<char>) -> Seq<char>
    decreases s.len(),
{
    if s.len() > 0 && is_space(s[0]) {
        trim_start_of(s.drop_first())
    } else {
        s
    }
}

/// `s` without trailing white space.
pub open spec fn trim_end_of(s: Seq<char>) -> Seq<char>
    decreases s.len(),
{
    if s.len() > 0 && is_space(s.last()) {
        trim_end_of(s.drop_last())
    } else {
        s
    }
}

/// `s` without white space at either end.
pub open spec fn trim_of(s: Seq<char>) -> Seq<char> {
    trim_end_of(trim_start_of(s))
}

/// The separator that opens and closes a front-matter block.
pub open spec fn sentinel() -> Seq<char> {
    seq!['+', '+', '+']
}

/// Whether the separator starts at `p` in `s`.
pub open spec fn sentinel_at(s: Seq<char>, p: int) -> bool {
    0 <= p && p + 3 <= s.len() && s.subrange(p, p + 3) == sentinel()
}

/// `x` trimmed, as a one-element list, or nothing when it trims to empty.
pub open spec fn kept(x: Seq<char>) -> Seq<Seq<char>> {
    if trim_of(x).len() == 0 {
        Seq::empty()
    } else {
        seq![trim_of(x)]
    }
}

/// The pieces of `s` between separators, trimmed, empty ones dropped: the
/// scan has cut at every separator before `p`, and the current piece starts
/// at `start`.
pub open spec fn pieces_from(s: Seq<char>, start: int, p: int) -> Seq<Seq<char>>
    recommends
        0 <= start <= p <= s.len(),
    decreases s.len() - p,
{
    if p < 0 || p + 3 > s.len() {
        kept(s.subrange(start, s.len() as int))
    } else if sentinel_at(s, p) {
        kept(s.subrange(start, p)) + pieces_from(s, p + 3, p + 3)
    } else {
        pieces_from(s, start, p + 1)
    }
}

/// The non-empty, trimmed pieces of `s` between `+++` separators.
pub open spec fn pieces(s: Seq<char>) -> Seq<Seq<char>> {
    pieces_from(s, 0, 0)
}

/// What the front-matter split gives: with two pieces, front matter and
/// body; with one, the body alone; otherwise nothing.
pub open spec fn split_frontmatter_of(s: Seq<char>) -> Option<(Option<Seq<char>>, Seq<char>)> {
    let ps = pieces(s);
    if ps.len() == 2 {
        Some((Some(ps[0]), ps[1]))
    } else if ps.len() == 1 {
        Some((None, ps[0]))
    } else {
        None
    }
}

fn trim(s: &str) -> (r: &str)
    ensures
        r@ == trim_of(s@),
{
    let n = s.unicode_len();
    let mut a: usize = 0;
    assert(s@.subrange(0, n as int) == s@);
    while a < n && space(s.get_char(a))
        invariant
            n == s@.len(),
            a <= n,
            trim_start_of(s@) == trim_start_of(s@.subrange(a as int, n as int)),
        decreases n - a,
    {
        assert(s@.subrange(a + 1, n as int) == s@.subrange(a as int, n as int).drop_first());
        a = a + 1;
    }
    let mut b: usize = n;
    while b > a && space(s.get_char(b - 1))
        invariant
            n == s@.len(),
            a <= b <= n,
            trim_start_of(s@) == trim_start_of(s@.subrange(a as int, n as int)),
            trim_end_of(s@.subrange(a as int, n as int)) == trim_end_of(
                s@.subrange(a as int, b as int),
            ),
        decreases b - a,
    {
        assert(s@.subrange(a as int, b - 1) == s@.subrange(a as int, b as int).drop_last());
        b = b - 1;
    }
    assert(trim_start_of(s@.subrange(a as int, n as int)) == s@.subrange(a as int, n as int)) by {
        if a < n {
            assert(s@.subrange(a as int, n as int)[0] == s@[a as int]);
        }
    };
    assert(trim_end_of(s@.subrange(a as int, b as int)) == s@.subrange(a as int, b as int)) by {
        if b > a {
            assert(s@.subrange(a as int, b as int).last() == s@[b - 1]);
        }
    };
    s.substring_char(a, b)
}

proof fn lemma_sentinel_at(s: Seq<char>, p: int)
    requires
        0 <= p,
        p + 3 <= s.len(),
    ensures
        sentinel_at(s, p) <==> (s[p] == '+' && s[p + 1] == '+' && s[p + 2] == '+'),
{
    if s[p] == '+' && s[p + 1] == '+' && s[p + 2] == '+' {
        assert(s.subrange(p, p + 3) =~= sentinel());
    }
    if sentinel_at(s, p) {
        assert(s.subrange(p, p + 3)[0] == s[p]);
        assert(s.subrange(p, p + 3)[1] == s[p + 1]);
        assert(s.subrange(p, p + 3)[2] == s[p + 2]);
    }
}

/// The trimmed, non-empty pieces of `s` between `+++` separators.
pub fn split_pieces(s: &str) -> (r: Vec<String>)
    ensures
        r@.len() == pieces(s@).len(),
        forall|i: int| 0 <= i < r@.len() ==> #[trigger] r@[i]@ == pieces(s@)[i],
{
    let n = s.unicode_len();
    let mut out: Vec<String> = Vec::new();
    let mut start: usize = 0;
    let mut p: usize = 0;
    let ghost acc: Seq<Seq<char>> = Seq::empty();
    while n >= 3 && p <= n - 3
        invariant
            n == s@.len(),
            start <= p <= n,
            out@.len() == acc.len(),
            forall|i: int| 0 <= i < out@.len() ==> #[trigger] out@[i]@ == acc[i],
            acc + pieces_from(s@, start as int, p as int) == pieces(s@),
        decreases n - p,
    {
        proof { lemma_sentinel_at(s@, p as int); }
        if s.get_char(p) == '+' && s.get_char(p + 1) == '+' && s.get_char(p + 2) == '+' {
            let piece = trim(s.substring_char(start, p));
            let ghost k = kept(s@.subrange(start as int, p as int));
            if piece.unicode_len() > 0 {
                out.push(piece.to_string());
            }
            proof {
                assert(acc + pieces_from(s@, start as int, p as int) == acc + (k + pieces_from(
                    s@, p + 3, p + 3)));
                assert(acc + (k + pieces_from(s@, p + 3, p + 3)) == (acc + k) + pieces_from(
                    s@, p + 3, p + 3));
                acc = acc + k;
            }
            p = p + 3;
            start = p;
        } else {
            p = p + 1;
        }
    }
    let piece = trim(s.substring_char(start, n));
    let ghost k = kept(s@.subrange(start as int, n as int));
    if piece.unicode_len() > 0 {
        out.push(piece.to_string());
    }
    proof {
        acc = acc + k;
    }
    out
}

/// Splits `content` into its optional front-matter block and its body.
pub fn split_frontmatter(content: &str) -> (r: Option<(Option<String>, String)>)
    ensures
        match r {
            Some((Some(f), b)) => split_frontmatter_of(content@) == Some(
                (Some(f@), b@),
            ),
            Some((None, b)) => split_frontmatter_of(content@) == Some((None::<Seq<char>>, b@)),
            None => split_frontmatter_of(content@).is_none(),
        },
{
    let mut ps = split_pieces(content);
    if ps.len() == 2 {
        let body = ps.pop().unwrap();
        let front = ps.pop().unwrap();
        Some((Some(front), body))
    } else if ps.len() == 1 {
        let body = ps.pop().unwrap();
        Some((None, body))
    } else {
        None
    }
}

/// The file name of `path`; the path must have one.
pub fn filename(path: &str) -> (r: String)
    requires
        file_name_of(path@).is_some(),
    ensures
        Some(r@) == file_name_of(path@),
{
    match file_name(path) {
        Some(f) => f.to_string(),
        None => String::new(),
    }
}

/// `path` with `.` and `ext` appended.
pub fn append_extension(path: &str, ext: &str) -> (r: String)
    ensures
        r@ == path@ + seq!['.'] + ext@,
{
    let mut r = path.to_string();
    r.append(".");
    proof { reveal_strlit("."); }
    r.append(ext);
    r
}

/// The SHA-1 digest of a text, as lower-case hexadecimal.
pub uninterp spec fn sha1_hex(s: Seq<char>) -> Seq<char>;

/// Whether `c` is a lower-case hexadecimal digit.
pub open spec fn is_hex_digit(c: char) -> bool {
    ('0' <= c && c <= '9') || ('a' <= c && c <= 'f')
}

/// Relies on sha1_smol's `Sha1::from` and the `Display` of its `Digest`: the
/// digest of the text's bytes, forty lower-case hex digits (five words, each
/// written `{:08x}`).
#[verifier::external_body]
fn sha1_hexdigest(content: &str) -> (r: String)
    ensures
        r@ == sha1_hex(content@),
        r@.len() == 40,
        forall|i: int| 0 <= i < r@.len() ==> is_hex_digit(#[trigger] r@[i]),
{
    sha1_smol::Sha1::from(content).digest().to_string()
}

/// The content-addressed name: `path` with its extension `.ext` replaced by
/// `.hash.ext`.
pub open spec fn hashed_name_of(path: Seq<char>, hash: Seq<char>) -> Seq<char>
    recommends
        ext_of(name_of(path)).is_some(),
{
    let ext = ext_of(name_of(path)).unwrap();
    path.subrange(0, path.len() - ext.len() - 1) + seq!['.'] + hash + seq!['.'] + ext
}

/// The content-addressed name for a given digest: the first eight digits
/// of `digest` go between the stem and the extension of `path`.
pub fn hashed_filename(path: &str, digest: &str) -> (r: String)
    requires
        ext_of(name_of(path@)).is_some(),
        digest@.len() >= 8,
    ensures
        r@ == hashed_name_of(path@, digest@.subrange(0, 8)),
{
    let n = path.unicode_len();
    let base = crate::pathname::name(path);
    let ext = match extension(base) {
        Some(e) => e,
        None => base,
    };
    proof {
        crate::pathname::lemma_last_sep_bounds(path@);
        crate::pathname::lemma_last_dot_bounds(name_of(path@));
    }
    let m = ext.unicode_len();
    let mut r = path.substring_char(0, n - m - 1).to_string();
    r.append(".");
    r.append(digest.substring_char(0, 8));
    r.append(".");
    r.append(ext);
    proof { reveal_strlit("."); }
    r
}

/// The content-addressed name of `path` for `content`: equal contents give
/// equal names.
pub fn digest_filename(path: &str, content: &str) -> (r: String)
    requires
        ext_of(name_of(path@)).is_some(),
    ensures
        r@ == hashed_name_of(path@, sha1_hex(content@).subrange(0, 8)),
        sha1_hex(content@).len() == 40,
        forall|i: int| 0 <= i < 40 ==> is_hex_digit(#[trigger] sha1_hex(content@)[i]),
{
    let digest = sha1_hexdigest(content);
    hashed_filename(path, digest.as_str())
}

/// Where `path`, found below `prefix`, goes below `out`: the same relative
/// path under the output directory.
pub fn copy_target(out: &str, prefix: &str, path: &str) -> (r: Option<String>)
    ensures
        match r {
            Some(t) => strip_prefix_of(path@, prefix@) is Some && t@ == join_of(
                out@,
                strip_prefix_of(path@, prefix@).unwrap(),
            ),
            None => strip_prefix_of(path@, prefix@) is None,
        },
{
    match strip_prefix(path, prefix) {
        Some(rel) => Some(join(out, rel)),
        None => None,
    }
}

} // verus!

verus! {

/// The characters of an optional string.
pub open spec fn opt_view(o: Option<String>) -> Option<Seq<char>> {
    match o {
        Some(s) => Some(s@),
        None => None,
    }
}

/// A copy of an optional string.
pub fn clone_opt(o: &Option<String>) -> (r: Option<String>)
    ensures
        opt_view(r) == opt_view(*o),
{
    match o {
        Some(s) => Some(s.clone()),
        None => None,
    }
}

/// Whether two optional strings hold the same characters.
pub fn opt_eq(a: &Option<String>, b: &Option<String>) -> (r: bool)
    ensures
        r == (opt_view(*a) == opt_view(*b)),
{
    match (a, b) {
        (Some(x), Some(y)) => crate::pathname::str_eq(x.as_str(), y.as_str()),
        (None, None) => true,
        _ => false,
    }
}

} // verus!

verus! {

/// The content-addressed name is a function of the path and the content
/// alone: equal contents give equal names.
pub proof fn lemma_digest_filename_stable(path: Seq<char>, c1: Seq<char>, c2: Seq<char>)
    requires
        c1 == c2,
    ensures
        hashed_name_of(path, sha1_hex(c1).subrange(0, 8)) == hashed_name_of(
            path,
            sha1_hex(c2).subrange(0, 8),
        ),
{
}

} // verus!
