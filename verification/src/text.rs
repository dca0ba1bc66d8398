//! Character-level helpers on strings and archive paths.

use vstd::prelude::*;

verus! {

/// The characters of `s`, in order.
pub fn chars_of(s: &str) -> (v: Vec<char>)
    ensures
        v@ == s@,
{
    let mut v: Vec<char> = Vec::new();
    for c in it: s.chars()
        invariant
            v@ == it.seq().take(it.index() as int),
            it.seq() == s@,
    {
        v.push(c);
    }
    v
}

/// Whether two strings hold the same characters.
pub fn same_text(a: &str, b: &str) -> (r: bool)
    ensures
        r == (a@ == b@),
{
    let x = chars_of(a);
    let y = chars_of(b);
    if x.len() != y.len() {
        return false;
    }
    let mut i: usize = 0;
    while i < x.len()
        invariant
            i <= x.len(),
            x.len() == y.len(),
            x@ == a@,
            y@ == b@,
            forall|k: int| 0 <= k < i ==> x@[k] == y@[k],
        decreases x.len() - i,
    {
        if x[i] != y[i] {
            return false;
        }
        i += 1;
    }
    assert(x@ =~= y@);
    true
}

/// The characters of an optional string.
pub open spec fn text_view(t: Option<String>) -> Option<Seq<char>> {
    match t {
        Some(s) => Some(s@),
        None => None,
    }
}

/// The characters of each string of a list.
pub open spec fn texts_view(list: Seq<String>) -> Seq<Seq<char>> {
    Seq::new(list.len(), |i: int| list[i]@)
}

/// `s` without its leading and trailing whitespace.
pub uninterp spec fn trimmed(s: Seq<char>) -> Seq<char>;

/// Strips leading and trailing whitespace with `str::trim`, which goes by the
/// Unicode property `White_Space` and so depends on the text alone.
#[verifier::external_body]
pub(crate) fn trim(s: &str) -> (r: String)
    ensures
        r@ == trimmed(s@),
{
    s.trim().to_owned()
}

/// Whether position `i` of `p` opens a segment: it is the first position, or
/// it follows a slash.
pub open spec fn opens_segment(p: Seq<char>, i: int) -> bool {
    i == 0 || p[i - 1] == '/'
}

/// Whether a segment of `p` ends just before position `i`: the path ends
/// there, or a slash stands there.
pub open spec fn closes_segment(p: Seq<char>, i: int) -> bool {
    i == p.len() || p[i] == '/'
}

/// Whether position `i` shows that `p` cannot be used below a working root:
/// a NUL character, an empty segment (a leading, doubled or trailing slash),
/// or a segment that is exactly `.` or `..`.
pub open spec fn unsafe_at(p: Seq<char>, i: int) -> bool {
    ||| p[i] == '\0'
    ||| (p[i] == '/' && (opens_segment(p, i) || i + 1 == p.len()))
    ||| (p[i] == '.' && opens_segment(p, i) && closes_segment(p, i + 1))
    ||| (p[i] == '.' && opens_segment(p, i) && i + 1 < p.len() && p[i + 1] == '.'
        && closes_segment(p, i + 2))
}

/// A path that stays below whatever root it is joined to: it is not empty,
/// it is relative, and each of its slash-separated segments is a plain name.
pub open spec fn safe_path(p: Seq<char>) -> bool {
    p.len() > 0 && forall|i: int| 0 <= i < p.len() ==> !unsafe_at(p, i)
}

/// Decides [`safe_path`].
pub fn is_safe_path(path: &str) -> (r: bool)
    ensures
        r == safe_path(path@),
{
    let p = chars_of(path);
    let n: usize = p.len();
    if n == 0 {
        return false;
    }
    let mut i: usize = 0;
    while i < n
        invariant
            i <= n,
            n == p.len(),
            p@ == path@,
            forall|k: int| 0 <= k < i ==> !unsafe_at(p@, k),
        decreases n - i,
    {
        let c: char = p[i];
        let opens: bool = i == 0 || p[i - 1] == '/';
        let bad: bool = if c == '\0' {
            true
        } else if c == '/' {
            opens || i + 1 == n
        } else if c == '.' && opens {
            if i + 1 == n || p[i + 1] == '/' {
                true
            } else {
                p[i + 1] == '.' && (i + 2 == n || p[i + 2] == '/')
            }
        } else {
            false
        };
        assert(bad == unsafe_at(p@, i as int));
        if bad {
            return false;
        }
        i += 1;
    }
    true
}

/// Whether an entry name denotes a directory: it ends in a slash.
pub open spec fn directory_name(name: Seq<char>) -> bool {
    name.len() > 0 && name.last() == '/'
}

/// Decides [`directory_name`].
pub fn is_directory_name(name: &str) -> (r: bool)
    ensures
        r == directory_name(name@),
{
    let p = chars_of(name);
    p.len() > 0 && p[p.len() - 1] == '/'
}

/// The last position at which `c` stands in `s`.
pub open spec fn last_index_of(s: Seq<char>, c: char) -> Option<int>
    decreases s.len(),
{
    if s.len() == 0 {
        None
    } else if s.last() == c {
        Some(s.len() - 1)
    } else {
        last_index_of(s.drop_last(), c)
    }
}

/// Computes [`last_index_of`].
pub fn find_last(s: &Vec<char>, c: char) -> (r: Option<usize>)
    ensures
        match last_index_of(s@, c) {
            Some(i) => r matches Some(k) && k == i && 0 <= i < s@.len() && s@[i] == c,
            None => r is None,
        },
{
    let mut i: usize = s.len();
    assert(s@.take(i as int) =~= s@);
    while i > 0
        invariant
            i <= s.len(),
            last_index_of(s@, c) == last_index_of(s@.take(i as int), c),
        decreases i,
    {
        if s[i - 1] == c {
            return Some(i - 1);
        }
        proof {
            assert(s@.take(i as int).drop_last() =~= s@.take(i - 1));
        }
        i -= 1;
    }
    None
}

/// The last segment of a path: what follows its last slash.
pub open spec fn file_name(p: Seq<char>) -> Seq<char> {
    match last_index_of(p, '/') {
        Some(i) => p.subrange(i + 1, p.len() as int),
        None => p,
    }
}

/// The extension of a path: what follows the last dot of its file name.
/// A file name without a dot has none, nor has one whose only dot is its
/// first character.
pub open spec fn extension(p: Seq<char>) -> Option<Seq<char>> {
    let name = file_name(p);
    match last_index_of(name, '.') {
        Some(i) => if i == 0 {
            None
        } else {
            Some(name.subrange(i + 1, name.len() as int))
        },
        None => None,
    }
}

/// The path without its extension and the dot before it; the whole path
/// where it has no extension.
pub open spec fn without_extension(p: Seq<char>) -> Seq<char> {
    match extension(p) {
        Some(e) => p.subrange(0, p.len() - e.len() - 1),
        None => p,
    }
}

/// Where the file name of `path` begins, and where its extension begins
/// if it has one.
fn split_points(path: &str) -> (r: (usize, Option<usize>))
    ensures
        r.0 <= path@.len(),
        file_name(path@) == path@.subrange(r.0 as int, path@.len() as int),
        match extension(path@) {
            Some(e) => r.1 matches Some(at) && r.0 < at <= path@.len() && e == path@.subrange(
                at as int,
                path@.len() as int,
            ),
            None => r.1 is None,
        },
{
    let p = chars_of(path);
    let start: usize = match find_last(&p, '/') {
        Some(i) => {
            assert(i < p.len());
            i + 1
        },
        None => 0,
    };
    assert(file_name(path@) =~= path@.subrange(start as int, path@.len() as int));
    let name = chars_of(path.substring_char(start, p.len()));
    match find_last(&name, '.') {
        Some(i) => {
            if i == 0 {
                (start, None)
            } else {
                assert(name@.subrange(i + 1, name@.len() as int) =~= path@.subrange(
                    start + i + 1,
                    path@.len() as int,
                ));
                (start, Some(start + i + 1))
            }
        },
        None => (start, None),
    }
}

/// Computes [`extension`].
pub fn extension_of(path: &str) -> (r: Option<String>)
    ensures
        match extension(path@) {
            Some(e) => r matches Some(found) && found@ == e,
            None => r is None,
        },
{
    match split_points(path).1 {
        Some(at) => Some(path.substring_char(at, path.unicode_len()).to_owned()),
        None => None,
    }
}

/// Computes [`without_extension`].
pub fn strip_extension(path: &str) -> (r: String)
    ensures
        r@ == without_extension(path@),
{
    match split_points(path).1 {
        Some(at) => {
            assert(path@.subrange(0, at - 1) =~= without_extension(path@));
            path.substring_char(0, at - 1).to_owned()
        },
        None => path.to_owned(),
    }
}

} // verus!
