//! File paths held as strings, in the style of Unix (`/` separates
//! components) or of Windows (`\` and `/` both separate components, `\`
//! is written when joining, and a drive `X:` may start a path); `win`
//! selects the style.
//!
//! The operations follow the rules of the standard library's `Path`:
//! joining, the parent, the file name, its stem and its extension.  As
//! there, repeated separators count as one, a `.` component after the
//! first is skipped (so `a/./b` has parent `a`, and `a/.` has file name
//! `a`), a path ending in `..` or made of `.` alone has no file name, and a
//! drive with its root (`C:\`) has neither file name nor parent.  Other
//! Windows prefixes (`\\server\share`, `\\?\`) and a drive without
//! root (`C:a`) are read as plain components.
use vstd::prelude::*;

use crate::text::concat_str;

verus! {

/// Whether `c` separates path components.
pub open spec fn is_sep(c: char, win: bool) -> bool {
    c == '/' || (win && c == '\\')
}

/// The separator written when joining.
pub open spec fn main_sep(win: bool) -> char {
    if win {
        '\\'
    } else {
        '/'
    }
}

/// A Windows drive: a letter and `:`.
pub open spec fn is_drive(s: Seq<char>, win: bool) -> bool {
    win && s.len() == 2 && s[1] == ':' && (('a' <= s[0] && s[0] <= 'z') || ('A' <= s[0] && s[0] <= 'Z'))
}

/// `s` without what follows its last component: trailing separators and
/// trailing `.` components (a `.` right after a separator).
pub open spec fn trim_seps(s: Seq<char>, win: bool) -> Seq<char>
    decreases s.len(),
{
    if s.len() > 0 && is_sep(s.last(), win) {
        trim_seps(s.drop_last(), win)
    } else if s.len() > 1 && s.last() == '.' && is_sep(s[s.len() - 2], win) {
        trim_seps(s.drop_last(), win)
    } else {
        s
    }
}

/// The index of the last separator of `s`.
pub open spec fn last_sep(s: Seq<char>, win: bool) -> Option<int>
    decreases s.len(),
{
    if s.len() == 0 {
        None
    } else if is_sep(s.last(), win) {
        Some(s.len() - 1)
    } else {
        last_sep(s.drop_last(), win)
    }
}

/// `dir` joined with `name`: when `name` starts with a separator, `name`
/// itself, kept behind the drive `dir` starts with, if any; `name` when
/// `dir` is empty; otherwise `dir`, a separator unless `dir` ends with one
/// or is a bare drive, and `name`.
pub open spec fn path_join(dir: Seq<char>, name: Seq<char>, win: bool) -> Seq<char> {
    if name.len() > 0 && is_sep(name[0], win) {
        if dir.len() >= 2 && is_drive(dir.take(2), win) {
            dir.take(2) + name
        } else {
            name
        }
    } else if dir.len() == 0 {
        name
    } else if is_sep(dir.last(), win) || is_drive(dir, win) {
        dir + name
    } else {
        dir + seq![main_sep(win)] + name
    }
}

/// The parent of a path: none for the empty path or the root; the empty
/// path for a single relative name; otherwise the path up to its last
/// component (the root for a component directly under the root).
pub open spec fn path_parent(p: Seq<char>, win: bool) -> Option<Seq<char>> {
    let t = trim_seps(p, win);
    if t.len() == 0 || is_drive(t, win) {
        None
    } else {
        match last_sep(t, win) {
            None => Some(Seq::empty()),
            Some(i) => {
                let d = trim_seps(t.take(i), win);
                if d.len() == 0 {
                    Some(t.take(1))
                } else if is_drive(d, win) {
                    Some(t.take(3))
                } else {
                    Some(d)
                }
            },
        }
    }
}

/// The last component of a path: none for the empty path, a root, `.`,
/// or a path ending in `..`.
pub open spec fn path_file_name(p: Seq<char>, win: bool) -> Option<Seq<char>> {
    let t = trim_seps(p, win);
    let name = match last_sep(t, win) {
        Some(i) => t.skip(i + 1),
        None => t,
    };
    if name.len() == 0 || name == ".."@ || name == "."@ || is_drive(t, win) {
        None
    } else {
        Some(name)
    }
}

/// The index of the last `.` of `s`.
pub open spec fn last_dot(s: Seq<char>) -> Option<int>
    decreases s.len(),
{
    if s.len() == 0 {
        None
    } else if s.last() == '.' {
        Some(s.len() - 1)
    } else {
        last_dot(s.drop_last())
    }
}

/// The file name without its extension: all of it when it holds no `.`
/// after its first character.
pub open spec fn path_file_stem(p: Seq<char>, win: bool) -> Option<Seq<char>> {
    match path_file_name(p, win) {
        None => None,
        Some(n) => match last_dot(n) {
            Some(i) => if i > 0 {
                Some(n.take(i))
            } else {
                Some(n)
            },
            None => Some(n),
        },
    }
}

/// The extension of the file name: what follows its last `.`, when that
/// `.` is not its first character.
pub open spec fn path_extension(p: Seq<char>, win: bool) -> Option<Seq<char>> {
    match path_file_name(p, win) {
        None => None,
        Some(n) => match last_dot(n) {
            Some(i) => if i > 0 {
                Some(n.skip(i + 1))
            } else {
                None
            },
            None => None,
        },
    }
}

/// The path with its last component replaced by `name` (or `name` appended
/// when the path has no file name).
pub open spec fn path_with_file_name(p: Seq<char>, name: Seq<char>, win: bool) -> Seq<char> {
    match path_file_name(p, win) {
        Some(_) => match path_parent(p, win) {
            Some(d) => path_join(d, name, win),
            None => path_join(p, name, win),
        },
        None => path_join(p, name, win),
    }
}

/// `last_sep` finds the last separator.
proof fn lemma_last_sep(s: Seq<char>, win: bool)
    ensures
        last_sep(s, win) matches Some(i) ==> 0 <= i < s.len() && is_sep(s[i], win) && forall|j: int|
            i < j < s.len() ==> !is_sep(s[j], win),
        last_sep(s, win) is None ==> forall|j: int| 0 <= j < s.len() ==> !is_sep(s[j], win),
    decreases s.len(),
{
    if s.len() > 0 {
        lemma_last_sep(s.drop_last(), win);
        assert forall|j: int| 0 <= j < s.len() - 1 implies s.drop_last()[j] == s[j] by {}
    }
}

/// `last_dot` finds the last dot.
proof fn lemma_last_dot(s: Seq<char>)
    ensures
        last_dot(s) matches Some(i) ==> 0 <= i < s.len() && s[i] == '.' && forall|j: int|
            i < j < s.len() ==> s[j] != '.',
        last_dot(s) is None ==> forall|j: int| 0 <= j < s.len() ==> s[j] != '.',
    decreases s.len(),
{
    if s.len() > 0 {
        lemma_last_dot(s.drop_last());
        assert forall|j: int| 0 <= j < s.len() - 1 implies s.drop_last()[j] == s[j] by {}
    }
}

/// A separator at `i` with no separator after it is the last one.
proof fn lemma_last_sep_at(s: Seq<char>, i: Option<int>, win: bool)
    requires
        i matches Some(x) ==> 0 <= x < s.len() && is_sep(s[x], win) && forall|j: int|
            x < j < s.len() ==> !is_sep(s[j], win),
        i is None ==> forall|j: int| 0 <= j < s.len() ==> !is_sep(s[j], win),
    ensures
        last_sep(s, win) == i,
{
    lemma_last_sep(s, win);
    match (last_sep(s, win), i) {
        (Some(a), Some(b)) => {
            if a < b {
                assert(!is_sep(s[b], win));
            } else if b < a {
                assert(!is_sep(s[a], win));
            }
        },
        (Some(a), None) => {
            assert(!is_sep(s[a], win));
        },
        (None, Some(b)) => {
            assert(!is_sep(s[b], win));
        },
        (None, None) => {},
    }
}

/// A dot at `i` with no dot after it is the last one.
proof fn lemma_last_dot_at(s: Seq<char>, i: Option<int>)
    requires
        i matches Some(x) ==> 0 <= x < s.len() && s[x] == '.' && forall|j: int| x < j < s.len() ==> s[j] != '.',
        i is None ==> forall|j: int| 0 <= j < s.len() ==> s[j] != '.',
    ensures
        last_dot(s) == i,
{
    lemma_last_dot(s);
    match (last_dot(s), i) {
        (Some(a), Some(b)) => {
            if a < b {
                assert(s[b] != '.');
            } else if b < a {
                assert(s[a] != '.');
            }
        },
        (Some(a), None) => {
            assert(s[a] != '.');
        },
        (None, Some(b)) => {
            assert(s[b] != '.');
        },
        (None, None) => {},
    }
}

/// Whether `c` separates path components.
fn sep_char(c: char, win: bool) -> (r: bool)
    ensures
        r == is_sep(c, win),
{
    c == '/' || (win && c == '\\')
}

/// Whether the first `k` characters of `s` end with a separator or with a
/// `.` component.
fn ends_trimmable(s: &str, k: usize, win: bool) -> (r: bool)
    requires
        k <= s@.len(),
    ensures
        r == ((k > 0 && is_sep(s@[k - 1], win)) || (k > 1 && s@[k - 1] == '.' && is_sep(s@[k - 2], win))),
{
    if k == 0 {
        return false;
    }
    if sep_char(s.get_char(k - 1), win) {
        return true;
    }
    k > 1 && s.get_char(k - 1) == '.' && sep_char(s.get_char(k - 2), win)
}

/// The length of the first `n` characters of `s` once trimmed.
fn trimmed_len(s: &str, n: usize, win: bool) -> (k: usize)
    requires
        n <= s@.len(),
    ensures
        k <= n,
        trim_seps(s@.take(n as int), win) == s@.take(k as int),
{
    let mut k = n;
    while ends_trimmable(s, k, win)
        invariant
            n <= s@.len(),
            k <= n,
            trim_seps(s@.take(n as int), win) == trim_seps(s@.take(k as int), win),
        decreases k,
    {
        proof {
            let t = s@.take(k as int);
            assert(t.drop_last() =~= s@.take(k - 1));
            assert(t.last() == s@[k - 1]);
            if k > 1 {
                assert(t[t.len() - 2] == s@[k - 2]);
            }
        }
        k = k - 1;
    }
    proof {
        let t = s@.take(k as int);
        if k > 0 {
            assert(t.last() == s@[k - 1]);
        }
        if k > 1 {
            assert(t[t.len() - 2] == s@[k - 2]);
        }
    }
    k
}

/// Whether the first `n` characters of `s` are a drive.
fn drive_prefix(s: &str, n: usize, win: bool) -> (r: bool)
    requires
        n <= s@.len(),
    ensures
        r == is_drive(s@.take(n as int), win),
{
    if !win || n != 2 {
        return false;
    }
    let c = s.get_char(0);
    let colon = s.get_char(1) == ':';
    proof {
        assert(s@.take(2)[0] == c && s@.take(2)[1] == s@[1]);
    }
    colon && (('a' <= c && c <= 'z') || ('A' <= c && c <= 'Z'))
}

/// The index of the last separator among the first `n` characters of `s`.
fn last_sep_before(s: &str, n: usize, win: bool) -> (r: Option<usize>)
    requires
        n <= s@.len(),
    ensures
        match r {
            Some(i) => i < n && last_sep(s@.take(n as int), win) == Some(i as int),
            None => last_sep(s@.take(n as int), win) is None,
        },
{
    let mut i = n;
    while i > 0 && !sep_char(s.get_char(i - 1), win)
        invariant
            n <= s@.len(),
            i <= n,
            forall|j: int| i <= j < n ==> !is_sep(s@[j], win),
        decreases i,
    {
        i = i - 1;
    }
    let t = Ghost(s@.take(n as int));
    if i == 0 {
        proof {
            assert forall|j: int| 0 <= j < t@.len() implies !is_sep(t@[j], win) by {
                assert(t@[j] == s@[j]);
            }
            lemma_last_sep_at(t@, None, win);
        }
        None
    } else {
        proof {
            assert(t@[i - 1] == s@[i - 1]);
            assert forall|j: int| i - 1 < j < t@.len() implies !is_sep(t@[j], win) by {
                assert(t@[j] == s@[j]);
            }
            lemma_last_sep_at(t@, Some(i - 1), win);
        }
        Some(i - 1)
    }
}

/// `dir` joined with `name`.
pub fn join(dir: &str, name: &str, win: bool) -> (r: String)
    ensures
        r@ == path_join(dir@, name@, win),
{
    let n = name.unicode_len();
    let d = dir.unicode_len();
    if n > 0 && sep_char(name.get_char(0), win) {
        if d >= 2 && drive_prefix(dir, 2, win) {
            return concat_str(dir.substring_char(0, 2), name);
        }
        return String::from_str(name);
    }
    if d == 0 {
        return String::from_str(name);
    }
    if sep_char(dir.get_char(d - 1), win) || drive_prefix(dir, d, win) {
        proof {
            assert(dir@.take(d as int) =~= dir@);
        }
        concat_str(dir, name)
    } else {
        proof {
            assert(dir@.take(d as int) =~= dir@);
            reveal_strlit("\\");
            reveal_strlit("/");
        }
        let mut r = if win {
            concat_str(dir, "\\")
        } else {
            concat_str(dir, "/")
        };
        r.append(name);
        r
    }
}

/// The parent of a path.
pub fn parent(p: &str, win: bool) -> (r: Option<String>)
    ensures
        match r {
            Some(x) => path_parent(p@, win) == Some(x@),
            None => path_parent(p@, win) is None,
        },
{
    let n = p.unicode_len();
    let k = trimmed_len(p, n, win);
    proof {
        assert(p@.take(n as int) =~= p@);
    }
    if k == 0 || drive_prefix(p, k, win) {
        return None;
    }
    match last_sep_before(p, k, win) {
        None => Some(String::new()),
        Some(i) => {
            let dk = trimmed_len(p, i, win);
            proof {
                assert(p@.take(k as int).take(i as int) =~= p@.take(i as int));
            }
            if dk == 0 {
                proof {
                    assert(p@.take(k as int).take(1) =~= p@.take(1));
                }
                Some(String::from_str(p.substring_char(0, 1)))
            } else if drive_prefix(p, dk, win) {
                proof {
                    assert(p@.take(k as int).take(3) =~= p@.take(3));
                }
                Some(String::from_str(p.substring_char(0, 3)))
            } else {
                Some(String::from_str(p.substring_char(0, dk)))
            }
        },
    }
}

/// The last component of a path.
pub fn file_name(p: &str, win: bool) -> (r: Option<String>)
    ensures
        match r {
            Some(x) => path_file_name(p@, win) == Some(x@),
            None => path_file_name(p@, win) is None,
        },
{
    let n = p.unicode_len();
    let k = trimmed_len(p, n, win);
    proof {
        assert(p@.take(n as int) =~= p@);
    }
    let start = match last_sep_before(p, k, win) {
        Some(i) => i + 1,
        None => 0,
    };
    let name = p.substring_char(start, k);
    proof {
        reveal_strlit("..");
        reveal_strlit(".");
        match last_sep(p@.take(k as int), win) {
            Some(i) => assert(p@.take(k as int).skip(i + 1) =~= name@),
            None => assert(p@.take(k as int) =~= name@),
        }
    }
    if start == k || crate::text::str_equal(name, "..") || crate::text::str_equal(name, ".") || drive_prefix(
        p,
        k,
        win,
    ) {
        None
    } else {
        Some(String::from_str(name))
    }
}

/// The index of the last `.` of `s`.
fn last_dot_of(s: &str) -> (r: Option<usize>)
    ensures
        match r {
            Some(i) => i < s@.len() && last_dot(s@) == Some(i as int),
            None => last_dot(s@) is None,
        },
{
    let n = s.unicode_len();
    let mut i = n;
    while i > 0 && s.get_char(i - 1) != '.'
        invariant
            n == s@.len(),
            i <= n,
            forall|j: int| i <= j < n ==> s@[j] != '.',
        decreases i,
    {
        i = i - 1;
    }
    if i == 0 {
        proof {
            lemma_last_dot_at(s@, None);
        }
        None
    } else {
        proof {
            lemma_last_dot_at(s@, Some(i - 1));
        }
        Some(i - 1)
    }
}

/// The file name without its extension.
pub fn file_stem(p: &str, win: bool) -> (r: Option<String>)
    ensures
        match r {
            Some(x) => path_file_stem(p@, win) == Some(x@),
            None => path_file_stem(p@, win) is None,
        },
{
    let name = match file_name(p, win) {
        Some(n) => n,
        None => return None,
    };
    match last_dot_of(name.as_str()) {
        Some(i) => if i > 0 {
            Some(String::from_str(name.as_str().substring_char(0, i)))
        } else {
            Some(name)
        },
        None => Some(name),
    }
}

/// The extension of the file name.
pub fn extension(p: &str, win: bool) -> (r: Option<String>)
    ensures
        match r {
            Some(x) => path_extension(p@, win) == Some(x@),
            None => path_extension(p@, win) is None,
        },
{
    let name = match file_name(p, win) {
        Some(n) => n,
        None => return None,
    };
    let len = name.as_str().unicode_len();
    match last_dot_of(name.as_str()) {
        Some(i) => if i > 0 {
            Some(String::from_str(name.as_str().substring_char(i + 1, len)))
        } else {
            None
        },
        None => None,
    }
}

/// The path with its last component replaced by `name`.
pub fn with_file_name(p: &str, name: &str, win: bool) -> (r: String)
    ensures
        r@ == path_with_file_name(p@, name@, win),
{
    match file_name(p, win) {
        Some(_) => match parent(p, win) {
            Some(d) => join(d.as_str(), name, win),
            None => join(p, name, win),
        },
        None => join(p, name, win),
    }
}

/// A plain name: not empty, without separator, neither `.` nor `..`, nor
/// a drive.
pub open spec fn is_plain_name(n: Seq<char>, win: bool) -> bool {
    &&& n.len() > 0
    &&& !is_drive(n, win)
    &&& forall|i: int| 0 <= i < n.len() ==> !is_sep(#[trigger] n[i], win)
    &&& n != ".."@
    &&& n != seq!['.']
}

/// A directory the joins of which are undone by taking the parent: empty,
/// a root separator, or ending with a component (no trailing separator or
/// `.` component) and not a bare drive.
pub open spec fn is_clean_dir(d: Seq<char>, win: bool) -> bool {
    d.len() == 0 || (d.len() == 1 && is_sep(d[0], win)) || (trim_seps(d, win) == d && !is_drive(d, win))
}

/// Trimming never lengthens.
proof fn lemma_trim_seps_len(s: Seq<char>, win: bool)
    ensures
        trim_seps(s, win).len() <= s.len(),
    decreases s.len(),
{
    if s.len() > 0 {
        lemma_trim_seps_len(s.drop_last(), win);
    }
}

/// Joining a plain name onto a clean directory gives a path whose file
/// name is that name and whose parent is that directory.
pub proof fn law_join_then_split(dir: Seq<char>, name: Seq<char>, win: bool)
    requires
        is_plain_name(name, win),
        is_clean_dir(dir, win),
    ensures
        path_file_name(path_join(dir, name, win), win) == Some(name),
        path_parent(path_join(dir, name, win), win) == Some(dir),
{
    reveal_strlit(".");
    reveal_strlit("..");
    let p = path_join(dir, name, win);
    let root = dir.len() == 1 && is_sep(dir[0], win);
    let i: int = if root {
        0
    } else {
        dir.len() as int
    };
    if dir.len() == 0 {
        assert(p == name);
    } else if root {
        assert(p =~= dir + name);
    } else {
        lemma_trim_seps_len(dir.drop_last(), win);
        assert(!is_sep(dir.last(), win));
        assert(p =~= dir + seq![main_sep(win)] + name);
    }
    assert(p[p.len() - 1] == name[name.len() - 1]);
    if name.len() > 1 {
        assert(p[p.len() - 2] == name[name.len() - 2]);
    } else {
        assert(name[0] != '.') by {
            if name[0] == '.' {
                assert(name =~= seq!['.']);
            }
        }
    }
    assert(trim_seps(p, win) == p);
    assert(!is_drive(p, win));
    if dir.len() == 0 {
        lemma_last_sep_at(p, None, win);
        assert(Seq::<char>::empty() =~= dir);
    } else {
        assert forall|j: int| i < j < p.len() implies !is_sep(p[j], win) by {
            assert(p[j] == name[j - i - 1]);
        }
        lemma_last_sep_at(p, Some(i), win);
        assert(p.skip(i + 1) =~= name);
        if root {
            assert(p.take(0) =~= Seq::<char>::empty());
            assert(p.take(1) =~= dir);
        } else {
            assert(p.take(i) =~= dir);
        }
    }
}

} // verus!
