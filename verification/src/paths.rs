//! Windows-style path text: file names, stems and extensions, where both `/`
//! and `\` separate components and a leading drive letter (`C:`) is a prefix.
use vstd::prelude::*;
use crate::text::{chars_of, chars_eq, string_from_chars};

verus! {

/// Whether `c` separates path components.
pub open spec fn spec_is_sep(c: char) -> bool {
    c == '/' || c == '\\'
}

/// `p` without its trailing separators.
pub open spec fn spec_trim_trailing_seps(p: Seq<char>) -> Seq<char>
    decreases p.len(),
{
    if p.len() > 0 && spec_is_sep(p.last()) {
        spec_trim_trailing_seps(p.drop_last())
    } else {
        p
    }
}

/// Index just after the last separator of `p` (zero without one).
pub open spec fn spec_after_last_sep(p: Seq<char>) -> int
    decreases p.len(),
{
    if p.len() == 0 {
        0
    } else if spec_is_sep(p.last()) {
        p.len() as int
    } else {
        spec_after_last_sep(p.drop_last())
    }
}

/// The last component of `p`, without a drive prefix when it is the only one.
pub open spec fn spec_last_component(p: Seq<char>) -> Seq<char> {
    let t = spec_trim_trailing_seps(p);
    let a = spec_after_last_sep(t);
    let name = t.subrange(a, t.len() as int);
    if a == 0 && name.len() >= 2 && name[1] == ':' {
        name.subrange(2, name.len() as int)
    } else {
        name
    }
}

/// The file name of a path: its last component, unless that is empty, `.`
/// or `..`.
pub open spec fn spec_file_name(p: Seq<char>) -> Option<Seq<char>> {
    let n = spec_last_component(p);
    if n.len() == 0 || n == "."@ || n == ".."@ {
        None
    } else {
        Some(n)
    }
}

/// Index of the last `.` of a name (`-1` without one).
pub open spec fn spec_last_dot(n: Seq<char>) -> int
    decreases n.len(),
{
    if n.len() == 0 {
        -1
    } else if n.last() == '.' {
        n.len() - 1
    } else {
        spec_last_dot(n.drop_last())
    }
}

/// Stem of a file name: the text before its last `.`, or the whole name when
/// it has no `.` after the first character (or is `..`).
pub open spec fn spec_stem(n: Seq<char>) -> Seq<char> {
    if n == ".."@ || spec_last_dot(n) <= 0 {
        n
    } else {
        n.subrange(0, spec_last_dot(n))
    }
}

/// Extension of a file name: the text after its last `.`, if that `.` is not
/// the first character.
pub open spec fn spec_extension(n: Seq<char>) -> Option<Seq<char>> {
    if n == ".."@ || spec_last_dot(n) <= 0 {
        None
    } else {
        Some(n.subrange(spec_last_dot(n) + 1, n.len() as int))
    }
}

fn is_sep(c: char) -> (r: bool)
    ensures
        r == spec_is_sep(c),
{
    c == '/' || c == '\\'
}

/// Length of `p` without trailing separators.
fn trimmed_len(p: &[char]) -> (r: usize)
    ensures
        spec_trim_trailing_seps(p@) == p@.subrange(0, r as int),
        r <= p@.len(),
{
    let mut n = p.len();
    assert(p@.subrange(0, n as int) == p@);
    while n > 0 && is_sep(p[n - 1])
        invariant
            n <= p@.len(),
            spec_trim_trailing_seps(p@) == spec_trim_trailing_seps(p@.subrange(0, n as int)),
        decreases n,
    {
        assert(p@.subrange(0, n as int).drop_last() == p@.subrange(0, n - 1));
        n = n - 1;
    }
    proof {
        if n > 0 {
            assert(p@.subrange(0, n as int).last() == p@[n - 1]);
        }
    }
    n
}

/// Index after the last separator among the first `n` characters.
fn after_last_sep(p: &[char], n: usize) -> (r: usize)
    requires
        n <= p@.len(),
    ensures
        r as int == spec_after_last_sep(p@.subrange(0, n as int)),
        r <= n,
{
    let mut k = n;
    while k > 0 && !is_sep(p[k - 1])
        invariant
            k <= n <= p@.len(),
            spec_after_last_sep(p@.subrange(0, n as int)) == spec_after_last_sep(
                p@.subrange(0, k as int),
            ),
        decreases k,
    {
        assert(p@.subrange(0, k as int).drop_last() == p@.subrange(0, k - 1));
        k = k - 1;
    }
    proof {
        if k > 0 {
            assert(p@.subrange(0, k as int).last() == p@[k - 1]);
        }
    }
    k
}

/// The file name of a path (see `spec_file_name`).
pub fn file_name(p: &str) -> (r: Option<String>)
    ensures
        r matches Some(s) ==> spec_file_name(p@) == Some(s@),
        r is None ==> spec_file_name(p@) is None,
{
    let cs = chars_of(p);
    let t = trimmed_len(cs.as_slice());
    let a = after_last_sep(cs.as_slice(), t);
    let ghost tt = cs@.subrange(0, t as int);
    proof {
        assert(tt.subrange(a as int, tt.len() as int) == cs@.subrange(a as int, t as int));
    }
    let start = if a == 0 && t >= 2 && cs[1] == ':' {
        2
    } else {
        a
    };
    let mut name: Vec<char> = Vec::new();
    let mut i = start;
    while i < t
        invariant
            start <= i <= t <= cs@.len(),
            name@ == cs@.subrange(start as int, i as int),
        decreases t - i,
    {
        name.push(cs[i]);
        i = i + 1;
    }
    proof {
        if a == 0 && t >= 2 && cs@[1] == ':' {
            assert(cs@.subrange(0, t as int).subrange(2, t as int) == cs@.subrange(2, t as int));
        }
        assert(name@ == spec_last_component(p@));
    }
    let dot = chars_of(".");
    let dotdot = chars_of("..");
    if name.len() == 0 || chars_eq(name.as_slice(), dot.as_slice()) || chars_eq(
        name.as_slice(),
        dotdot.as_slice(),
    ) {
        None
    } else {
        Some(string_from_chars(name.as_slice()))
    }
}

/// Index of the last `.` of `n`, if any.
fn last_dot(n: &[char]) -> (r: Option<usize>)
    ensures
        r matches Some(k) ==> k as int == spec_last_dot(n@) && k < n@.len(),
        r is None ==> spec_last_dot(n@) == -1,
{
    let mut k = n.len();
    assert(n@.subrange(0, k as int) == n@);
    while k > 0 && n[k - 1] != '.'
        invariant
            k <= n@.len(),
            spec_last_dot(n@) == spec_last_dot(n@.subrange(0, k as int)),
        decreases k,
    {
        assert(n@.subrange(0, k as int).drop_last() == n@.subrange(0, k - 1));
        k = k - 1;
    }
    if k == 0 {
        assert(n@.subrange(0, 0).len() == 0);
        None
    } else {
        assert(n@.subrange(0, k as int).last() == n@[k - 1]);
        Some(k - 1)
    }
}

/// Stem and extension of a file name (see `spec_stem`, `spec_extension`).
pub fn stem_and_extension(n: &[char]) -> (r: (Vec<char>, Option<Vec<char>>))
    ensures
        r.0@ == spec_stem(n@),
        r.1 matches Some(e) ==> spec_extension(n@) == Some(e@),
        r.1 is None ==> spec_extension(n@) is None,
{
    let dd = chars_of("..");
    let is_dotdot = chars_eq(n, dd.as_slice());
    match last_dot(n) {
        Some(k) if k > 0 && !is_dotdot => {
            let mut stem: Vec<char> = Vec::new();
            let mut i: usize = 0;
            while i < k
                invariant
                    k < n@.len(),
                    i <= k,
                    stem@ == n@.subrange(0, i as int),
                decreases k - i,
            {
                stem.push(n[i]);
                i = i + 1;
            }
            let mut ext: Vec<char> = Vec::new();
            let nlen = n.len();
            let mut j = k + 1;
            while j < n.len()
                invariant
                    k + 1 <= j <= n@.len(),
                    ext@ == n@.subrange(k + 1, j as int),
                decreases n@.len() - j,
            {
                ext.push(n[j]);
                j = j + 1;
            }
            (stem, Some(ext))
        },
        _ => {
            let mut all: Vec<char> = Vec::new();
            let mut i: usize = 0;
            while i < n.len()
                invariant
                    i <= n@.len(),
                    all@ == n@.subrange(0, i as int),
                decreases n@.len() - i,
            {
                all.push(n[i]);
                i = i + 1;
            }
            assert(n@.subrange(0, n@.len() as int) == n@);
            (all, None)
        },
    }
}

/// Stem of a path's file name (empty when the path names no file).
pub open spec fn spec_path_stem(p: Seq<char>) -> Seq<char> {
    match spec_file_name(p) {
        Some(n) => spec_stem(n),
        None => Seq::empty(),
    }
}

/// The directory part of a path, kept with its final separator, so that a
/// file name appended to it names a file in the same directory: everything
/// up to the last separator (trailing separators aside), or the drive of a
/// drive-relative name, or nothing for a bare name.
pub open spec fn spec_dir_prefix(p: Seq<char>) -> Seq<char> {
    let t = spec_trim_trailing_seps(p);
    let a = spec_after_last_sep(t);
    if a == 0 && t.len() >= 2 && t[1] == ':' {
        t.subrange(0, 2)
    } else {
        t.subrange(0, a)
    }
}

/// Stem of a path's file name (see `spec_path_stem`).
pub fn path_stem(p: &str) -> (r: String)
    ensures
        r@ == spec_path_stem(p@),
{
    match file_name(p) {
        Some(n) => {
            let cs = chars_of(n.as_str());
            let (stem, _) = stem_and_extension(cs.as_slice());
            string_from_chars(stem.as_slice())
        },
        None => String::new(),
    }
}

/// The directory part of a path (see `spec_dir_prefix`).
pub fn dir_prefix(p: &str) -> (r: String)
    ensures
        r@ == spec_dir_prefix(p@),
{
    let cs = chars_of(p);
    let t = trimmed_len(cs.as_slice());
    let a = after_last_sep(cs.as_slice(), t);
    let end = if a == 0 && t >= 2 && cs[1] == ':' {
        2
    } else {
        a
    };
    let mut out: Vec<char> = Vec::new();
    let mut i: usize = 0;
    while i < end
        invariant
            i <= end <= t <= cs@.len(),
            out@ == cs@.subrange(0, i as int),
        decreases end - i,
    {
        out.push(cs[i]);
        i = i + 1;
    }
    proof {
        let tt = cs@.subrange(0, t as int);
        assert(tt.subrange(0, end as int) == cs@.subrange(0, end as int));
    }
    string_from_chars(out.as_slice())
}

/// Whether `p` is a bare drive prefix such as `C:`.
pub open spec fn spec_is_bare_drive(p: Seq<char>) -> bool {
    p.len() == 2 && p[1] == ':' && (('a' <= p[0] && p[0] <= 'z') || ('A' <= p[0] && p[0] <= 'Z'))
}

/// `Path::join` of a relative `name` onto `dir`, Windows style: `name`
/// alone when `dir` is empty, `dir` followed by `name` when `dir` ends with a
/// separator or is a bare drive (`C:`), else `dir`, `\` and `name`.
pub open spec fn spec_join_name(dir: Seq<char>, name: Seq<char>) -> Seq<char> {
    if dir.len() == 0 || spec_is_sep(dir.last()) || spec_is_bare_drive(dir) {
        dir + name
    } else {
        dir + seq!['\\'] + name
    }
}

/// `name` joined onto `dir` (see `spec_join_name`).
pub fn join_name(dir: &str, name: &str) -> (r: String)
    ensures
        r@ == spec_join_name(dir@, name@),
{
    let d = chars_of(dir);
    let n = d.len();
    let bare_drive = n == 2 && d[1] == ':' && (('a' <= d[0] && d[0] <= 'z') || ('A' <= d[0] && d[0] <= 'Z'));
    let mut out: Vec<char> = d.clone();
    if !(n == 0 || d[n - 1] == '/' || d[n - 1] == '\\' || bare_drive) {
        out.push('\\');
    }
    let m = chars_of(name);
    let mut i: usize = 0;
    let ghost start = out@;
    while i < m.len()
        invariant
            i <= m@.len(),
            out@ == start + m@.subrange(0, i as int),
        decreases m@.len() - i,
    {
        out.push(m[i]);
        i = i + 1;
        proof {
            assert(m@.subrange(0, i as int) == m@.subrange(0, i - 1).push(m@[i - 1]));
        }
    }
    proof {
        assert(m@.subrange(0, m@.len() as int) =~= m@);
        if n == 0 || spec_is_sep(dir@.last()) || spec_is_bare_drive(dir@) {
            assert(start =~= dir@);
        } else {
            assert(start =~= dir@ + seq!['\\']);
        }
        assert(out@ =~= spec_join_name(dir@, name@));
    }
    string_from_chars(out.as_slice())
}

} // verus!
