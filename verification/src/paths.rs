//! File paths as text, with the meaning that `std::path` gives them on Unix:
//! components are separated by `/`, empty components and `.` components after
//! the first are skipped, and the file name is the last component unless that
//! is `..` or there is none.
use vstd::prelude::*;

use crate::text::{chars_of, push_range, push_str, string_of};

verus! {

/// The start of the component that ends at `e`.
pub open spec fn seg_start(s: Seq<char>, e: int) -> int
    decreases e,
{
    if e <= 0 {
        0
    } else if s[e - 1] == '/' {
        e
    } else {
        seg_start(s, e - 1)
    }
}

/// The bounds of the last component before `e` that is neither empty nor `.`.
pub open spec fn last_normal(s: Seq<char>, e: int) -> Option<(int, int)>
    decreases e,
{
    if e <= 0 || e > s.len() {
        None
    } else {
        let st = seg_start(s, e);
        proof {
            lemma_seg_start(s, e);
        }
        if st >= e || s.subrange(st, e) == seq!['.'] {
            if st <= 0 {
                None
            } else {
                last_normal(s, st - 1)
            }
        } else {
            Some((st, e))
        }
    }
}

/// The bounds of the file name of `s`, if it has one.
pub open spec fn file_name_bounds(s: Seq<char>) -> Option<(int, int)> {
    match last_normal(s, s.len() as int) {
        Some((a, b)) => if s.subrange(a, b) == seq!['.', '.'] {
            None
        } else {
            Some((a, b))
        },
        None => None,
    }
}

/// `Path::file_name`.
pub open spec fn file_name(s: Seq<char>) -> Option<Seq<char>> {
    match file_name_bounds(s) {
        Some((a, b)) => Some(s.subrange(a, b)),
        None => None,
    }
}

/// The index of the last `.` in `f` before `e`.
pub open spec fn last_dot(f: Seq<char>, e: int) -> Option<int>
    decreases e,
{
    if e <= 0 {
        None
    } else if f[e - 1] == '.' {
        Some(e - 1)
    } else {
        last_dot(f, e - 1)
    }
}

/// Where the extension of a file name starts: after its last `.`, unless that
/// `.` is the first character.
pub open spec fn ext_dot(f: Seq<char>) -> Option<int> {
    match last_dot(f, f.len() as int) {
        Some(d) => if d == 0 {
            None
        } else {
            Some(d)
        },
        None => None,
    }
}

/// `Path::extension`.
pub open spec fn extension(s: Seq<char>) -> Option<Seq<char>> {
    match file_name(s) {
        Some(f) => match ext_dot(f) {
            Some(d) => Some(f.subrange(d + 1, f.len() as int)),
            None => None,
        },
        None => None,
    }
}

/// `Path::with_extension`: the path cut after the file stem, then `.ext` unless
/// `ext` is empty; a path without a file name is kept.
pub open spec fn with_extension(s: Seq<char>, ext: Seq<char>) -> Seq<char> {
    match file_name_bounds(s) {
        Some((a, b)) => {
            let f = s.subrange(a, b);
            let stem_end = match ext_dot(f) {
                Some(d) => a + d,
                None => b,
            };
            if ext.len() == 0 {
                s.subrange(0, stem_end)
            } else {
                s.subrange(0, stem_end).push('.') + ext
            }
        },
        None => s,
    }
}

/// `PathBuf::push`: an absolute `p` replaces `base`; otherwise `p` is added
/// after a `/` unless `base` is empty or already ends with one.
pub open spec fn join(base: Seq<char>, p: Seq<char>) -> Seq<char> {
    if p.len() > 0 && p[0] == '/' {
        p
    } else if base.len() == 0 || base.last() == '/' {
        base + p
    } else {
        base.push('/') + p
    }
}

pub proof fn lemma_seg_start(s: Seq<char>, e: int)
    requires
        0 <= e <= s.len(),
    ensures
        0 <= seg_start(s, e) <= e,
        seg_start(s, e) > 0 ==> s[seg_start(s, e) - 1] == '/',
        forall|k: int| seg_start(s, e) <= k < e ==> s[k] != '/',
    decreases e,
{
    if e > 0 && s[e - 1] != '/' {
        lemma_seg_start(s, e - 1);
    }
}

/// A single component that is neither `.` nor `..` is its own file name.
pub proof fn lemma_single_component_file_name(s: Seq<char>)
    requires
        s.len() > 0,
        forall|k: int| 0 <= k < s.len() ==> s[k] != '/',
        s != seq!['.'],
        s != seq!['.', '.'],
    ensures
        file_name(s) == Some(s),
{
    lemma_seg_start(s, s.len() as int);
    let st = seg_start(s, s.len() as int);
    if st > 0 {
        assert(s[st - 1] == '/');
    }
    assert(st == 0);
    assert(s.subrange(0, s.len() as int) == s);
}

/// An extension is a piece of the path it was read from.
pub proof fn lemma_extension_within(s: Seq<char>)
    ensures
        extension(s) matches Some(e) ==> exists|a: int, b: int|
            0 <= a <= b <= s.len() && e == #[trigger] s.subrange(a, b),
{
    lemma_last_normal(s, s.len() as int);
    if let Some((a, b)) = file_name_bounds(s) {
        let f = s.subrange(a, b);
        lemma_last_dot(f, f.len() as int);
        if let Some(d) = ext_dot(f) {
            assert(f.subrange(d + 1, f.len() as int) =~= s.subrange(a + d + 1, b));
        }
    }
}

pub proof fn lemma_last_normal(s: Seq<char>, e: int)
    requires
        0 <= e <= s.len(),
    ensures
        last_normal(s, e) matches Some((a, b)) ==> 0 <= a < b <= e,
    decreases e,
{
    if e > 0 {
        lemma_seg_start(s, e);
        let st = seg_start(s, e);
        if st >= e || s.subrange(st, e) == seq!['.'] {
            if st > 0 {
                lemma_last_normal(s, st - 1);
            }
        }
    }
}

pub proof fn lemma_last_dot(f: Seq<char>, e: int)
    requires
        0 <= e <= f.len(),
    ensures
        last_dot(f, e) matches Some(d) ==> 0 <= d < e && f[d] == '.',
    decreases e,
{
    if e > 0 && f[e - 1] != '.' {
        lemma_last_dot(f, e - 1);
    }
}

fn seg_start_at(s: &[char], e: usize) -> (st: usize)
    requires
        e <= s@.len(),
    ensures
        st == seg_start(s@, e as int),
{
    let mut i = e;
    while i > 0 && s[i - 1] != '/'
        invariant
            i <= e <= s@.len(),
            seg_start(s@, i as int) == seg_start(s@, e as int),
        decreases i,
    {
        i = i - 1;
    }
    i
}

fn last_normal_at(s: &[char]) -> (r: Option<(usize, usize)>)
    ensures
        match r {
            Some((a, b)) => last_normal(s@, s@.len() as int) == Some((a as int, b as int)),
            None => last_normal(s@, s@.len() as int) is None,
        },
{
    let mut e = s.len();
    loop
        invariant
            e <= s@.len(),
            last_normal(s@, e as int) == last_normal(s@, s@.len() as int),
        decreases e,
    {
        if e == 0 {
            return None;
        }
        proof {
            lemma_seg_start(s@, e as int);
        }
        let st = seg_start_at(s, e);
        let dot_only = e - st == 1 && s[st] == '.';
        let ghost g = s@.subrange(st as int, e as int);
        assert(dot_only == (st < e && g == seq!['.'])) by {
            if st < e && g == seq!['.'] {
                assert(g.len() == 1);
                assert(g[0] == s@[st as int]);
            }
            if dot_only {
                assert(g =~= seq!['.']);
            }
        }
        if st >= e || dot_only {
            if st == 0 {
                return None;
            }
            e = st - 1;
        } else {
            return Some((st, e));
        }
    }
}

fn file_name_at(s: &[char]) -> (r: Option<(usize, usize)>)
    ensures
        match r {
            Some((a, b)) => a < b <= s@.len() && file_name_bounds(s@) == Some((a as int, b as int)),
            None => file_name_bounds(s@) is None,
        },
{
    proof {
        lemma_last_normal(s@, s@.len() as int);
    }
    match last_normal_at(s) {
        Some((a, b)) => {
            let dots = b - a == 2 && s[a] == '.' && s[a + 1] == '.';
            let ghost f = s@.subrange(a as int, b as int);
            assert(dots == (f == seq!['.', '.'])) by {
                if f == seq!['.', '.'] {
                    assert(f.len() == 2);
                    assert(f[0] == s@[a as int]);
                    assert(f[1] == s@[a + 1]);
                }
                if dots {
                    assert(f =~= seq!['.', '.']);
                }
            }
            if dots {
                None
            } else {
                Some((a, b))
            }
        },
        None => None,
    }
}

/// The position in `s` of the extension dot of the file name `s[a..b]`.
fn ext_dot_at(s: &[char], a: usize, b: usize) -> (r: Option<usize>)
    requires
        a <= b <= s@.len(),
    ensures
        match r {
            Some(d) => a < d < b && ext_dot(s@.subrange(a as int, b as int)) == Some(d - a),
            None => ext_dot(s@.subrange(a as int, b as int)) is None,
        },
{
    let ghost f = s@.subrange(a as int, b as int);
    let mut e = b;
    while e > a && s[e - 1] != '.'
        invariant
            a <= e <= b <= s@.len(),
            f == s@.subrange(a as int, b as int),
            last_dot(f, e - a) == last_dot(f, f.len() as int),
        decreases e,
    {
        e = e - 1;
    }
    if e == a {
        None
    } else if e - 1 == a {
        None
    } else {
        Some(e - 1)
    }
}

/// `Path::file_name`, as text.
pub fn file_name_of(s: &str) -> (r: Option<String>)
    ensures
        match r {
            Some(f) => file_name(s@) == Some(f@),
            None => file_name(s@) is None,
        },
{
    let v = chars_of(s);
    match file_name_at(v.as_slice()) {
        Some((a, b)) => Some(string_of(v.as_slice(), a, b)),
        None => None,
    }
}

/// `Path::extension`, as text.
pub fn extension_of(s: &str) -> (r: Option<String>)
    ensures
        match r {
            Some(x) => extension(s@) == Some(x@),
            None => extension(s@) is None,
        },
{
    let v = chars_of(s);
    match file_name_at(v.as_slice()) {
        Some((a, b)) => {
            proof {
                lemma_last_normal(v@, v@.len() as int);
            }
            match ext_dot_at(v.as_slice(), a, b) {
                Some(d) => {
                    assert(v@.subrange(a as int, b as int).subrange(d - a + 1, b - a) =~= v@.subrange(
                        d + 1,
                        b as int,
                    ));
                    Some(string_of(v.as_slice(), d + 1, b))
                },
                None => None,
            }
        },
        None => None,
    }
}

/// `Path::with_extension`, as text.
pub fn with_extension_of(s: &str, ext: &str) -> (r: String)
    ensures
        r@ == with_extension(s@, ext@),
{
    let v = chars_of(s);
    match file_name_at(v.as_slice()) {
        Some((a, b)) => {
            proof {
                lemma_last_normal(v@, v@.len() as int);
            }
            let stem_end = match ext_dot_at(v.as_slice(), a, b) {
                Some(d) => d,
                None => b,
            };
            let mut out = string_of(v.as_slice(), 0, stem_end);
            if !ext.is_empty() {
                out.push('.');
                push_str(&mut out, ext);
            }
            out
        },
        None => String::from_str(s),
    }
}

/// `PathBuf::push`, as text.
pub fn join_path(base: &str, p: &str) -> (r: String)
    ensures
        r@ == join(base@, p@),
{
    let pv = chars_of(p);
    if pv.len() > 0 && pv[0] == '/' {
        return String::from_str(p);
    }
    let bv = chars_of(base);
    let mut out = String::from_str(base);
    if bv.len() > 0 && bv[bv.len() - 1] != '/' {
        out.push('/');
    }
    push_range(&mut out, pv.as_slice(), 0, pv.len());
    assert(pv@.subrange(0, pv@.len() as int) == pv@);
    out
}

pub fn is_absolute_path(p: &str) -> (b: bool)
    ensures
        b == (p@.len() > 0 && p@[0] == '/'),
{
    let v = chars_of(p);
    v.len() > 0 && v[0] == '/'
}

} // verus!
