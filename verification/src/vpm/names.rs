//! Names, URLs and file paths of the package manager.
use vstd::prelude::*;

use crate::paths::{extension, extension_of, file_name, file_name_of, join, join_path, with_extension, with_extension_of};
use crate::text::{
    alnum, all_chars, chars_of, ends_with, is_alnum, is_blank, lower, map_chars, push_range,
    push_str, starts_with, str_starts_with, to_lower, trim, trim_bounds, trim_end_char,
    trim_start_char, trim_start_seq,
};

verus! {

// ---------------------------------------------------------------------------
// Package names
// ---------------------------------------------------------------------------

pub open spec fn is_name_char(c: char) -> bool {
    is_alnum(c) || c == '-' || c == '_'
}

/// The complaint about a package name, if any.
pub open spec fn package_name_error(name: Seq<char>) -> Option<Seq<char>> {
    if name.len() == 0 {
        Some("Package name cannot be empty"@)
    } else if !(forall|i: int| 0 <= i < name.len() ==> is_name_char(#[trigger] name[i])) {
        Some("Package name may only contain letters, numbers, '-' and '_'"@)
    } else {
        None
    }
}

/// A package name is non-empty and made of ASCII letters, digits, `-` and `_`.
pub fn validate_package_name(name: &str) -> (r: Result<(), String>)
    ensures
        match r {
            Ok(_) => package_name_error(name@) is None,
            Err(e) => package_name_error(name@) == Some(e@),
        },
{
    let v = chars_of(name);
    if v.len() == 0 {
        return Err(String::from_str("Package name cannot be empty"));
    }
    let mut i: usize = 0;
    while i < v.len()
        invariant
            v@ == name@,
            i <= v@.len(),
            forall|j: int| 0 <= j < i ==> is_name_char(#[trigger] v@[j]),
        decreases v.len() - i,
    {
        let c = v[i];
        if !(alnum(c) || c == '-' || c == '_') {
            assert(!is_name_char(name@[i as int]));
            return Err(String::from_str("Package name may only contain letters, numbers, '-' and '_'"));
        }
        i = i + 1;
    }
    Ok(())
}

// ---------------------------------------------------------------------------
// npm names
// ---------------------------------------------------------------------------

pub open spec fn encode_char(c: char) -> Seq<char> {
    if c == '/' {
        "%2f"@
    } else {
        seq![c]
    }
}

/// A scoped npm name with its `/` escaped for a registry URL.
pub fn encode_npm_name(name: &str) -> (r: String)
    ensures
        r@ == map_chars(name@, |c: char| encode_char(c)),
{
    let v = chars_of(name);
    let mut out = String::new();
    let mut i: usize = 0;
    while i < v.len()
        invariant
            v@ == name@,
            i <= v@.len(),
            out@ == map_chars(v@.take(i as int), |c: char| encode_char(c)),
        decreases v.len() - i,
    {
        proof {
            crate::text::lemma_map_chars_push(v@, |c: char| encode_char(c), i as int);
        }
        if v[i] == '/' {
            out.append("%2f");
        } else {
            out.push(v[i]);
        }
        i = i + 1;
    }
    assert(v@.take(v@.len() as int) == v@);
    out
}

/// The characters kept from a name, lower-cased, with each run of other
/// characters replaced by one `_`; `sep` says whether the previous character
/// was such a replacement.
pub open spec fn squash(s: Seq<char>, cache: bool, sep: bool) -> Seq<char>
    decreases s.len(),
{
    if s.len() == 0 {
        Seq::empty()
    } else if keeps(cache, s[0]) {
        seq![lower(s[0])] + squash(s.drop_first(), cache, false)
    } else if !sep {
        seq!['_'] + squash(s.drop_first(), cache, true)
    } else {
        squash(s.drop_first(), cache, true)
    }
}

/// What is kept of a name: for cache directories also `-`, `_` and `.`.
pub open spec fn keeps(cache: bool, c: char) -> bool {
    if cache {
        cache_keep(c)
    } else {
        void_keep(c)
    }
}

pub open spec fn cache_keep(c: char) -> bool {
    is_alnum(c) || c == '-' || c == '_' || c == '.'
}

pub open spec fn void_keep(c: char) -> bool {
    is_alnum(c)
}

/// `squash` over `s[i..]`, with the exec loop's state.
pub(crate) fn squash_into(out: &mut String, s: &[char], i: usize, cache: bool, sep: bool)
    requires
        i <= s@.len(),
    ensures
        final(out)@ == old(out)@ + squash(s@.subrange(i as int, s@.len() as int), cache, sep),
{
    let mut k = i;
    let mut last_was_sep = sep;
    while k < s.len()
        invariant
            i <= k <= s@.len(),
            old(out)@ + squash(s@.subrange(i as int, s@.len() as int), cache, sep) == out@
                + squash(s@.subrange(k as int, s@.len() as int), cache, last_was_sep),
        decreases s.len() - k,
    {
        let c = s[k];
        let ghost rest = s@.subrange(k as int, s@.len() as int);
        assert(rest.drop_first() == s@.subrange(k + 1, s@.len() as int));
        assert(rest[0] == c);
        let kept = if cache {
            alnum(c) || c == '-' || c == '_' || c == '.'
        } else {
            alnum(c)
        };
        if kept {
            out.push(to_lower(c));
            last_was_sep = false;
        } else if !last_was_sep {
            out.push('_');
            last_was_sep = true;
        }
        k = k + 1;
    }
    assert(s@.subrange(s@.len() as int, s@.len() as int) =~= Seq::<char>::empty());
}

pub open spec fn trim_char(s: Seq<char>, c: char) -> Seq<char> {
    trim_end_char(trim_start_char(s, c), c)
}

/// `s` with leading and trailing `c` removed, as bounds.
pub(crate) fn trim_char_bounds(v: &[char], c: char) -> (r: (usize, usize))
    ensures
        r.0 <= r.1 <= v@.len(),
        v@.subrange(r.0 as int, r.1 as int) == trim_char(v@, c),
{
    let mut lo: usize = 0;
    assert(v@.subrange(0, v@.len() as int) == v@);
    while lo < v.len() && v[lo] == c
        invariant
            lo <= v@.len(),
            trim_start_char(v@.subrange(lo as int, v@.len() as int), c) == trim_start_char(v@, c),
        decreases v.len() - lo,
    {
        assert(v@.subrange(lo as int, v@.len() as int).drop_first() == v@.subrange(
            lo + 1,
            v@.len() as int,
        ));
        lo = lo + 1;
    }
    proof {
        assert(v@.subrange(0, v@.len() as int) == v@);
    }
    let ghost t = v@.subrange(lo as int, v@.len() as int);
    assert(trim_start_char(t, c) == t);
    let mut hi = v.len();
    while hi > lo && v[hi - 1] == c
        invariant
            lo <= hi <= v@.len(),
            trim_end_char(v@.subrange(lo as int, hi as int), c) == trim_end_char(t, c),
        decreases hi,
    {
        assert(v@.subrange(lo as int, hi as int).drop_last() == v@.subrange(lo as int, hi - 1));
        hi = hi - 1;
    }
    assert(trim_end_char(v@.subrange(lo as int, hi as int), c) == v@.subrange(
        lo as int,
        hi as int,
    ));
    (lo, hi)
}

/// The cache directory name of an npm package or version: lower-cased, other
/// characters squashed to `_`, no `_` at either end, `pkg` when nothing is left.
pub open spec fn cache_segment(value: Seq<char>) -> Seq<char> {
    let t = trim_char(squash(value, true, false), '_');
    if t.len() == 0 {
        "pkg"@
    } else {
        t
    }
}

pub fn sanitize_cache_segment(value: &str) -> (r: String)
    ensures
        r@ == cache_segment(value@),
{
    let v = chars_of(value);
    let mut out = String::new();
    squash_into(&mut out, v.as_slice(), 0, true, false);
    assert(v@.subrange(0, v@.len() as int) == v@);
    let ov = chars_of(out.as_str());
    let (lo, hi) = trim_char_bounds(ov.as_slice(), '_');
    if lo == hi {
        String::from_str("pkg")
    } else {
        crate::text::string_of(ov.as_slice(), lo, hi)
    }
}

/// The Void package name for an npm package: `npm_` and the squashed name,
/// without trailing `_`; `npm_pkg` when nothing of the name is left.
pub open spec fn void_name_for(name: Seq<char>) -> Seq<char> {
    let t = trim_end_char("npm_"@ + squash(name, false, false), '_');
    if t == "npm"@ || t == "npm_"@ {
        "npm_pkg"@
    } else {
        t
    }
}

fn trim_end_bound(v: &[char], c: char) -> (hi: usize)
    ensures
        hi <= v@.len(),
        v@.subrange(0, hi as int) == trim_end_char(v@, c),
{
    let mut hi = v.len();
    assert(v@.subrange(0, hi as int) == v@);
    while hi > 0 && v[hi - 1] == c
        invariant
            hi <= v@.len(),
            trim_end_char(v@.subrange(0, hi as int), c) == trim_end_char(v@, c),
        decreases hi,
    {
        assert(v@.subrange(0, hi as int).drop_last() == v@.subrange(0, hi - 1));
        hi = hi - 1;
    }
    hi
}

fn chars_equal(v: &[char], lo: usize, hi: usize, w: &str) -> (b: bool)
    requires
        lo <= hi <= v@.len(),
    ensures
        b == (v@.subrange(lo as int, hi as int) == w@),
{
    let s = crate::text::string_of(v, lo, hi);
    crate::text::str_eq(s.as_str(), w)
}

pub fn npm_name_to_void_name(name: &str) -> (r: String)
    ensures
        r@ == void_name_for(name@),
{
    let v = chars_of(name);
    let mut out = String::from_str("npm_");
    squash_into(&mut out, v.as_slice(), 0, false, false);
    assert(v@.subrange(0, v@.len() as int) == v@);
    let ov = chars_of(out.as_str());
    let hi = trim_end_bound(ov.as_slice(), '_');
    if chars_equal(ov.as_slice(), 0, hi, "npm") || chars_equal(ov.as_slice(), 0, hi, "npm_") {
        String::from_str("npm_pkg")
    } else {
        crate::text::string_of(ov.as_slice(), 0, hi)
    }
}

// ---------------------------------------------------------------------------
// Quoting
// ---------------------------------------------------------------------------

/// A backslash or a double quote gets a backslash in front.
pub open spec fn escape_char(c: char) -> Seq<char> {
    if c == '\\' {
        seq!['\\', '\\']
    } else if c == '"' {
        seq!['\\', '"']
    } else {
        seq![c]
    }
}

pub open spec fn escaped(s: Seq<char>) -> Seq<char> {
    map_chars(s, |c: char| escape_char(c))
}

fn escape_quoted(value: &str) -> (r: String)
    ensures
        r@ == escaped(value@),
{
    let v = chars_of(value);
    let mut out = String::new();
    let mut i: usize = 0;
    while i < v.len()
        invariant
            v@ == value@,
            i <= v@.len(),
            out@ == map_chars(v@.take(i as int), |c: char| escape_char(c)),
        decreases v.len() - i,
    {
        proof {
            crate::text::lemma_map_chars_push(v@, |c: char| escape_char(c), i as int);
        }
        let c = v[i];
        if c == '\\' || c == '"' {
            out.push('\\');
        }
        out.push(c);
        i = i + 1;
    }
    assert(v@.take(v@.len() as int) == v@);
    out
}

/// The text of a TOML basic string, without its quotes.
pub fn escape_toml_string(value: &str) -> (r: String)
    ensures
        r@ == escaped(value@),
{
    escape_quoted(value)
}

/// The text of a Void string literal, without its quotes.
pub fn escape_void_string(value: &str) -> (r: String)
    ensures
        r@ == escaped(value@),
{
    escape_quoted(value)
}

// ---------------------------------------------------------------------------
// Registry and repository URLs
// ---------------------------------------------------------------------------

/// A registry URL without its trailing slashes.
pub fn normalize_registry(input: &str) -> (r: String)
    ensures
        r@ == trim_end_char(input@, '/'),
{
    let v = chars_of(input);
    let hi = trim_end_bound(v.as_slice(), '/');
    crate::text::string_of(v.as_slice(), 0, hi)
}

pub open spec fn absolute_url(registry: Seq<char>, url: Seq<char>) -> Seq<char> {
    if starts_with(url, "http://"@) || starts_with(url, "https://"@) {
        url
    } else {
        trim_end_char(registry, '/').push('/') + trim_start_char(url, '/')
    }
}

/// A tarball URL as given, or resolved against the registry when relative.
pub fn absolute_url_from_registry(registry: &str, url: &str) -> (r: String)
    ensures
        r@ == absolute_url(registry@, url@),
{
    if str_starts_with(url, "http://") || str_starts_with(url, "https://") {
        return String::from_str(url);
    }
    let mut out = normalize_registry(registry);
    out.push('/');
    let v = chars_of(url);
    let mut lo: usize = 0;
    assert(v@.subrange(0, v@.len() as int) == v@);
    while lo < v.len() && v[lo] == '/'
        invariant
            v@ == url@,
            lo <= v@.len(),
            trim_start_char(v@.subrange(lo as int, v@.len() as int), '/') == trim_start_char(
                url@,
                '/',
            ),
        decreases v.len() - lo,
    {
        assert(v@.subrange(lo as int, v@.len() as int).drop_first() == v@.subrange(
            lo + 1,
            v@.len() as int,
        ));
        lo = lo + 1;
    }
    proof {
        assert(v@.subrange(0, v@.len() as int) == v@);
    }
    push_range(&mut out, v.as_slice(), lo, v.len());
    out
}

pub open spec fn repo_url(input: Seq<char>) -> Seq<char> {
    let t = trim(input);
    if starts_with(t, "git+"@) {
        t.subrange(4, t.len() as int)
    } else if starts_with(t, "github:"@) {
        "https://github.com/"@ + trim_start_char(t.subrange(7, t.len() as int), '/')
    } else {
        t
    }
}

/// A repository URL that `git clone` takes: `git+` dropped, `github:owner/repo`
/// expanded.
pub fn normalize_repo_clone_url(input: &str) -> (r: String)
    ensures
        r@ == repo_url(input@),
{
    proof {
        reveal_strlit("git+");
        reveal_strlit("github:");
    }
    let t = crate::text::trimmed(input);
    let v = chars_of(t.as_str());
    let git = chars_of("git+");
    let github = chars_of("github:");
    assert(github@.len() == 7);
    assert(git@.len() == 4);
    if crate::text::has_prefix(v.as_slice(), git.as_slice()) {
        return crate::text::string_of(v.as_slice(), 4, v.len());
    }
    if crate::text::has_prefix(v.as_slice(), github.as_slice()) {
        let mut out = String::from_str("https://github.com/");
        let mut lo: usize = 7;
        while lo < v.len() && v[lo] == '/'
            invariant
                7 <= lo <= v@.len(),
                trim_start_char(v@.subrange(lo as int, v@.len() as int), '/') == trim_start_char(
                    v@.subrange(7, v@.len() as int),
                    '/',
                ),
            decreases v.len() - lo,
        {
            assert(v@.subrange(lo as int, v@.len() as int).drop_first() == v@.subrange(
                lo + 1,
                v@.len() as int,
            ));
            lo = lo + 1;
        }
        push_range(&mut out, v.as_slice(), lo, v.len());
        return out;
    }
    t
}

// ---------------------------------------------------------------------------
// Entry files of imported npm packages
// ---------------------------------------------------------------------------

pub open spec fn js_extension(e: Seq<char>) -> bool {
    e == "js"@ || e == "mjs"@ || e == "cjs"@ || e == "ts"@ || e == "mts"@ || e == "cts"@ || e
        == "jsx"@ || e == "tsx"@
}

/// Whether a path names JavaScript or TypeScript source.
pub open spec fn js_like(path: Seq<char>) -> bool {
    ||| (file_name(path) matches Some(f) && ends_with(f, ".d.ts"@))
    ||| (extension(path) matches Some(e) && js_extension(e))
}

fn is_one_of_js(e: &str) -> (b: bool)
    ensures
        b == js_extension(e@),
{
    crate::text::str_eq(e, "js") || crate::text::str_eq(e, "mjs") || crate::text::str_eq(e, "cjs")
        || crate::text::str_eq(e, "ts") || crate::text::str_eq(e, "mts") || crate::text::str_eq(
        e,
        "cts",
    ) || crate::text::str_eq(e, "jsx") || crate::text::str_eq(e, "tsx")
}

pub fn is_js_like_source(path: &str) -> (b: bool)
    ensures
        b == js_like(path@),
{
    if let Some(f) = file_name_of(path) {
        if crate::text::str_ends_with(f.as_str(), ".d.ts") {
            return true;
        }
    }
    match extension_of(path) {
        Some(e) => is_one_of_js(e.as_str()),
        None => false,
    }
}

pub open spec fn slash_char(c: char) -> Seq<char> {
    if c == '\\' {
        seq!['/']
    } else {
        seq![c]
    }
}

/// `s` with backslashes turned into slashes.
pub open spec fn forward_slashes(s: Seq<char>) -> Seq<char> {
    map_chars(s, |c: char| slash_char(c))
}

pub(crate) fn to_forward_slashes(value: &str) -> (r: String)
    ensures
        r@ == forward_slashes(value@),
{
    let v = chars_of(value);
    let mut out = String::new();
    let mut i: usize = 0;
    while i < v.len()
        invariant
            v@ == value@,
            i <= v@.len(),
            out@ == map_chars(v@.take(i as int), |c: char| slash_char(c)),
        decreases v.len() - i,
    {
        proof {
            crate::text::lemma_map_chars_push(v@, |c: char| slash_char(c), i as int);
        }
        if v[i] == '\\' {
            out.push('/');
        } else {
            out.push(v[i]);
        }
        i = i + 1;
    }
    assert(v@.take(v@.len() as int) == v@);
    out
}

fn strip_dot_slashes(value: &str) -> (r: String)
    ensures
        r@ == trim_start_seq(value@, "./"@),
{
    proof {
        reveal_strlit("./");
    }
    let v = chars_of(value);
    let mut lo: usize = 0;
    assert(v@.subrange(0, v@.len() as int) == v@);
    assert("./"@ =~= seq!['.', '/']);
    while v.len() - lo >= 2 && v[lo] == '.' && v[lo + 1] == '/'
        invariant
            v@ == value@,
            lo <= v@.len(),
            "./"@ == seq!['.', '/'],
            trim_start_seq(v@.subrange(lo as int, v@.len() as int), "./"@) == trim_start_seq(
                value@,
                "./"@,
            ),
        decreases v.len() - lo,
    {
        let ghost r = v@.subrange(lo as int, v@.len() as int);
        assert(r.subrange(0, 2) =~= "./"@);
        assert(r.subrange(2, r.len() as int) == v@.subrange(lo + 2, v@.len() as int));
        lo = lo + 2;
    }
    proof {
        let r = v@.subrange(lo as int, v@.len() as int);
        if starts_with(r, "./"@) {
            assert(r.subrange(0, 2)[0] == r[0]);
            assert(r.subrange(0, 2)[1] == r[1]);
            assert(r[0] == v@[lo as int]);
            assert(r[1] == v@[lo + 1]);
            assert(false);
        }
    }
    crate::text::string_of(v.as_slice(), lo, v.len())
}

/// Where the Void entry of a converted npm package is: the package's `main`
/// without leading `./`, with a `.void` extension when it names JavaScript or
/// TypeScript or has no extension, and with forward slashes.
pub open spec fn void_entry_path(main_js: Seq<char>) -> Seq<char> {
    let p = trim_start_seq(main_js, "./"@);
    let converted = if js_like(p) || extension(p) is None {
        with_extension(p, "void"@)
    } else {
        p
    };
    forward_slashes(converted)
}

pub fn npm_main_to_void_path(main_js: &str) -> (r: String)
    ensures
        r@ == void_entry_path(main_js@),
{
    let p = strip_dot_slashes(main_js);
    let converted = if is_js_like_source(p.as_str()) || extension_of(p.as_str()).is_none() {
        with_extension_of(p.as_str(), "void")
    } else {
        p
    };
    to_forward_slashes(converted.as_str())
}

/// Where the JavaScript entry of an npm package is: the package's `main`
/// without leading `./` (`index.js` when that leaves nothing), with a `.js`
/// extension when it has none, and with forward slashes.
pub open spec fn js_entry_path(main_js: Seq<char>) -> Seq<char> {
    let t = trim_start_seq(main_js, "./"@);
    let selected = if t.len() == 0 {
        "index.js"@
    } else {
        t
    };
    let normalized = if extension(selected) is None {
        with_extension(selected, "js"@)
    } else {
        selected
    };
    forward_slashes(normalized)
}

pub fn npm_main_to_js_path(main_js: &str) -> (r: String)
    ensures
        r@ == js_entry_path(main_js@),
{
    let t = strip_dot_slashes(main_js);
    let selected = if t.as_str().is_empty() {
        String::from_str("index.js")
    } else {
        t
    };
    let normalized = if extension_of(selected.as_str()).is_none() {
        with_extension_of(selected.as_str(), "js")
    } else {
        selected
    };
    to_forward_slashes(normalized.as_str())
}

// ---------------------------------------------------------------------------
// Where things are kept
// ---------------------------------------------------------------------------

/// The cache directory of one npm package version under the cache root.
pub open spec fn cache_dir(root: Seq<char>, package: Seq<char>, version: Seq<char>) -> Seq<char> {
    join(join(root, cache_segment(package)), cache_segment(version))
}

pub fn npm_import_cache_dir(root: &str, package: &str, version: &str) -> (r: String)
    ensures
        r@ == cache_dir(root@, package@, version@),
{
    let p = sanitize_cache_segment(package);
    let v = sanitize_cache_segment(version);
    let first = join_path(root, p.as_str());
    join_path(first.as_str(), v.as_str())
}

pub open spec fn set_value(o: Option<&str>) -> Option<Seq<char>> {
    match o {
        Some(s) => if trim(s@).len() > 0 {
            Some(s@)
        } else {
            None
        },
        None => None,
    }
}

fn non_blank(o: Option<&str>) -> (r: Option<&str>)
    ensures
        match r {
            Some(s) => set_value(o) == Some(s@),
            None => set_value(o) is None,
        },
{
    match o {
        Some(s) => if is_blank(s) {
            None
        } else {
            Some(s)
        },
        None => None,
    }
}

/// The root of the npm import cache, from `VPM_CACHE_DIR`, `XDG_CACHE_HOME` and
/// `HOME` in that order (a variable counts when it is not blank).
pub open spec fn cache_root(
    custom: Option<Seq<char>>,
    xdg: Option<Seq<char>>,
    home: Option<Seq<char>>,
) -> Seq<char> {
    if custom is Some {
        join(custom->0, "npm-import"@)
    } else if xdg is Some {
        join(join(xdg->0, "vpm"@), "npm-import"@)
    } else if home is Some {
        join(join(join(home->0, ".cache"@), "vpm"@), "npm-import"@)
    } else {
        join(".vpm-cache"@, "npm-import"@)
    }
}

pub fn npm_import_cache_root(custom: Option<&str>, xdg: Option<&str>, home: Option<&str>) -> (r:
    String)
    ensures
        r@ == cache_root(set_value(custom), set_value(xdg), set_value(home)),
{
    if let Some(c) = non_blank(custom) {
        return join_path(c, "npm-import");
    }
    if let Some(x) = non_blank(xdg) {
        let a = join_path(x, "vpm");
        return join_path(a.as_str(), "npm-import");
    }
    if let Some(h) = non_blank(home) {
        let a = join_path(h, ".cache");
        let b = join_path(a.as_str(), "vpm");
        return join_path(b.as_str(), "npm-import");
    }
    join_path(".vpm-cache", "npm-import")
}

/// Where saved logins are kept, from `VPM_AUTH_FILE` and `HOME` in that order.
pub open spec fn auth_path(custom: Option<Seq<char>>, home: Option<Seq<char>>) -> Seq<char> {
    if custom is Some {
        custom->0
    } else if home is Some {
        join(join(home->0, ".vpm"@), "auth.json"@)
    } else {
        ".vpm-auth.json"@
    }
}

pub fn auth_store_path(custom: Option<&str>, home: Option<&str>) -> (r: String)
    ensures
        r@ == auth_path(set_value(custom), set_value(home)),
{
    if let Some(c) = non_blank(custom) {
        return String::from_str(c);
    }
    if let Some(h) = non_blank(home) {
        let a = join_path(h, ".vpm");
        return join_path(a.as_str(), "auth.json");
    }
    String::from_str(".vpm-auth.json")
}

proof fn lemma_lower_alnum(c: char)
    requires
        is_alnum(c),
    ensures
        is_alnum(lower(c)),
{
    if crate::text::is_upper(c) {
        let x = (c as u32) + 32;
        assert(97 <= x <= 122);
        assert(lower(c) == x as char);
        assert((x as char) as u32 == x);
    }
}

proof fn lemma_squash_name_chars(s: Seq<char>, sep: bool)
    ensures
        forall|i: int|
            0 <= i < squash(s, false, sep).len() ==> is_name_char(#[trigger] squash(s, false, sep)[i]),
    decreases s.len(),
{
    if s.len() > 0 {
        let rest = s.drop_first();
        lemma_squash_name_chars(rest, false);
        lemma_squash_name_chars(rest, true);
        let out = squash(s, false, sep);
        if keeps(false, s[0]) {
            lemma_lower_alnum(s[0]);
            let tail = squash(rest, false, false);
            assert(out == seq![lower(s[0])] + tail);
            assert forall|i: int| 0 <= i < out.len() implies is_name_char(#[trigger] out[i]) by {
                if i > 0 {
                    assert(out[i] == tail[i - 1]);
                } else {
                    assert(out[0] == lower(s[0]));
                }
            }
        } else if !sep {
            let tail = squash(rest, false, true);
            assert(out == seq!['_'] + tail);
            assert forall|i: int| 0 <= i < out.len() implies is_name_char(#[trigger] out[i]) by {
                if i > 0 {
                    assert(out[i] == tail[i - 1]);
                } else {
                    assert(out[0] == '_');
                }
            }
        } else {
            assert(out == squash(rest, false, true));
        }
    }
}

/// What `trim_end_char` leaves is a prefix, and only `c` was cut.
pub proof fn lemma_trim_end_char_prefix(s: Seq<char>, c: char)
    ensures
        trim_end_char(s, c).len() <= s.len(),
        trim_end_char(s, c) == s.subrange(0, trim_end_char(s, c).len() as int),
        forall|j: int| trim_end_char(s, c).len() <= j < s.len() ==> s[j] == c,
    decreases s.len(),
{
    if s.len() > 0 && s.last() == c {
        lemma_trim_end_char_prefix(s.drop_last(), c);
        let t = trim_end_char(s, c);
        assert(t == trim_end_char(s.drop_last(), c));
        assert(t == s.subrange(0, t.len() as int)) by {
            assert(s.drop_last().subrange(0, t.len() as int) =~= s.subrange(0, t.len() as int));
        }
        assert forall|j: int| t.len() <= j < s.len() implies s[j] == c by {
            if j < s.len() - 1 {
                assert(s[j] == s.drop_last()[j]);
            }
        }
    } else {
        assert(s.subrange(0, s.len() as int) == s);
    }
}

/// The Void name derived from any npm name is itself a valid package name.
pub proof fn law_void_names_are_valid(name: Seq<char>)
    ensures
        package_name_error(void_name_for(name)) is None,
{
    reveal_strlit("npm_");
    reveal_strlit("npm_pkg");
    let sq = squash(name, false, false);
    lemma_squash_name_chars(name, false);
    let full = "npm_"@ + sq;
    assert forall|i: int| 0 <= i < full.len() implies is_name_char(#[trigger] full[i]) by {
        if i >= 4 {
            assert(full[i] == sq[i - 4]);
        }
    }
    lemma_trim_end_char_prefix(full, '_');
    let t = trim_end_char(full, '_');
    assert(full[2] == 'm');
    assert(t.len() > 2);
    assert forall|i: int| 0 <= i < t.len() implies is_name_char(#[trigger] t[i]) by {
        assert(t[i] == full[i]);
    }
    let v = void_name_for(name);
    assert(forall|i: int| 0 <= i < v.len() ==> is_name_char(#[trigger] v[i]));
}

/// A tarball URL that already starts with `http://` or `https://` is used
/// as it is, whatever the registry; any other is put under the registry's
/// address, after one `/`.
pub proof fn law_absolute_urls_are_kept(registry: Seq<char>, url: Seq<char>)
    ensures
        starts_with(url, "http://"@) ==> absolute_url(registry, url) == url,
        starts_with(url, "https://"@) ==> absolute_url(registry, url) == url,
        !starts_with(url, "http://"@) && !starts_with(url, "https://"@) ==> starts_with(
            absolute_url(registry, url),
            trim_end_char(registry, '/').push('/'),
        ),
{
    let b = trim_end_char(registry, '/').push('/');
    let r = b + trim_start_char(url, '/');
    assert(r.subrange(0, b.len() as int) =~= b);
}

} // verus!
