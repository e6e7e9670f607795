//! Uploaded package files: their stored names and URLs, their content types,
//! and where they are found again from a tarball URL.
use vstd::prelude::*;

use crate::paths::{extension, extension_of, file_name, file_name_of};
use crate::text::{
    alnum, chars_of, is_alnum, lower, map_chars, matches_at, occurs_at, push_str, starts_with,
    str_eq, str_starts_with, to_lower, trim, trim_end_char, trimmed,
};

verus! {

// ---------------------------------------------------------------------------
// File names
// ---------------------------------------------------------------------------

pub open spec fn filename_char(c: char) -> bool {
    is_alnum(c) || c == '.' || c == '-' || c == '_'
}

pub open spec fn filename_piece(c: char) -> Seq<char> {
    if filename_char(c) {
        seq![c]
    } else {
        Seq::empty()
    }
}

/// A safe file name from a client's: the last path component, trimmed, with
/// everything but ASCII letters, digits, `.`, `-` and `_` dropped; none when
/// nothing is left.
pub open spec fn safe_filename(input: Seq<char>) -> Option<Seq<char>> {
    match file_name(input) {
        None => None,
        Some(f) => {
            let k = map_chars(trim(f), |c: char| filename_piece(c));
            if trim(f).len() == 0 || k.len() == 0 {
                None
            } else {
                Some(k)
            }
        },
    }
}

pub fn sanitize_filename(input: &str) -> (r: Option<String>)
    ensures
        match r {
            Some(s) => safe_filename(input@) == Some(s@),
            None => safe_filename(input@) is None,
        },
{
    let base = match file_name_of(input) {
        Some(f) => f,
        None => return None,
    };
    let t = trimmed(base.as_str());
    let v = chars_of(t.as_str());
    if v.len() == 0 {
        return None;
    }
    let mut out = String::new();
    let mut i: usize = 0;
    while i < v.len()
        invariant
            v@ == t@,
            i <= v@.len(),
            out@ == map_chars(v@.take(i as int), |c: char| filename_piece(c)),
        decreases v.len() - i,
    {
        proof {
            crate::text::lemma_map_chars_push(v@, |c: char| filename_piece(c), i as int);
        }
        let c = v[i];
        if alnum(c) || c == '.' || c == '-' || c == '_' {
            out.push(c);
        }
        i = i + 1;
    }
    assert(v@.take(v@.len() as int) == v@);
    if out.as_str().is_empty() {
        None
    } else {
        Some(out)
    }
}

pub open spec fn slug_piece(c: char) -> Seq<char> {
    if is_alnum(c) {
        seq![lower(c)]
    } else if c == '-' || c == '_' || c == '.' {
        seq!['-']
    } else {
        Seq::empty()
    }
}

/// A name for use in a stored file name: ASCII letters and digits
/// lower-cased, `-`, `_` and `.` as `-`, the rest dropped; `pkg` if empty.
pub open spec fn slug(input: Seq<char>) -> Seq<char> {
    let s = map_chars(input, |c: char| slug_piece(c));
    if s.len() == 0 {
        "pkg"@
    } else {
        s
    }
}

pub fn slugify(input: &str) -> (r: String)
    ensures
        r@ == slug(input@),
{
    let v = chars_of(input);
    let mut out = String::new();
    let mut i: usize = 0;
    while i < v.len()
        invariant
            v@ == input@,
            i <= v@.len(),
            out@ == map_chars(v@.take(i as int), |c: char| slug_piece(c)),
        decreases v.len() - i,
    {
        proof {
            crate::text::lemma_map_chars_push(v@, |c: char| slug_piece(c), i as int);
        }
        let c = v[i];
        if alnum(c) {
            out.push(to_lower(c));
        } else if c == '-' || c == '_' || c == '.' {
            out.push('-');
        }
        i = i + 1;
    }
    assert(v@.take(v@.len() as int) == v@);
    if out.as_str().is_empty() {
        String::from_str("pkg")
    } else {
        out
    }
}

// ---------------------------------------------------------------------------
// Kinds of files
// ---------------------------------------------------------------------------

/// The content type the registry serves a file with, by its extension.
pub open spec fn content_type(ext: Option<Seq<char>>) -> Seq<char> {
    match ext {
        Some(e) => if e == "tgz"@ || e == "gz"@ {
            "application/gzip"@
        } else if e == "zip"@ {
            "application/zip"@
        } else if e == "json"@ {
            "application/json"@
        } else {
            "application/octet-stream"@
        },
        None => "application/octet-stream"@,
    }
}

fn ext_is(ext: &Option<String>, e: &str) -> (b: bool)
    ensures
        b == (ext matches Some(x) && x@ == e@),
{
    match ext {
        Some(x) => str_eq(x.as_str(), e),
        None => false,
    }
}

pub fn content_type_for_path(path: &str) -> (r: &'static str)
    ensures
        r@ == content_type(extension(path@)),
{
    let ext = extension_of(path);
    if ext_is(&ext, "tgz") || ext_is(&ext, "gz") {
        "application/gzip"
    } else if ext_is(&ext, "zip") {
        "application/zip"
    } else if ext_is(&ext, "json") {
        "application/json"
    } else {
        "application/octet-stream"
    }
}

/// The extensions of files shown as text when inspected.
pub open spec fn text_extension(e: Seq<char>) -> bool {
    ||| e == "txt"@
    ||| e == "md"@
    ||| e == "markdown"@
    ||| e == "json"@
    ||| e == "toml"@
    ||| e == "yaml"@
    ||| e == "yml"@
    ||| e == "void"@
    ||| e == "js"@
    ||| e == "mjs"@
    ||| e == "cjs"@
    ||| e == "ts"@
    ||| e == "tsx"@
    ||| e == "jsx"@
    ||| e == "css"@
    ||| e == "html"@
    ||| e == "xml"@
    ||| e == "csv"@
}

pub open spec fn text_like(file_name: Seq<char>) -> bool {
    match extension(file_name) {
        Some(e) => text_extension(e),
        None => false,
    }
}

pub fn is_text_like_file_name(file_name: &str) -> (b: bool)
    ensures
        b == text_like(file_name@),
{
    let ext = match extension_of(file_name) {
        Some(e) => e,
        None => return false,
    };
    let e = ext.as_str();
    str_eq(e, "txt") || str_eq(e, "md") || str_eq(e, "markdown") || str_eq(e, "json") || str_eq(
        e,
        "toml",
    ) || str_eq(e, "yaml") || str_eq(e, "yml") || str_eq(e, "void") || str_eq(e, "js") || str_eq(
        e,
        "mjs",
    ) || str_eq(e, "cjs") || str_eq(e, "ts") || str_eq(e, "tsx") || str_eq(e, "jsx") || str_eq(
        e,
        "css",
    ) || str_eq(e, "html") || str_eq(e, "xml") || str_eq(e, "csv")
}

// ---------------------------------------------------------------------------
// Stored uploads
// ---------------------------------------------------------------------------

/// The extension a stored upload keeps: that of its safe name, else `bin`.
pub open spec fn upload_extension(original: Seq<char>) -> Seq<char> {
    let safe = match safe_filename(original) {
        Some(s) => s,
        None => "package.bin"@,
    };
    match extension(safe) {
        Some(e) => e,
        None => "bin"@,
    }
}

/// The stored name of an upload: `name-version-id.ext`, from the slugs of
/// the package name and version and a fresh identifier.
pub open spec fn stored_upload_name(
    original: Seq<char>,
    package: Seq<char>,
    version: Seq<char>,
    id: Seq<char>,
) -> Seq<char> {
    slug(package) + "-"@ + slug(version) + "-"@ + id + "."@ + upload_extension(original)
}

pub fn upload_file_name(original: &str, package: &str, version: &str, id: &str) -> (r: String)
    ensures
        r@ == stored_upload_name(original@, package@, version@, id@),
{
    let safe = match sanitize_filename(original) {
        Some(s) => s,
        None => String::from_str("package.bin"),
    };
    let ext = match extension_of(safe.as_str()) {
        Some(e) => e,
        None => String::from_str("bin"),
    };
    let mut out = slugify(package);
    push_str(&mut out, "-");
    let v = slugify(version);
    push_str(&mut out, v.as_str());
    push_str(&mut out, "-");
    push_str(&mut out, id);
    push_str(&mut out, ".");
    push_str(&mut out, ext.as_str());
    out
}

/// The public URL of a stored upload.
pub open spec fn upload_url(public_base: Seq<char>, file_name: Seq<char>) -> Seq<char> {
    trim_end_char(public_base, '/') + "/uploads/"@ + file_name
}

pub fn upload_url_for(public_base: &str, file_name: &str) -> (r: String)
    ensures
        r@ == upload_url(public_base@, file_name@),
{
    let mut out = crate::vpm::names::normalize_registry(public_base);
    push_str(&mut out, "/uploads/");
    push_str(&mut out, file_name);
    out
}

// ---------------------------------------------------------------------------
// Finding an upload from a tarball URL
// ---------------------------------------------------------------------------

/// `s` up to the first `c` (all of `s` if there is none).
pub open spec fn before_char(s: Seq<char>, c: char) -> Seq<char>
    decreases s.len(),
{
    if s.len() == 0 {
        s
    } else if s[0] == c {
        Seq::empty()
    } else {
        seq![s[0]] + before_char(s.drop_first(), c)
    }
}

/// The start of the last occurrence of `p` in `s` that starts before `e`.
pub open spec fn last_occurrence(s: Seq<char>, p: Seq<char>, e: int) -> Option<int>
    decreases e,
{
    if e <= 0 {
        None
    } else if occurs_at(s, p, e - 1) {
        Some(e - 1)
    } else {
        last_occurrence(s, p, e - 1)
    }
}

pub open spec fn after(s: Seq<char>, n: int) -> Seq<char> {
    s.subrange(n, s.len() as int)
}

/// The stored upload a tarball URL points at, if it points at one: the URL
/// without query and fragment, after the registry's `/uploads/`, a leading
/// `/uploads/` or `uploads/`, or else its last `/uploads/`, made safe.
pub open spec fn uploaded_name(tarball_url: Seq<char>, registry_url: Seq<char>) -> Option<Seq<char>> {
    let t = before_char(before_char(trim(tarball_url), '?'), '#');
    let prefix = trim_end_char(registry_url, '/') + "/uploads/"@;
    if t.len() == 0 {
        None
    } else if starts_with(t, prefix) {
        safe_filename(after(t, prefix.len() as int))
    } else if starts_with(t, "/uploads/"@) {
        safe_filename(after(t, 9))
    } else if starts_with(t, "uploads/"@) {
        safe_filename(after(t, 8))
    } else {
        match last_occurrence(t, "/uploads/"@, t.len() as int) {
            Some(i) => safe_filename(after(t, i + 9)),
            None => None,
        }
    }
}

fn cut_at(s: &str, c: char) -> (r: String)
    ensures
        r@ == before_char(s@, c),
{
    let v = chars_of(s);
    let mut i: usize = 0;
    assert(v@.subrange(0, v@.len() as int) == v@);
    assert(v@.subrange(0, 0) + before_char(s@, c) == before_char(s@, c));
    while i < v.len() && v[i] != c
        invariant
            v@ == s@,
            i <= v@.len(),
            forall|j: int| 0 <= j < i ==> v@[j] != c,
            before_char(s@, c) == v@.subrange(0, i as int) + before_char(
                v@.subrange(i as int, v@.len() as int),
                c,
            ),
        decreases v.len() - i,
    {
        let ghost r = v@.subrange(i as int, v@.len() as int);
        assert(r.drop_first() == v@.subrange(i + 1, v@.len() as int));
        assert(v@.subrange(0, i + 1) == v@.subrange(0, i as int) + seq![r[0]]);
        i = i + 1;
    }
    proof {
        let r = v@.subrange(i as int, v@.len() as int);
        assert(before_char(r, c) == Seq::<char>::empty());
        assert(v@.subrange(0, i as int) + Seq::<char>::empty() == v@.subrange(0, i as int));
    }
    crate::text::string_of(v.as_slice(), 0, i)
}

fn find_last(s: &[char], p: &[char]) -> (r: Option<usize>)
    ensures
        match r {
            Some(i) => last_occurrence(s@, p@, s@.len() as int) == Some(i as int) && occurs_at(
                s@,
                p@,
                i as int,
            ),
            None => last_occurrence(s@, p@, s@.len() as int) is None,
        },
{
    let mut e = s.len();
    while e > 0
        invariant
            e <= s@.len(),
            last_occurrence(s@, p@, s@.len() as int) == last_occurrence(s@, p@, e as int),
        decreases e,
    {
        if matches_at(s, p, e - 1) {
            return Some(e - 1);
        }
        e = e - 1;
    }
    None
}

pub fn uploaded_file_name_from_tarball_url(tarball_url: &str, registry_url: &str) -> (r: Option<
    String,
>)
    ensures
        match r {
            Some(s) => uploaded_name(tarball_url@, registry_url@) == Some(s@),
            None => uploaded_name(tarball_url@, registry_url@) is None,
        },
{
    proof {
        reveal_strlit("/uploads/");
        reveal_strlit("uploads/");
    }
    let t0 = trimmed(tarball_url);
    let t1 = cut_at(t0.as_str(), '?');
    let t = cut_at(t1.as_str(), '#');
    let v = chars_of(t.as_str());
    if v.len() == 0 {
        return None;
    }
    let mut prefix = crate::vpm::names::normalize_registry(registry_url);
    push_str(&mut prefix, "/uploads/");
    let pv = chars_of(prefix.as_str());
    if crate::text::has_prefix(v.as_slice(), pv.as_slice()) {
        let rest = crate::text::string_of(v.as_slice(), pv.len(), v.len());
        return sanitize_filename(rest.as_str());
    }
    if str_starts_with(t.as_str(), "/uploads/") {
        let rest = crate::text::string_of(v.as_slice(), 9, v.len());
        return sanitize_filename(rest.as_str());
    }
    if str_starts_with(t.as_str(), "uploads/") {
        let rest = crate::text::string_of(v.as_slice(), 8, v.len());
        return sanitize_filename(rest.as_str());
    }
    let marker = chars_of("/uploads/");
    match find_last(v.as_slice(), marker.as_slice()) {
        Some(i) => {
            let rest = crate::text::string_of(v.as_slice(), i + 9, v.len());
            sanitize_filename(rest.as_str())
        },
        None => None,
    }
}

/// A safe file name is never empty and holds only ASCII letters, digits,
/// `.`, `-` and `_`: no path separator survives.
pub proof fn law_safe_filenames_are_plain(input: Seq<char>)
    ensures
        safe_filename(input) matches Some(f) ==> f.len() > 0 && forall|i: int|
            0 <= i < f.len() ==> filename_char(#[trigger] f[i]),
{
    if let Some(f0) = file_name(input) {
        crate::text::lemma_map_chars_all(
            trim(f0),
            |c: char| filename_piece(c),
            |c: char| filename_char(c),
        );
    }
}

pub open spec fn slug_char(c: char) -> bool {
    ('a' <= c && c <= 'z') || ('0' <= c && c <= '9') || c == '-'
}

/// A slug is never empty and holds only lowercase ASCII letters, digits and
/// `-`.
pub proof fn law_slugs_are_plain(input: Seq<char>)
    ensures
        slug(input).len() > 0,
        forall|i: int| 0 <= i < slug(input).len() ==> slug_char(#[trigger] slug(input)[i]),
{
    reveal_strlit("pkg");
    assert forall|c: char, j: int| 0 <= j < slug_piece(c).len() implies slug_char(
        #[trigger] slug_piece(c)[j],
    ) by {
        if is_alnum(c) {
            assert(slug_piece(c)[j] == lower(c));
        }
    }
    crate::text::lemma_map_chars_all(input, |c: char| slug_piece(c), |c: char| slug_char(c));
}

proof fn lemma_before_char_absent(s: Seq<char>, c: char)
    requires
        forall|k: int| 0 <= k < s.len() ==> s[k] != c,
    ensures
        before_char(s, c) == s,
    decreases s.len(),
{
    if s.len() > 0 {
        lemma_before_char_absent(s.drop_first(), c);
        assert(seq![s[0]] + s.drop_first() =~= s);
    }
}

proof fn lemma_map_keeps_filename_chars(s: Seq<char>)
    requires
        forall|k: int| 0 <= k < s.len() ==> filename_char(#[trigger] s[k]),
    ensures
        map_chars(s, |c: char| filename_piece(c)) == s,
    decreases s.len(),
{
    if s.len() > 0 {
        lemma_map_keeps_filename_chars(s.drop_last());
        assert(s.drop_last().push(s.last()) =~= s);
    }
}

/// The URL given to a stored upload leads back to it: reading the tarball
/// URL of a published version finds the same stored file name, for any
/// registry address without `?` or `#` that does not start with
/// whitespace.
pub proof fn law_upload_url_finds_its_file(base: Seq<char>, file_name: Seq<char>)
    requires
        base.len() > 0,
        !crate::text::is_space(base[0]),
        forall|k: int| 0 <= k < base.len() ==> base[k] != '?' && base[k] != '#',
        file_name.len() > 0,
        forall|k: int| 0 <= k < file_name.len() ==> filename_char(#[trigger] file_name[k]),
        file_name != seq!['.'],
        file_name != seq!['.', '.'],
    ensures
        uploaded_name(upload_url(base, file_name), base) == Some(file_name),
{
    reveal_strlit("/uploads/");
    let root = trim_end_char(base, '/');
    crate::vpm::names::lemma_trim_end_char_prefix(base, '/');
    let prefix = root + "/uploads/"@;
    let u = prefix + file_name;
    assert(upload_url(base, file_name) == u);
    assert(u[0] != '?' && !crate::text::is_space(u[0])) by {
        if root.len() > 0 {
            assert(u[0] == base[0]);
        } else {
            assert(u[0] == '/');
        }
    }
    assert(u.last() == file_name.last());
    assert(!crate::text::is_space(u.last()));
    assert(crate::text::trim_start(u) == u);
    assert(crate::text::trim_end(u) == u);
    assert(trim(u) == u);
    assert forall|k: int| 0 <= k < u.len() implies u[k] != '?' && u[k] != '#' by {
        if k < root.len() {
            assert(u[k] == base[k]);
        } else if k >= prefix.len() {
            assert(u[k] == file_name[k - prefix.len()]);
        }
    }
    lemma_before_char_absent(u, '?');
    lemma_before_char_absent(u, '#');
    assert(u.subrange(0, prefix.len() as int) =~= prefix);
    assert(starts_with(u, prefix));
    assert(after(u, prefix.len() as int) =~= file_name);
    assert forall|k: int| 0 <= k < file_name.len() implies file_name[k] != '/' by {
        assert(filename_char(file_name[k]));
    }
    crate::paths::lemma_single_component_file_name(file_name);
    assert(crate::text::trim_start(file_name) == file_name);
    assert(crate::text::trim_end(file_name) == file_name);
    lemma_map_keeps_filename_chars(file_name);
}

proof fn lemma_filename_chars_of_piece(s: Seq<char>, a: int, b: int)
    requires
        0 <= a <= b <= s.len(),
        forall|k: int| 0 <= k < s.len() ==> filename_char(#[trigger] s[k]),
    ensures
        forall|k: int| 0 <= k < b - a ==> filename_char(#[trigger] s.subrange(a, b)[k]),
{
    assert forall|k: int| 0 <= k < b - a implies filename_char(#[trigger] s.subrange(a, b)[k]) by {
        assert(s.subrange(a, b)[k] == s[a + k]);
    }
}

/// Every stored upload's public URL leads back to its stored name, for any
/// registry address without `?` or `#` that does not start with whitespace.
pub proof fn law_stored_uploads_are_found(
    base: Seq<char>,
    original: Seq<char>,
    package: Seq<char>,
    version: Seq<char>,
    id: Seq<char>,
)
    requires
        base.len() > 0,
        !crate::text::is_space(base[0]),
        forall|k: int| 0 <= k < base.len() ==> base[k] != '?' && base[k] != '#',
        crate::registry::accounts::all_hex(id),
    ensures
        ({
            let n = stored_upload_name(original, package, version, id);
            uploaded_name(upload_url(base, n), base) == Some(n)
        }),
{
    reveal_strlit("-");
    reveal_strlit(".");
    reveal_strlit("bin");
    reveal_strlit("package.bin");
    law_slugs_are_plain(package);
    law_slugs_are_plain(version);
    law_safe_filenames_are_plain(original);
    let safe = match safe_filename(original) {
        Some(s) => s,
        None => "package.bin"@,
    };
    assert forall|k: int| 0 <= k < safe.len() implies filename_char(#[trigger] safe[k]) by {}
    crate::paths::lemma_extension_within(safe);
    let ext = upload_extension(original);
    assert forall|k: int| 0 <= k < ext.len() implies filename_char(#[trigger] ext[k]) by {
        if let Some(e) = extension(safe) {
            let (a, b) = choose|a: int, b: int|
                0 <= a <= b <= safe.len() && e == #[trigger] safe.subrange(a, b);
            lemma_filename_chars_of_piece(safe, a, b);
        }
    }
    let sp = slug(package);
    let sv = slug(version);
    let n = stored_upload_name(original, package, version, id);
    assert(n == sp + "-"@ + sv + "-"@ + id + "."@ + ext);
    assert forall|k: int| 0 <= k < n.len() implies filename_char(#[trigger] n[k]) by {
        let l1 = sp.len() as int;
        let l2 = l1 + 1;
        let l3 = l2 + sv.len();
        let l4 = l3 + 1;
        let l5 = l4 + id.len();
        let l6 = l5 + 1;
        if k < l1 {
            assert(n[k] == sp[k]);
            assert(slug_char(sp[k]));
        } else if k < l2 {
            assert(n[k] == '-');
        } else if k < l3 {
            assert(n[k] == sv[k - l2]);
            assert(slug_char(sv[k - l2]));
        } else if k < l4 {
            assert(n[k] == '-');
        } else if k < l5 {
            assert(n[k] == id[k - l4]);
            assert(crate::registry::accounts::is_hex_lower(id[k - l4]));
        } else if k < l6 {
            assert(n[k] == '.');
        } else {
            assert(n[k] == ext[k - l6]);
        }
    }
    assert(n.len() >= 4);
    assert(n != seq!['.']);
    assert(n != seq!['.', '.']);
    law_upload_url_finds_its_file(base, n);
}

} // verus!
