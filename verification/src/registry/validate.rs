//! What the registry accepts: user names, package names, versions, source
//! URLs and publish requests.
use vstd::prelude::*;
use vstd::utf8::encode_utf8;

use crate::text::{alnum, chars_of, contains, is_alnum, is_blank, starts_with, str_contains, str_starts_with, trim, trimmed};
use crate::vpm::names::{squash, squash_into, trim_char, trim_char_bounds};

verus! {

/// The length of `s` in UTF-8 bytes, which is what `str::len` counts.
pub open spec fn utf8_len(s: Seq<char>) -> nat {
    encode_utf8(s).len()
}

/// The characters each kind of identifier may hold.
#[derive(Clone, Copy, PartialEq, Eq, Structural)]
pub enum CharClass {
    /// ASCII letters and digits, `_` and `-`: user and package names.
    Name,
    /// ASCII letters and digits, `.`, `-` and `+`: versions.
    Version,
}

pub open spec fn in_class(k: CharClass, c: char) -> bool {
    match k {
        CharClass::Name => is_alnum(c) || c == '_' || c == '-',
        CharClass::Version => is_alnum(c) || c == '.' || c == '-' || c == '+',
    }
}

pub open spec fn all_in_class(k: CharClass, s: Seq<char>) -> bool {
    forall|i: int| 0 <= i < s.len() ==> in_class(k, #[trigger] s[i])
}

fn check_class(k: CharClass, s: &str) -> (b: bool)
    ensures
        b == all_in_class(k, s@),
{
    let v = chars_of(s);
    let mut i: usize = 0;
    while i < v.len()
        invariant
            v@ == s@,
            i <= v@.len(),
            forall|j: int| 0 <= j < i ==> in_class(k, #[trigger] v@[j]),
        decreases v.len() - i,
    {
        let c = v[i];
        let ok = match k {
            CharClass::Name => alnum(c) || c == '_' || c == '-',
            CharClass::Version => alnum(c) || c == '.' || c == '-' || c == '+',
        };
        if !ok {
            assert(!in_class(k, s@[i as int]));
            return false;
        }
        i = i + 1;
    }
    true
}

// ---------------------------------------------------------------------------
// Single fields
// ---------------------------------------------------------------------------

/// The complaint about a user name (taken without surrounding whitespace).
pub open spec fn username_error(username: Seq<char>) -> Option<Seq<char>> {
    let t = trim(username);
    if utf8_len(t) < 3 {
        Some("Username must be at least 3 characters"@)
    } else if utf8_len(t) > 32 {
        Some("Username must be at most 32 characters"@)
    } else if !all_in_class(CharClass::Name, t) {
        Some("Username may only contain letters, numbers, '-' and '_'"@)
    } else {
        None
    }
}

pub open spec fn name_error(name: Seq<char>) -> Option<Seq<char>> {
    if name.len() == 0 {
        Some("Package name cannot be empty"@)
    } else if utf8_len(name) > 120 {
        Some("Package name too long"@)
    } else if !all_in_class(CharClass::Name, name) {
        Some("Package name may only contain letters, numbers, '-' and '_'"@)
    } else {
        None
    }
}

pub open spec fn version_error(version: Seq<char>) -> Option<Seq<char>> {
    if version.len() == 0 {
        Some("Version cannot be empty"@)
    } else if utf8_len(version) > 40 {
        Some("Version is too long"@)
    } else if !all_in_class(CharClass::Version, version) {
        Some("Version contains invalid characters"@)
    } else {
        None
    }
}

pub open spec fn github_prefix() -> Seq<char> {
    "https://github.com/"@
}

pub open spec fn github_repo_error(url: Seq<char>) -> Option<Seq<char>> {
    if !starts_with(url, github_prefix()) {
        Some("GitHub URL must start with https://github.com/"@)
    } else if !contains(crate::text::trim_start_seq(url, github_prefix()), "/"@) {
        Some("GitHub URL must include owner/repo"@)
    } else {
        None
    }
}

/// `Ok` exactly when `error` is `None`, else the error's text.
pub open spec fn checked(r: Result<(), String>, error: Option<Seq<char>>) -> bool {
    match r {
        Ok(_) => error is None,
        Err(e) => error == Some(e@),
    }
}

pub fn validate_username(username: &str) -> (r: Result<(), String>)
    ensures
        checked(r, username_error(username@)),
{
    let t = trimmed(username);
    let n = t.as_str().as_bytes().len();
    if n < 3 {
        return Err(String::from_str("Username must be at least 3 characters"));
    }
    if n > 32 {
        return Err(String::from_str("Username must be at most 32 characters"));
    }
    if !check_class(CharClass::Name, t.as_str()) {
        return Err(String::from_str("Username may only contain letters, numbers, '-' and '_'"));
    }
    Ok(())
}

pub fn validate_name(name: &str) -> (r: Result<(), String>)
    ensures
        checked(r, name_error(name@)),
{
    if name.is_empty() {
        return Err(String::from_str("Package name cannot be empty"));
    }
    if name.as_bytes().len() > 120 {
        return Err(String::from_str("Package name too long"));
    }
    if !check_class(CharClass::Name, name) {
        return Err(String::from_str("Package name may only contain letters, numbers, '-' and '_'"));
    }
    Ok(())
}

pub fn validate_version(version: &str) -> (r: Result<(), String>)
    ensures
        checked(r, version_error(version@)),
{
    if version.is_empty() {
        return Err(String::from_str("Version cannot be empty"));
    }
    if version.as_bytes().len() > 40 {
        return Err(String::from_str("Version is too long"));
    }
    if !check_class(CharClass::Version, version) {
        return Err(String::from_str("Version contains invalid characters"));
    }
    Ok(())
}

pub fn validate_github_repo(url: &str) -> (r: Result<(), String>)
    ensures
        checked(r, github_repo_error(url@)),
{
    if !str_starts_with(url, "https://github.com/") {
        return Err(String::from_str("GitHub URL must start with https://github.com/"));
    }
    let rest = crate::text::trim_start_str(url, "https://github.com/");
    if !str_contains(rest.as_str(), "/") {
        return Err(String::from_str("GitHub URL must include owner/repo"));
    }
    Ok(())
}

// ---------------------------------------------------------------------------
// npm names
// ---------------------------------------------------------------------------

/// An npm name as a Void name: ASCII letters and digits lower-cased, each
/// run of other characters one `_`, no `_` at either end.
pub open spec fn npm_void_name(npm_name: Seq<char>) -> Seq<char> {
    trim_char(squash(npm_name, false, false), '_')
}

pub fn normalize_npm_name_for_void(npm_name: &str) -> (r: String)
    ensures
        r@ == npm_void_name(npm_name@),
{
    let v = chars_of(npm_name);
    let mut out = String::new();
    squash_into(&mut out, v.as_slice(), 0, false, false);
    assert(v@.subrange(0, v@.len() as int) == v@);
    let ov = chars_of(out.as_str());
    let (lo, hi) = trim_char_bounds(ov.as_slice(), '_');
    crate::text::string_of(ov.as_slice(), lo, hi)
}

// ---------------------------------------------------------------------------
// Publish requests
// ---------------------------------------------------------------------------

/// A package version to publish, as sent by a client.
pub struct PublishRequest {
    pub name: String,
    pub version: String,
    pub description: Option<String>,
    pub tarball_url: Option<String>,
    pub github_repo: Option<String>,
    pub readme: Option<String>,
}

pub struct PublishRequestV {
    pub name: Seq<char>,
    pub version: Seq<char>,
    pub description: Option<Seq<char>>,
    pub tarball_url: Option<Seq<char>>,
    pub github_repo: Option<Seq<char>>,
    pub readme: Option<Seq<char>>,
}

pub open spec fn opt_view(o: Option<String>) -> Option<Seq<char>> {
    match o {
        Some(s) => Some(s@),
        None => None,
    }
}

impl View for PublishRequest {
    type V = PublishRequestV;

    open spec fn view(&self) -> PublishRequestV {
        PublishRequestV {
            name: self.name@,
            version: self.version@,
            description: opt_view(self.description),
            tarball_url: opt_view(self.tarball_url),
            github_repo: opt_view(self.github_repo),
            readme: opt_view(self.readme),
        }
    }
}

/// A guest publish of a package imported from npm.
pub struct NpmImportPublishRequest {
    pub name: String,
    pub version: String,
    pub npm_name: String,
    pub description: Option<String>,
    pub tarball_url: Option<String>,
    pub github_repo: Option<String>,
    pub readme: Option<String>,
}

pub open spec fn opt_trim(o: Option<Seq<char>>) -> Option<Seq<char>> {
    match o {
        Some(s) => Some(trim(s)),
        None => None,
    }
}

pub open spec fn or_empty(o: Option<Seq<char>>) -> Seq<char> {
    match o {
        Some(s) => s,
        None => Seq::empty(),
    }
}

/// The request with its fields trimmed (all but the README).
pub open spec fn trimmed_request(p: PublishRequestV) -> PublishRequestV {
    PublishRequestV {
        name: trim(p.name),
        version: trim(p.version),
        description: opt_trim(p.description),
        tarball_url: opt_trim(p.tarball_url),
        github_repo: opt_trim(p.github_repo),
        readme: p.readme,
    }
}

/// What the registry makes of a publish request: the trimmed request, or the
/// first complaint about it.
pub open spec fn publish_request_result(p: PublishRequestV) -> Result<PublishRequestV, Seq<char>> {
    let q = trimmed_request(p);
    let tarball = or_empty(q.tarball_url);
    let github = or_empty(q.github_repo);
    match name_error(q.name) {
        Some(e) => Err(e),
        None => match version_error(q.version) {
            Some(e) => Err(e),
            None => if tarball.len() == 0 && github.len() == 0 {
                Err("Provide a GitHub repo URL, tarball URL, or upload file"@)
            } else if github.len() > 0 && github_repo_error(github) is Some {
                Err(github_repo_error(github)->0)
            } else {
                Ok(q)
            },
        },
    }
}

pub open spec fn request_result_view(r: Result<PublishRequest, String>) -> Result<PublishRequestV, Seq<char>> {
    match r {
        Ok(p) => Ok(p@),
        Err(e) => Err(e@),
    }
}

fn trim_opt(o: Option<String>) -> (r: Option<String>)
    ensures
        opt_view(r) == opt_trim(opt_view(o)),
{
    match o {
        Some(s) => Some(trimmed(s.as_str())),
        None => None,
    }
}

fn is_empty_opt(o: &Option<String>) -> (b: bool)
    ensures
        b == (or_empty(opt_view(*o)).len() == 0),
{
    match o {
        Some(s) => s.as_str().is_empty(),
        None => true,
    }
}

pub fn validate_publish_request(payload: PublishRequest) -> (r: Result<PublishRequest, String>)
    ensures
        request_result_view(r) == publish_request_result(payload@),
{
    let ghost p = payload@;
    let PublishRequest { name, version, description, tarball_url, github_repo, readme } = payload;
    let q = PublishRequest {
        name: trimmed(name.as_str()),
        version: trimmed(version.as_str()),
        description: trim_opt(description),
        tarball_url: trim_opt(tarball_url),
        github_repo: trim_opt(github_repo),
        readme,
    };
    assert(q@ == trimmed_request(p));
    if let Err(e) = validate_name(q.name.as_str()) {
        return Err(e);
    }
    if let Err(e) = validate_version(q.version.as_str()) {
        return Err(e);
    }
    let no_tarball = is_empty_opt(&q.tarball_url);
    let no_github = is_empty_opt(&q.github_repo);
    if no_tarball && no_github {
        return Err(String::from_str("Provide a GitHub repo URL, tarball URL, or upload file"));
    }
    if !no_github {
        match &q.github_repo {
            Some(g) => {
                if let Err(e) = validate_github_repo(g.as_str()) {
                    return Err(e);
                }
            },
            None => {},
        }
    }
    Ok(q)
}

/// What the registry makes of a guest publish of an npm import: the trimmed
/// request, or the first complaint about it.
pub open spec fn npm_import_result(
    name: Seq<char>,
    version: Seq<char>,
    npm_name: Seq<char>,
    rest: PublishRequestV,
) -> Result<PublishRequestV, Seq<char>> {
    let n = trim(name);
    let v = trim(version);
    let npm = trim(npm_name);
    let q = PublishRequestV {
        name: n,
        version: v,
        description: opt_trim(rest.description),
        tarball_url: opt_trim(rest.tarball_url),
        github_repo: opt_trim(rest.github_repo),
        readme: rest.readme,
    };
    let norm = npm_void_name(npm);
    let prefixed = "npm_"@ + norm;
    let tarball = or_empty(q.tarball_url);
    match name_error(n) {
        Some(e) => Err(e),
        None => match version_error(v) {
            Some(e) => Err(e),
            None => if npm.len() == 0 {
                Err("npm_name is required for npm-import guest publish"@)
            } else if norm.len() == 0 {
                Err("npm_name is not valid"@)
            } else if n != norm && n != prefixed {
                Err(
                    "npm-import guest publish only allows '"@ + norm + "' or '"@ + prefixed
                        + "' package names"@,
                )
            } else if tarball.len() == 0 {
                Err("npm-import guest publish requires tarball_url"@)
            } else if !starts_with(tarball, "https://registry.npmjs.org/"@) {
                Err("npm-import guest publish requires an npm registry tarball URL"@)
            } else if !contains(tarball, v) {
                Err("tarball_url must match the published version"@)
            } else {
                Ok(q)
            },
        },
    }
}

pub open spec fn npm_request_rest(p: NpmImportPublishRequest) -> PublishRequestV {
    PublishRequestV {
        name: p.name@,
        version: p.version@,
        description: opt_view(p.description),
        tarball_url: opt_view(p.tarball_url),
        github_repo: opt_view(p.github_repo),
        readme: opt_view(p.readme),
    }
}

pub fn validate_npm_import_publish_request(payload: NpmImportPublishRequest) -> (r: Result<
    PublishRequest,
    String,
>)
    ensures
        request_result_view(r) == npm_import_result(
            payload.name@,
            payload.version@,
            payload.npm_name@,
            npm_request_rest(payload),
        ),
{
    let ghost p = payload;
    let NpmImportPublishRequest {
        name,
        version,
        npm_name,
        description,
        tarball_url,
        github_repo,
        readme,
    } = payload;
    let name = trimmed(name.as_str());
    let version = trimmed(version.as_str());
    let npm_name = trimmed(npm_name.as_str());
    let description = trim_opt(description);
    let tarball_url = trim_opt(tarball_url);
    let github_repo = trim_opt(github_repo);
    if let Err(e) = validate_name(name.as_str()) {
        return Err(e);
    }
    if let Err(e) = validate_version(version.as_str()) {
        return Err(e);
    }
    if npm_name.as_str().is_empty() {
        return Err(String::from_str("npm_name is required for npm-import guest publish"));
    }
    let normalized = normalize_npm_name_for_void(npm_name.as_str());
    if normalized.as_str().is_empty() {
        return Err(String::from_str("npm_name is not valid"));
    }
    let mut prefixed = String::from_str("npm_");
    prefixed.append(normalized.as_str());
    if !crate::text::str_eq(name.as_str(), normalized.as_str()) && !crate::text::str_eq(
        name.as_str(),
        prefixed.as_str(),
    ) {
        let mut m = String::from_str("npm-import guest publish only allows '");
        m.append(normalized.as_str());
        m.append("' or '");
        m.append(prefixed.as_str());
        m.append("' package names");
        return Err(m);
    }
    if is_empty_opt(&tarball_url) {
        return Err(String::from_str("npm-import guest publish requires tarball_url"));
    }
    match &tarball_url {
        Some(t) => {
            if !str_starts_with(t.as_str(), "https://registry.npmjs.org/") {
                return Err(
                    String::from_str("npm-import guest publish requires an npm registry tarball URL"),
                );
            }
            if !str_contains(t.as_str(), version.as_str()) {
                return Err(String::from_str("tarball_url must match the published version"));
            }
        },
        None => {},
    }
    Ok(PublishRequest { name, version, description, tarball_url, github_repo, readme })
}

/// An accepted publish request has a valid name and version, and names a
/// source: a tarball URL or a valid GitHub repository.
pub proof fn law_accepted_publish_is_valid(p: PublishRequestV)
    requires
        publish_request_result(p) is Ok,
    ensures
        ({
            let q = publish_request_result(p)->Ok_0;
            &&& name_error(q.name) is None
            &&& version_error(q.version) is None
            &&& or_empty(q.tarball_url).len() > 0 || github_repo_error(or_empty(q.github_repo)) is None
        }),
{
}

/// A guest publish of an npm import is accepted only under the npm package's
/// own Void name (with or without `npm_`), with an npm registry tarball of
/// that version.
pub proof fn law_npm_import_keeps_its_name(
    name: Seq<char>,
    version: Seq<char>,
    npm_name: Seq<char>,
    rest: PublishRequestV,
)
    requires
        npm_import_result(name, version, npm_name, rest) is Ok,
    ensures
        ({
            let q = npm_import_result(name, version, npm_name, rest)->Ok_0;
            let norm = npm_void_name(trim(npm_name));
            &&& q.name == norm || q.name == "npm_"@ + norm
            &&& starts_with(or_empty(q.tarball_url), "https://registry.npmjs.org/"@)
            &&& contains(or_empty(q.tarball_url), q.version)
        }),
{
}

proof fn lemma_trim_end_char_after(p: Seq<char>, s: Seq<char>, c: char)
    requires
        s.len() > 0,
        s[0] != c,
    ensures
        crate::text::trim_end_char(p + s, c) == p + crate::text::trim_end_char(s, c),
        crate::text::trim_end_char(s, c).len() > 0,
    decreases s.len(),
{
    if s.last() == c {
        assert(s.len() > 1);
        assert((p + s).drop_last() =~= p + s.drop_last());
        lemma_trim_end_char_after(p, s.drop_last(), c);
    }
}

/// `trim_end(s)` is a prefix of `s` followed only by whitespace, and it does
/// not end in whitespace.
proof fn lemma_trim_end_shape(s: Seq<char>)
    ensures
        crate::text::trim_end(s).len() <= s.len(),
        crate::text::trim_end(s) == s.subrange(0, crate::text::trim_end(s).len() as int),
        forall|j: int|
            crate::text::trim_end(s).len() <= j < s.len() ==> crate::text::is_space(#[trigger] s[j]),
        crate::text::trim_end(s).len() > 0 ==> !crate::text::is_space(crate::text::trim_end(s).last()),
    decreases s.len(),
{
    if s.len() > 0 && crate::text::is_space(s.last()) {
        lemma_trim_end_shape(s.drop_last());
        let t = crate::text::trim_end(s.drop_last());
        assert(s.drop_last().subrange(0, t.len() as int) == s.subrange(0, t.len() as int));
        assert forall|j: int| t.len() <= j < s.len() implies crate::text::is_space(#[trigger] s[j]) by {
            if j < s.len() - 1 {
                assert(s[j] == s.drop_last()[j]);
            }
        }
    } else {
        assert(s.subrange(0, s.len() as int) == s);
    }
}

/// Squashing characters none of which is kept gives only `_`.
proof fn lemma_squash_unkept(w: Seq<char>, sep: bool)
    requires
        forall|j: int| 0 <= j < w.len() ==> !is_alnum(#[trigger] w[j]),
    ensures
        forall|j: int|
            0 <= j < squash(w, false, sep).len() ==> #[trigger] squash(w, false, sep)[j] == '_',
    decreases w.len(),
{
    if w.len() > 0 {
        let r = w.drop_first();
        assert forall|j: int| 0 <= j < r.len() implies !is_alnum(#[trigger] r[j]) by {
            assert(r[j] == w[j + 1]);
        }
        lemma_squash_unkept(r, true);
        assert(!is_alnum(w[0]));
        let q = squash(r, false, true);
        if !sep {
            assert(squash(w, false, sep) == seq!['_'] + q);
            assert forall|j: int| 0 <= j < squash(w, false, sep).len() implies #[trigger] squash(
                w,
                false,
                sep,
            )[j] == '_' by {
                if j > 0 {
                    assert(squash(w, false, sep)[j] == q[j - 1]);
                }
            }
        } else {
            assert(squash(w, false, sep) == q);
        }
    }
}

/// Trailing `_` added to a text vanish when `_` is trimmed from its end.
proof fn lemma_trim_end_underscores(p: Seq<char>, q: Seq<char>)
    requires
        forall|j: int| 0 <= j < q.len() ==> #[trigger] q[j] == '_',
    ensures
        crate::text::trim_end_char(p + q, '_') == crate::text::trim_end_char(p, '_'),
    decreases q.len(),
{
    if q.len() > 0 {
        assert((p + q).drop_last() =~= p + q.drop_last());
        assert(q.last() == '_');
        lemma_trim_end_underscores(p, q.drop_last());
    } else {
        assert(p + q =~= p);
    }
}

/// Characters that are not kept, at the end of a name, change nothing once
/// `_` is trimmed from the end of what the name squashes to.
proof fn lemma_squash_unkept_tail(p: Seq<char>, u: Seq<char>, w: Seq<char>, sep: bool)
    requires
        forall|j: int| 0 <= j < w.len() ==> !is_alnum(#[trigger] w[j]),
    ensures
        crate::text::trim_end_char(p + squash(u + w, false, sep), '_')
            == crate::text::trim_end_char(p + squash(u, false, sep), '_'),
    decreases u.len(),
{
    if u.len() == 0 {
        assert(u + w =~= w);
        assert(squash(u, false, sep) =~= Seq::<char>::empty());
        assert(p + squash(u, false, sep) =~= p);
        lemma_squash_unkept(w, sep);
        lemma_trim_end_underscores(p, squash(w, false, sep));
    } else {
        let uw = u + w;
        assert(uw[0] == u[0]);
        assert(uw.drop_first() =~= u.drop_first() + w);
        let c = u[0];
        if is_alnum(c) {
            let h = seq![crate::text::lower(c)];
            lemma_squash_unkept_tail(p + h, u.drop_first(), w, false);
            assert(p + squash(uw, false, sep) =~= (p + h) + squash(u.drop_first() + w, false, false));
            assert(p + squash(u, false, sep) =~= (p + h) + squash(u.drop_first(), false, false));
        } else if !sep {
            let h = seq!['_'];
            lemma_squash_unkept_tail(p + h, u.drop_first(), w, true);
            assert(p + squash(uw, false, sep) =~= (p + h) + squash(u.drop_first() + w, false, true));
            assert(p + squash(u, false, sep) =~= (p + h) + squash(u.drop_first(), false, true));
        } else {
            lemma_squash_unkept_tail(p, u.drop_first(), w, true);
        }
    }
}

/// The guest rule for a name that starts with an ASCII letter or digit and
/// does not end in whitespace.
proof fn lemma_guest_rule_trimmed(npm_name: Seq<char>)
    requires
        npm_name.len() > 0,
        is_alnum(npm_name[0]),
        !crate::text::is_space(npm_name.last()),
    ensures
        crate::vpm::names::void_name_for(npm_name) == "npm_"@ + npm_void_name(trim(npm_name)),
{
    reveal_strlit("npm_");
    reveal_strlit("npm");
    assert(crate::text::trim_start(npm_name) == npm_name);
    assert(crate::text::trim_end(npm_name) == npm_name);
    let sq = squash(npm_name, false, false);
    assert(sq == seq![crate::text::lower(npm_name[0])] + squash(npm_name.drop_first(), false, false));
    let c0 = npm_name[0];
    if crate::text::is_upper(c0) {
        let x = (c0 as u32) + 32;
        assert(crate::text::lower(c0) == x as char);
        assert((x as char) as u32 == x);
    }
    assert(sq[0] != '_');
    assert(crate::text::trim_start_char(sq, '_') == sq);
    lemma_trim_end_char_after("npm_"@, sq, '_');
    let t = crate::text::trim_end_char("npm_"@ + sq, '_');
    assert(t.len() > 4);
}

/// The Void name `vpm npm-import` derives for an npm name that starts with
/// an ASCII letter or digit is one the registry's guest npm-import rule
/// accepts: `npm_` and the registry's own reading of the npm name.
pub proof fn law_import_names_pass_the_guest_rule(npm_name: Seq<char>)
    requires
        npm_name.len() > 0,
        is_alnum(npm_name[0]),
    ensures
        crate::vpm::names::void_name_for(npm_name) == "npm_"@ + npm_void_name(trim(npm_name)),
{
    assert(!crate::text::is_space(npm_name[0]));
    assert(crate::text::trim_start(npm_name) == npm_name);
    lemma_trim_end_shape(npm_name);
    let u = crate::text::trim_end(npm_name);
    let k = u.len() as int;
    if k == 0 {
        assert(crate::text::is_space(npm_name[0]));
    }
    let w = npm_name.subrange(k, npm_name.len() as int);
    assert(npm_name =~= u + w);
    assert forall|j: int| 0 <= j < w.len() implies !is_alnum(#[trigger] w[j]) by {
        assert(w[j] == npm_name[k + j]);
        assert(crate::text::is_space(npm_name[k + j]));
    }
    lemma_squash_unkept_tail("npm_"@, u, w, false);
    assert(u[0] == npm_name[0]);
    lemma_guest_rule_trimmed(u);
    lemma_trim_end_shape(u);
    assert(crate::text::trim_start(u) == u);
    assert(crate::text::trim_end(u) == u);
}

} // verus!
