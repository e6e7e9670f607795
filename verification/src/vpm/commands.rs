//! What each `vpm` command decides and prints, from what was read from the
//! disk, the environment and the registry.
use vstd::prelude::*;

use crate::registry::html::{int_text, push_int, PackageSummary, PackageVersion};
use crate::text::{decimal, is_blank, push_decimal, push_str, str_eq, trim, trimmed};
use crate::vpm::names::{normalize_registry, package_name_error, repo_url, validate_package_name};
use crate::vpm::store::{AuthSession, AuthSessionV};
use crate::text::trim_end_char;

verus! {

// ---------------------------------------------------------------------------
// Small facts
// ---------------------------------------------------------------------------

/// When a login was saved: `unix:` and the seconds since the epoch, or
/// `unix:0` when the clock is before it.
pub open spec fn timestamp_text(secs: Option<u64>) -> Seq<char> {
    match secs {
        Some(s) => "unix:"@ + decimal(s as nat),
        None => "unix:0"@,
    }
}

pub fn unix_timestamp_string(secs_since_epoch: Option<u64>) -> (r: String)
    ensures
        r@ == timestamp_text(secs_since_epoch),
{
    match secs_since_epoch {
        Some(s) => {
            let mut out = String::from_str("unix:");
            push_decimal(&mut out, s as u128);
            out
        },
        None => String::from_str("unix:0"),
    }
}

pub open spec fn opt_view(o: Option<&str>) -> Option<Seq<char>> {
    match o {
        Some(s) => Some(s@),
        None => None,
    }
}

/// The token given on the command line or in `VPM_TOKEN`, trimmed, the first
/// that is not blank; a saved login is consulted only when neither is.
pub open spec fn given_token(explicit: Option<Seq<char>>, env: Option<Seq<char>>) -> Option<Seq<char>> {
    match explicit {
        Some(t) if trim(t).len() > 0 => Some(trim(t)),
        _ => match env {
            Some(t) if trim(t).len() > 0 => Some(trim(t)),
            _ => None,
        },
    }
}

pub fn explicit_auth_token(explicit: Option<&str>, env_token: Option<&str>) -> (r: Option<String>)
    ensures
        match r {
            Some(t) => given_token(opt_view(explicit), opt_view(env_token)) == Some(t@),
            None => given_token(opt_view(explicit), opt_view(env_token)) is None,
        },
{
    if let Some(t) = explicit {
        if !is_blank(t) {
            return Some(trimmed(t));
        }
    }
    if let Some(t) = env_token {
        if !is_blank(t) {
            return Some(trimmed(t));
        }
    }
    None
}

/// The token a command authenticates with: the given one, else the saved
/// login's.
pub open spec fn auth_token(
    explicit: Option<Seq<char>>,
    env: Option<Seq<char>>,
    saved: Option<AuthSessionV>,
) -> Option<Seq<char>> {
    match given_token(explicit, env) {
        Some(t) => Some(t),
        None => match saved {
            Some(s) => Some(s.token),
            None => None,
        },
    }
}

pub fn resolve_auth_token(
    explicit: Option<&str>,
    env_token: Option<&str>,
    saved: Option<&AuthSession>,
) -> (r: Option<String>)
    ensures
        match r {
            Some(t) => auth_token(
                opt_view(explicit),
                opt_view(env_token),
                match saved {
                    Some(s) => Some(s@),
                    None => None,
                },
            ) == Some(t@),
            None => auth_token(
                opt_view(explicit),
                opt_view(env_token),
                match saved {
                    Some(s) => Some(s@),
                    None => None,
                },
            ) is None,
        },
{
    match explicit_auth_token(explicit, env_token) {
        Some(t) => Some(t),
        None => match saved {
            Some(s) => Some(s.token.clone()),
            None => None,
        },
    }
}

/// A registry endpoint: the registry URL without trailing `/`, then `path`.
pub open spec fn endpoint(registry: Seq<char>, path: Seq<char>) -> Seq<char> {
    trim_end_char(registry, '/') + path
}

pub fn api_url(registry: &str, path: &str) -> (r: String)
    ensures
        r@ == endpoint(registry@, path@),
{
    let mut out = normalize_registry(registry);
    push_str(&mut out, path);
    out
}

// ---------------------------------------------------------------------------
// init
// ---------------------------------------------------------------------------

/// The name `vpm init` gives the package: the one given, else the current
/// directory's name, else `void-package`.
pub open spec fn init_name(given: Option<Seq<char>>, dir_name: Option<Seq<char>>) -> Seq<char> {
    match given {
        Some(n) => n,
        None => match dir_name {
            Some(d) => d,
            None => "void-package"@,
        },
    }
}

/// The `voidpkg.toml` that `vpm init` writes.
pub open spec fn init_manifest(name: Seq<char>) -> Seq<char> {
    "name = \""@ + name
        + "\"\nversion = \"0.1.0\"\ndescription = \"\"\nauthor = \"\"\ntarball_url = \"\"\ngithub_repo = \"\"\n"@
}

/// What `vpm init` writes, or why it refuses: an existing manifest, or an
/// invalid name.
pub fn init_manifest_text(manifest_exists: bool, given: Option<&str>, dir_name: Option<&str>) -> (r:
    Result<String, String>)
    ensures
        manifest_exists ==> (r matches Err(e) && e@ == "voidpkg.toml already exists"@),
        !manifest_exists ==> match package_name_error(init_name(opt_view(given), opt_view(dir_name))) {
            Some(e) => r matches Err(m) && m@ == e,
            None => r matches Ok(t) && t@ == init_manifest(init_name(opt_view(given), opt_view(dir_name))),
        },
{
    if manifest_exists {
        return Err(String::from_str("voidpkg.toml already exists"));
    }
    let name: &str = match given {
        Some(n) => n,
        None => match dir_name {
            Some(d) => d,
            None => "void-package",
        },
    };
    if let Err(e) = validate_package_name(name) {
        return Err(e);
    }
    let mut t = String::from_str("name = \"");
    push_str(&mut t, name);
    push_str(
        &mut t,
        "\"\nversion = \"0.1.0\"\ndescription = \"\"\nauthor = \"\"\ntarball_url = \"\"\ngithub_repo = \"\"\n",
    );
    Ok(t)
}

// ---------------------------------------------------------------------------
// login, logout, whoami
// ---------------------------------------------------------------------------

pub fn check_login_input(username: &str, password: &str) -> (r: Result<(), String>)
    ensures
        match r {
            Ok(_) => trim(username@).len() > 0 && trim(password@).len() > 0,
            Err(e) => (trim(username@).len() == 0 || trim(password@).len() == 0) && e@
                == "Username and password are required"@,
        },
{
    if is_blank(username) || is_blank(password) {
        Err(String::from_str("Username and password are required"))
    } else {
        Ok(())
    }
}

/// What a login reply gives: the token, or the error to report.
pub open spec fn login_token(
    status_ok: bool,
    api_ok: bool,
    message: Seq<char>,
    token: Option<Seq<char>>,
) -> Result<Seq<char>, Seq<char>> {
    if !status_ok || !api_ok {
        Err(message)
    } else {
        match token {
            Some(t) => Ok(t),
            None => Err("Login response did not include a token"@),
        }
    }
}

pub open spec fn string_opt(o: Option<String>) -> Option<Seq<char>> {
    match o {
        Some(s) => Some(s@),
        None => None,
    }
}

pub fn login_reply_token(status_ok: bool, api_ok: bool, message: String, token: Option<String>) -> (r:
    Result<String, String>)
    ensures
        match r {
            Ok(t) => login_token(status_ok, api_ok, message@, string_opt(token)) == Ok::<
                Seq<char>,
                Seq<char>,
            >(t@),
            Err(e) => login_token(status_ok, api_ok, message@, string_opt(token)) == Err::<
                Seq<char>,
                Seq<char>,
            >(e@),
        },
{
    if !status_ok || !api_ok {
        return Err(message);
    }
    match token {
        Some(t) => Ok(t),
        None => Err(String::from_str("Login response did not include a token")),
    }
}

/// The user name a login is saved under: the registry's, unless blank, else
/// the one typed, trimmed.
pub open spec fn confirmed_user(reply_username: Option<Seq<char>>, typed: Seq<char>) -> Seq<char> {
    match reply_username {
        Some(u) if trim(u).len() > 0 => u,
        _ => trim(typed),
    }
}

pub fn confirmed_username(reply_username: Option<&str>, typed: &str) -> (r: String)
    ensures
        r@ == confirmed_user(opt_view(reply_username), typed@),
{
    match reply_username {
        Some(u) => if !is_blank(u) {
            String::from_str(u)
        } else {
            trimmed(typed)
        },
        None => trimmed(typed),
    }
}

/// What `vpm logout` prints.
pub open spec fn logout_text(removed: bool, registry: Seq<char>) -> Seq<char> {
    if removed {
        "Logged out from "@ + trim_end_char(registry, '/')
    } else {
        "No saved login for "@ + trim_end_char(registry, '/')
    }
}

pub fn logout_message(removed: bool, registry: &str) -> (r: String)
    ensures
        r@ == logout_text(removed, registry@),
{
    let mut out = if removed {
        String::from_str("Logged out from ")
    } else {
        String::from_str("No saved login for ")
    };
    let r = normalize_registry(registry);
    push_str(&mut out, r.as_str());
    out
}

/// The line printed after a login.
pub open spec fn logged_in_text(user: Seq<char>, registry: Seq<char>) -> Seq<char> {
    "Logged in as '"@ + user + "' for "@ + trim_end_char(registry, '/')
}

pub fn logged_in_line(user: &str, registry: &str) -> (r: String)
    ensures
        r@ == logged_in_text(user@, registry@),
{
    let mut out = String::from_str("Logged in as '");
    push_str(&mut out, user);
    push_str(&mut out, "' for ");
    let r = normalize_registry(registry);
    push_str(&mut out, r.as_str());
    out
}

/// What `vpm whoami` prints for a saved login, or its complaint without one.
pub open spec fn whoami_text(session: Option<AuthSessionV>, registry: Seq<char>) -> Result<
    (Seq<char>, Seq<char>),
    Seq<char>,
> {
    let r = trim_end_char(registry, '/');
    match session {
        Some(s) => Ok((logged_in_text(s.username, registry), "Saved at "@ + s.saved_at)),
        None => Err(
            "Not logged in for "@ + r + ". Run: vpm login <username> <password> --registry "@ + r,
        ),
    }
}

pub fn whoami_report(session: Option<&AuthSession>, registry: &str) -> (r: Result<
    (String, String),
    String,
>)
    ensures
        match r {
            Ok((a, b)) => whoami_text(
                match session {
                    Some(s) => Some(s@),
                    None => None,
                },
                registry@,
            ) == Ok::<(Seq<char>, Seq<char>), Seq<char>>((a@, b@)),
            Err(e) => whoami_text(
                match session {
                    Some(s) => Some(s@),
                    None => None,
                },
                registry@,
            ) == Err::<(Seq<char>, Seq<char>), Seq<char>>(e@),
        },
{
    match session {
        Some(s) => {
            let first = logged_in_line(s.username.as_str(), registry);
            let mut second = String::from_str("Saved at ");
            push_str(&mut second, s.saved_at.as_str());
            Ok((first, second))
        },
        None => {
            let r = normalize_registry(registry);
            let mut m = String::from_str("Not logged in for ");
            push_str(&mut m, r.as_str());
            push_str(&mut m, ". Run: vpm login <username> <password> --registry ");
            push_str(&mut m, r.as_str());
            Err(m)
        },
    }
}

// ---------------------------------------------------------------------------
// publish
// ---------------------------------------------------------------------------

/// The manifest fields `vpm publish` needs: a valid name and a version.
pub open spec fn manifest_error(name: Seq<char>, version: Seq<char>) -> Option<Seq<char>> {
    match package_name_error(name) {
        Some(e) => Some(e),
        None => if trim(version).len() == 0 {
            Some("Manifest version cannot be empty"@)
        } else {
            None
        },
    }
}

pub fn check_manifest_for_publish(name: &str, version: &str) -> (r: Result<(), String>)
    ensures
        match r {
            Ok(_) => manifest_error(name@, version@) is None,
            Err(e) => manifest_error(name@, version@) == Some(e@),
        },
{
    if let Err(e) = validate_package_name(name) {
        return Err(e);
    }
    if is_blank(version) {
        return Err(String::from_str("Manifest version cannot be empty"));
    }
    Ok(())
}

/// The source repository sent with a publish: `--github` if given, else the
/// manifest's, trimmed; none when blank.
pub open spec fn publish_github(given: Option<Seq<char>>, manifest: Option<Seq<char>>) -> Option<
    Seq<char>,
> {
    let g = match given {
        Some(x) => Some(trim(x)),
        None => match manifest {
            Some(m) => Some(trim(m)),
            None => None,
        },
    };
    match g {
        Some(x) => if x.len() > 0 {
            Some(x)
        } else {
            None
        },
        None => None,
    }
}

pub fn publish_github_repo(given: Option<&str>, manifest: Option<&str>) -> (r: Option<String>)
    ensures
        string_opt(r) == publish_github(opt_view(given), opt_view(manifest)),
{
    let g = match given {
        Some(x) => trimmed(x),
        None => match manifest {
            Some(m) => trimmed(m),
            None => return None,
        },
    };
    if g.as_str().is_empty() {
        None
    } else {
        Some(g)
    }
}

pub open spec fn publish_auth_text(registry: Seq<char>) -> Seq<char> {
    "Publishing requires auth. Run: vpm login <username> <password> --registry "@ + trim_end_char(
        registry,
        '/',
    ) + " or pass --token"@
}

/// The complaint when `vpm publish` finds no token.
pub fn publish_auth_required(registry: &str) -> (r: String)
    ensures
        r@ == publish_auth_text(registry@),
{
    let mut m = String::from_str("Publishing requires auth. Run: vpm login <username> <password> --registry ");
    let r = normalize_registry(registry);
    push_str(&mut m, r.as_str());
    push_str(&mut m, " or pass --token");
    m
}

/// What `vpm publish` reports once the registry answered.
pub fn publish_outcome(api_ok: bool, message: String, name: &str, version: &str) -> (r: Result<
    String,
    String,
>)
    ensures
        api_ok ==> (r matches Ok(t) && t@ == "Published "@ + name@ + "@"@ + version@),
        !api_ok ==> r == Err::<String, String>(message),
{
    if !api_ok {
        return Err(message);
    }
    let mut t = String::from_str("Published ");
    push_str(&mut t, name);
    push_str(&mut t, "@");
    push_str(&mut t, version);
    Ok(t)
}

// ---------------------------------------------------------------------------
// search
// ---------------------------------------------------------------------------

pub open spec fn lines_view(v: Seq<String>) -> Seq<Seq<char>> {
    v.map_values(|s: String| s@)
}

pub open spec fn summary_line(p: PackageSummary) -> Seq<char> {
    p.name@ + "@"@ + p.version@ + " - "@ + p.description@ + " (author: "@ + p.author@
        + ", downloads: "@ + int_text(p.downloads as int) + ")"@
}

/// What `vpm search` prints.
pub open spec fn search_text(query: Seq<char>, ps: Seq<PackageSummary>) -> Seq<Seq<char>> {
    if ps.len() == 0 {
        seq!["No packages found for '"@ + query + "'"@]
    } else {
        ps.map_values(|p: PackageSummary| summary_line(p))
    }
}

pub fn search_lines(query: &str, packages: &[PackageSummary]) -> (r: Vec<String>)
    ensures
        lines_view(r@) == search_text(query@, packages@),
{
    let mut out: Vec<String> = Vec::new();
    if packages.len() == 0 {
        let mut m = String::from_str("No packages found for '");
        push_str(&mut m, query);
        push_str(&mut m, "'");
        out.push(m);
        assert(lines_view(out@) =~= search_text(query@, packages@));
        return out;
    }
    let mut i: usize = 0;
    while i < packages.len()
        invariant
            i <= packages@.len(),
            out@.len() == i,
            forall|j: int| 0 <= j < i ==> (#[trigger] out@[j])@ == summary_line(packages@[j]),
        decreases packages.len() - i,
    {
        let p = &packages[i];
        let mut l = String::new();
        push_str(&mut l, p.name.as_str());
        push_str(&mut l, "@");
        push_str(&mut l, p.version.as_str());
        push_str(&mut l, " - ");
        push_str(&mut l, p.description.as_str());
        push_str(&mut l, " (author: ");
        push_str(&mut l, p.author.as_str());
        push_str(&mut l, ", downloads: ");
        push_int(&mut l, p.downloads);
        push_str(&mut l, ")");
        out.push(l);
        i = i + 1;
    }
    assert(lines_view(out@) =~= search_text(query@, packages@));
    out
}

// ---------------------------------------------------------------------------
// info and install
// ---------------------------------------------------------------------------

/// The versions of a package, newest first, joined by `, `.
pub open spec fn joined_versions(vs: Seq<PackageVersion>) -> Seq<char>
    decreases vs.len(),
{
    if vs.len() == 0 {
        Seq::empty()
    } else if vs.len() == 1 {
        vs[0].version@
    } else {
        joined_versions(vs.drop_last()) + ", "@ + vs.last().version@
    }
}

/// The version a command shows or installs: the one asked for, else the
/// newest (first).
pub open spec fn chosen_version(vs: Seq<PackageVersion>, wanted: Option<Seq<char>>, name: Seq<char>) -> Result<
    int,
    Seq<char>,
> {
    if vs.len() == 0 {
        Err("Package '"@ + name + "' not found"@)
    } else {
        match wanted {
            None => Ok(0),
            Some(w) => match first_version(vs, w, 0) {
                Some(i) => Ok(i),
                None => Err("Version '"@ + w + "' not found for '"@ + name + "'"@),
            },
        }
    }
}

/// The first index from `k` on whose version is `w`.
pub open spec fn first_version(vs: Seq<PackageVersion>, w: Seq<char>, k: int) -> Option<int>
    decreases vs.len() - k,
{
    if k < 0 || k >= vs.len() {
        None
    } else if vs[k].version@ == w {
        Some(k)
    } else {
        first_version(vs, w, k + 1)
    }
}

pub fn choose_version(versions: &[PackageVersion], wanted: Option<&str>, name: &str) -> (r: Result<
    usize,
    String,
>)
    ensures
        match r {
            Ok(i) => chosen_version(versions@, opt_view(wanted), name@) == Ok::<int, Seq<char>>(
                i as int,
            ) && i < versions@.len(),
            Err(e) => chosen_version(versions@, opt_view(wanted), name@) == Err::<int, Seq<char>>(
                e@,
            ),
        },
{
    if versions.len() == 0 {
        let mut m = String::from_str("Package '");
        push_str(&mut m, name);
        push_str(&mut m, "' not found");
        return Err(m);
    }
    match wanted {
        None => Ok(0),
        Some(w) => {
            let mut i: usize = 0;
            while i < versions.len()
                invariant
                    wanted == Some(w),
                    versions@.len() > 0,
                    i <= versions@.len(),
                    first_version(versions@, w@, 0) == first_version(versions@, w@, i as int),
                decreases versions.len() - i,
            {
                if str_eq(versions[i].version.as_str(), w) {
                    return Ok(i);
                }
                i = i + 1;
            }
            let mut m = String::from_str("Version '");
            push_str(&mut m, w);
            push_str(&mut m, "' not found for '");
            push_str(&mut m, name);
            push_str(&mut m, "'");
            Err(m)
        },
    }
}

fn joined_versions_of(versions: &[PackageVersion]) -> (r: String)
    ensures
        r@ == joined_versions(versions@),
{
    let mut out = String::new();
    let mut i: usize = 0;
    while i < versions.len()
        invariant
            i <= versions@.len(),
            out@ == joined_versions(versions@.take(i as int)),
        decreases versions.len() - i,
    {
        assert(versions@.take(i + 1).drop_last() =~= versions@.take(i as int));
        if i > 0 {
            push_str(&mut out, ", ");
        } else {
            assert(versions@.take(1)[0] == versions@[0]);
        }
        push_str(&mut out, versions[i].version.as_str());
        i = i + 1;
    }
    assert(versions@.take(versions@.len() as int) =~= versions@);
    out
}

/// What `vpm info` prints about the selected version.
pub open spec fn info_text(
    sel: PackageVersion,
    vs: Seq<PackageVersion>,
    registry: Seq<char>,
    readme: bool,
) -> Seq<Seq<char>> {
    let reg = trim_end_char(registry, '/');
    let head = seq![
        sel.name@ + "@"@ + sel.version@,
        "author: "@ + sel.author@,
        "downloads: "@ + int_text(sel.downloads as int),
        "published: "@ + sel.created_at@,
        "description: "@ + sel.description@,
    ];
    let source = if trim(sel.github_repo@).len() > 0 {
        seq!["source: "@ + repo_url(sel.github_repo@)]
    } else {
        Seq::empty()
    };
    let tarball = if trim(sel.tarball_url@).len() > 0 {
        seq!["tarball: "@ + sel.tarball_url@]
    } else {
        Seq::empty()
    };
    let install = seq![
        "install latest: vpm install "@ + sel.name@ + " --registry "@ + reg,
        "install exact: vpm install "@ + sel.name@ + " --version "@ + sel.version@
            + " --registry "@ + reg,
        "versions: "@ + joined_versions(vs),
    ];
    let tail = if readme {
        if trim(sel.readme@).len() == 0 {
            seq!["\nREADME: <empty>"@]
        } else {
            seq!["\nREADME:\n"@ + sel.readme@]
        }
    } else {
        seq!["hint: pass --readme to print the README"@]
    };
    head + source + tarball + install + tail
}

fn line2(a: &str, b: &str) -> (r: String)
    ensures
        r@ == a@ + b@,
{
    let mut s = String::from_str(a);
    push_str(&mut s, b);
    s
}

/// What `vpm info` prints, or why it cannot.
#[verifier::rlimit(60)]
pub fn info_report(registry: &str, name: &str, versions: &[PackageVersion], wanted: Option<&str>, readme: bool) -> (r:
    Result<Vec<String>, String>)
    ensures
        match (r, chosen_version(versions@, opt_view(wanted), name@)) {
            (Ok(lines), Ok(i)) => lines_view(lines@) == info_text(
                versions@[i],
                versions@,
                registry@,
                readme,
            ),
            (Err(e), Err(m)) => e@ == m,
            _ => false,
        },
{
    let i = match choose_version(versions, wanted, name) {
        Ok(i) => i,
        Err(e) => return Err(e),
    };
    let sel = &versions[i];
    let reg = normalize_registry(registry);
    let mut out: Vec<String> = Vec::new();
    let mut first = String::from_str(sel.name.as_str());
    push_str(&mut first, "@");
    push_str(&mut first, sel.version.as_str());
    out.push(first);
    out.push(line2("author: ", sel.author.as_str()));
    let mut d = String::from_str("downloads: ");
    push_int(&mut d, sel.downloads);
    out.push(d);
    out.push(line2("published: ", sel.created_at.as_str()));
    out.push(line2("description: ", sel.description.as_str()));
    let ghost n_head = out@.len();
    if !is_blank(sel.github_repo.as_str()) {
        let url = crate::vpm::names::normalize_repo_clone_url(sel.github_repo.as_str());
        out.push(line2("source: ", url.as_str()));
    }
    if !is_blank(sel.tarball_url.as_str()) {
        out.push(line2("tarball: ", sel.tarball_url.as_str()));
    }
    let mut latest = String::from_str("install latest: vpm install ");
    push_str(&mut latest, sel.name.as_str());
    push_str(&mut latest, " --registry ");
    push_str(&mut latest, reg.as_str());
    out.push(latest);
    let mut exact = String::from_str("install exact: vpm install ");
    push_str(&mut exact, sel.name.as_str());
    push_str(&mut exact, " --version ");
    push_str(&mut exact, sel.version.as_str());
    push_str(&mut exact, " --registry ");
    push_str(&mut exact, reg.as_str());
    out.push(exact);
    let all = joined_versions_of(versions);
    out.push(line2("versions: ", all.as_str()));
    if readme {
        if is_blank(sel.readme.as_str()) {
            out.push(String::from_str("\nREADME: <empty>"));
        } else {
            out.push(line2("\nREADME:\n", sel.readme.as_str()));
        }
    } else {
        out.push(String::from_str("hint: pass --readme to print the README"));
    }
    assert(lines_view(out@) =~= info_text(versions@[i as int], versions@, registry@, readme));
    Ok(out)
}

/// Where `vpm install` puts a package, and what it fetches for it.
pub struct InstallPlan {
    /// `void_modules/<name>`.
    pub module_dir: String,
    /// `void_modules/<name>/package.json`.
    pub metadata_path: String,
    /// The repository to clone, when the version names one.
    pub github_repo: Option<String>,
    /// The tarball to download, made absolute against the registry.
    pub download_url: Option<String>,
}

pub fn install_plan(selected: &PackageVersion, registry: &str) -> (p: InstallPlan)
    ensures
        p.module_dir@ == crate::paths::join("void_modules"@, selected.name@),
        p.metadata_path@ == crate::paths::join(p.module_dir@, "package.json"@),
        string_opt(p.github_repo) == if trim(selected.github_repo@).len() > 0 {
            Some(selected.github_repo@)
        } else {
            None
        },
        string_opt(p.download_url) == if trim(selected.tarball_url@).len() > 0 {
            Some(crate::vpm::names::absolute_url(registry@, selected.tarball_url@))
        } else {
            None
        },
{
    let module_dir = crate::paths::join_path("void_modules", selected.name.as_str());
    let metadata_path = crate::paths::join_path(module_dir.as_str(), "package.json");
    let github_repo = if is_blank(selected.github_repo.as_str()) {
        None
    } else {
        Some(selected.github_repo.clone())
    };
    let download_url = if is_blank(selected.tarball_url.as_str()) {
        None
    } else {
        Some(crate::vpm::names::absolute_url_from_registry(registry, selected.tarball_url.as_str()))
    };
    InstallPlan { module_dir, metadata_path, github_repo, download_url }
}

// ---------------------------------------------------------------------------
// list and remove
// ---------------------------------------------------------------------------

/// The line `vpm list` prints for an installed package.
pub open spec fn list_text(name: Seq<char>, version: Seq<char>, installed: bool, registry: Seq<char>) -> Seq<
    char,
> {
    name + "@"@ + version + " ["@ + (if installed {
        "installed"@
    } else {
        "missing"@
    }) + "] registry="@ + registry
}

pub fn list_line(name: &str, version: &str, installed: bool, registry: &str) -> (r: String)
    ensures
        r@ == list_text(name@, version@, installed, registry@),
{
    let mut s = String::from_str(name);
    push_str(&mut s, "@");
    push_str(&mut s, version);
    push_str(&mut s, " [");
    if installed {
        push_str(&mut s, "installed");
    } else {
        push_str(&mut s, "missing");
    }
    push_str(&mut s, "] registry=");
    push_str(&mut s, registry);
    s
}

/// `vpm uninstall` fails when there was nothing to remove.
pub fn remove_outcome(name: &str, removed_dir: bool, removed_lock: bool) -> (r: Result<(), String>)
    ensures
        (removed_dir || removed_lock) ==> r is Ok,
        !(removed_dir || removed_lock) ==> (r matches Err(e) && e@ == "Package '"@ + name@
            + "' not found in void_modules or void.lock"@),
{
    if removed_dir || removed_lock {
        return Ok(());
    }
    let mut m = String::from_str("Package '");
    push_str(&mut m, name);
    push_str(&mut m, "' not found in void_modules or void.lock");
    Err(m)
}

// ---------------------------------------------------------------------------
// Ordering names
// ---------------------------------------------------------------------------

/// The order of `String`: character by character, a prefix first.
pub open spec fn text_le(a: Seq<char>, b: Seq<char>) -> bool
    decreases a.len(),
{
    if a.len() == 0 {
        true
    } else if b.len() == 0 {
        false
    } else if a[0] != b[0] {
        a[0] < b[0]
    } else {
        text_le(a.drop_first(), b.drop_first())
    }
}

pub proof fn lemma_text_le_total(a: Seq<char>, b: Seq<char>)
    ensures
        text_le(a, b) || text_le(b, a),
    decreases a.len(),
{
    if a.len() > 0 && b.len() > 0 && a[0] == b[0] {
        lemma_text_le_total(a.drop_first(), b.drop_first());
    }
}

pub proof fn lemma_text_le_trans(a: Seq<char>, b: Seq<char>, c: Seq<char>)
    requires
        text_le(a, b),
        text_le(b, c),
    ensures
        text_le(a, c),
    decreases a.len(),
{
    if a.len() > 0 && b.len() > 0 && c.len() > 0 && a[0] == b[0] && b[0] == c[0] {
        lemma_text_le_trans(a.drop_first(), b.drop_first(), c.drop_first());
    }
}

pub open spec fn sorted_names(s: Seq<String>) -> bool {
    forall|i: int, j: int| 0 <= i < j < s.len() ==> text_le(s[i]@, s[j]@)
}

fn text_le_exec(a: &str, b: &str) -> (r: bool)
    ensures
        r == text_le(a@, b@),
{
    let av = crate::text::chars_of(a);
    let bv = crate::text::chars_of(b);
    let mut i: usize = 0;
    assert(av@.skip(0) =~= av@);
    assert(bv@.skip(0) =~= bv@);
    while i < av.len() && i < bv.len() && av[i] == bv[i]
        invariant
            av@ == a@,
            bv@ == b@,
            i <= av@.len(),
            i <= bv@.len(),
            text_le(a@, b@) == text_le(av@.skip(i as int), bv@.skip(i as int)),
        decreases av.len() - i,
    {
        assert(av@.skip(i as int).drop_first() =~= av@.skip(i + 1));
        assert(bv@.skip(i as int).drop_first() =~= bv@.skip(i + 1));
        i = i + 1;
    }
    if i == av.len() {
        true
    } else if i == bv.len() {
        false
    } else {
        assert(av@.skip(i as int)[0] == av@[i as int]);
        assert(bv@.skip(i as int)[0] == bv@[i as int]);
        av[i] < bv[i]
    }
}

/// The names in `String` order, as `vpm list` shows them.
pub fn sort_names(names: Vec<String>) -> (r: Vec<String>)
    ensures
        sorted_names(r@),
        r@.to_multiset() == names@.to_multiset(),
{
    broadcast use vstd::seq_lib::group_to_multiset_ensures;

    let mut out: Vec<String> = Vec::new();
    let mut i: usize = 0;
    while i < names.len()
        invariant
            i <= names@.len(),
            sorted_names(out@),
            out@.to_multiset() == names@.take(i as int).to_multiset(),
        decreases names.len() - i,
    {
        let x = names[i].clone();
        let mut pos: usize = 0;
        while pos < out.len() && text_le_exec(out[pos].as_str(), x.as_str())
            invariant
                pos <= out@.len(),
                forall|j: int| 0 <= j < pos ==> text_le(#[trigger] out@[j]@, x@),
            decreases out.len() - pos,
        {
            pos = pos + 1;
        }
        let ghost old_out = out@;
        proof {
            if pos < old_out.len() {
                lemma_text_le_total(old_out[pos as int]@, x@);
            }
            assert forall|j: int| pos <= j < old_out.len() implies text_le(
                x@,
                #[trigger] old_out[j]@,
            ) by {
                if j > pos {
                    lemma_text_le_trans(x@, old_out[pos as int]@, old_out[j]@);
                }
            }
        }
        out.insert(pos, x);
        proof {
            assert(out@ == old_out.insert(pos as int, names@[i as int]));
            assert(names@.take(i + 1) =~= names@.take(i as int).push(names@[i as int]));
            vstd::seq_lib::to_multiset_insert(old_out, pos as int, names@[i as int]);
            vstd::seq_lib::to_multiset_build(names@.take(i as int), names@[i as int]);
            assert forall|a: int, b: int| 0 <= a < b < out@.len() implies text_le(
                out@[a]@,
                out@[b]@,
            ) by {
                if b < pos {
                } else if a < pos && b == pos {
                } else if a < pos {
                    assert(out@[b] == old_out[b - 1]);
                } else if a == pos {
                    assert(out@[b] == old_out[b - 1]);
                } else {
                    assert(out@[a] == old_out[a - 1]);
                    assert(out@[b] == old_out[b - 1]);
                }
            }
        }
        i = i + 1;
    }
    assert(names@.take(names@.len() as int) =~= names@);
    out
}

/// After a login is saved for a registry, `vpm whoami` for that registry
/// (whatever trailing slashes either address has) reports its user and when
/// it was saved.
pub proof fn law_whoami_reports_the_saved_login(
    store: Map<Seq<char>, AuthSessionV>,
    saved_for: Seq<char>,
    asked_for: Seq<char>,
    session: AuthSessionV,
)
    requires
        trim_end_char(saved_for, '/') == trim_end_char(asked_for, '/'),
    ensures
        ({
            let after = store.insert(trim_end_char(saved_for, '/'), session);
            let found = after[trim_end_char(asked_for, '/')];
            &&& after.contains_key(trim_end_char(asked_for, '/'))
            &&& whoami_text(Some(found), asked_for) == Ok::<(Seq<char>, Seq<char>), Seq<char>>(
                (logged_in_text(session.username, asked_for), "Saved at "@ + session.saved_at),
            )
        }),
{
}

/// A token given on the command line wins over `VPM_TOKEN`, which wins over
/// a saved login; a saved login is used only when neither is given.
pub proof fn law_given_tokens_come_first(
    explicit: Option<Seq<char>>,
    env: Option<Seq<char>>,
    saved: Option<AuthSessionV>,
)
    ensures
        (explicit matches Some(t) && trim(t).len() > 0) ==> auth_token(explicit, env, saved)
            == Some(trim(explicit->0)),
        given_token(explicit, env) is None ==> auth_token(explicit, env, saved) == (match saved {
            Some(s) => Some(s.token),
            None => None,
        }),
{
}

} // verus!
