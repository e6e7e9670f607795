//! `vpm npm-import`: bringing an npm package in as a Void package — its
//! name, where it goes, which version, what is read from npm's metadata,
//! the files written for it, and what publishing it to the registry gave.
use vstd::prelude::*;

use crate::paths::{join, join_path};
use crate::registry::html::PackageVersion;
use crate::registry::replies::{is_unique_violation, mentions_unique};
use crate::text::{decimal, is_blank, map_chars, push_decimal, push_str, str_eq, trim};
use crate::vpm::commands::{opt_view, string_opt};
use crate::vpm::json::{
    extract_author_name, extract_repository_url, get_text, member, member_text, text_or_member,
    JsonValue,
};
use crate::vpm::names::{
    escape_toml_string, escape_void_string, escaped, normalize_registry, npm_main_to_void_path,
    npm_name_to_void_name, package_name_error, validate_package_name, void_entry_path,
    void_name_for,
};
use crate::text::trim_end_char;

verus! {

// ---------------------------------------------------------------------------
// Name and place
// ---------------------------------------------------------------------------

/// The Void name of an import: the alias if given, else derived from the npm
/// name; refused when the npm name is blank or the Void name is invalid.
pub open spec fn import_name(package: Seq<char>, alias: Option<Seq<char>>) -> Result<Seq<char>, Seq<char>> {
    if trim(package).len() == 0 {
        Err("Package name cannot be empty"@)
    } else {
        let n = match alias {
            Some(a) => a,
            None => void_name_for(package),
        };
        match package_name_error(n) {
            Some(e) => Err(e),
            None => Ok(n),
        }
    }
}

pub fn npm_import_name(package: &str, alias: Option<&str>) -> (r: Result<String, String>)
    ensures
        match r {
            Ok(n) => import_name(package@, opt_view(alias)) == Ok::<Seq<char>, Seq<char>>(n@),
            Err(e) => import_name(package@, opt_view(alias)) == Err::<Seq<char>, Seq<char>>(e@),
        },
{
    if is_blank(package) {
        return Err(String::from_str("Package name cannot be empty"));
    }
    let n = match alias {
        Some(a) => String::from_str(a),
        None => npm_name_to_void_name(package),
    };
    match validate_package_name(n.as_str()) {
        Ok(()) => Ok(n),
        Err(e) => Err(e),
    }
}

/// Where an import is written: `void_modules` when installing, else the
/// chosen output directory, else `vpm-imports`.
pub open spec fn import_dir(void_name: Seq<char>, install: bool, out_dir: Option<Seq<char>>) -> Seq<char> {
    if install {
        join("void_modules"@, void_name)
    } else {
        match out_dir {
            Some(d) => join(d, void_name),
            None => join("vpm-imports"@, void_name),
        }
    }
}

pub fn npm_import_module_dir(void_name: &str, install: bool, out_dir: Option<&str>) -> (r: String)
    ensures
        r@ == import_dir(void_name@, install, opt_view(out_dir)),
{
    if install {
        join_path("void_modules", void_name)
    } else {
        match out_dir {
            Some(d) => join_path(d, void_name),
            None => join_path("vpm-imports", void_name),
        }
    }
}

// ---------------------------------------------------------------------------
// npm's metadata
// ---------------------------------------------------------------------------

/// The parts of an npm package document that an import reads.
pub struct NpmPackageRoot {
    pub description: Option<String>,
    pub repository: Option<JsonValue>,
    pub author: Option<JsonValue>,
    /// `dist-tags`, by tag.
    pub dist_tags: Vec<(String, String)>,
    /// `versions`, by version.
    pub versions: Vec<(String, JsonValue)>,
}

/// The value of the first entry with key `key`.
pub open spec fn lookup<V>(entries: Seq<(String, V)>, key: Seq<char>) -> Option<V>
    decreases entries.len(),
{
    if entries.len() == 0 {
        None
    } else if entries[0].0@ == key {
        Some(entries[0].1)
    } else {
        lookup(entries.drop_first(), key)
    }
}

pub open spec fn string_lookup(entries: Seq<(String, String)>, key: Seq<char>) -> Option<Seq<char>> {
    match lookup(entries, key) {
        Some(s) => Some(s@),
        None => None,
    }
}

fn find_entry<V>(entries: &Vec<(String, V)>, key: &str) -> (r: Option<usize>)
    ensures
        match r {
            Some(i) => i < entries@.len() && lookup(entries@, key@) == Some(entries@[i as int].1),
            None => lookup(entries@, key@) is None,
        },
{
    let mut i: usize = 0;
    assert(entries@.skip(0) =~= entries@);
    while i < entries.len()
        invariant
            i <= entries@.len(),
            lookup(entries@, key@) == lookup(entries@.skip(i as int), key@),
        decreases entries.len() - i,
    {
        assert(entries@.skip(i as int).drop_first() =~= entries@.skip(i + 1));
        if str_eq(entries[i].0.as_str(), key) {
            return Some(i);
        }
        i = i + 1;
    }
    None
}

/// The version an import takes, and the note printed when it was not asked
/// for.
pub struct VersionChoice {
    pub version: String,
    pub notice: Option<String>,
}

/// Which version to import: the one asked for; else, when installing and the
/// registry knows the package, its newest version there; else the version
/// of an earlier import; else npm's `latest`.
pub open spec fn import_version(
    package: Seq<char>,
    void_name: Seq<char>,
    explicit: Option<Seq<char>>,
    install: bool,
    registry_versions: Seq<PackageVersion>,
    pinned: Option<Seq<char>>,
    latest: Option<Seq<char>>,
) -> Result<(Seq<char>, Option<Seq<char>>), Seq<char>> {
    match explicit {
        Some(v) => Ok((v, None)),
        None => if install && registry_versions.len() > 0 {
            let v = registry_versions[0].version@;
            Ok(
                (
                    v,
                    Some(
                        "Using website registry version "@ + v + " for "@ + void_name
                            + ". Pass --version to override."@,
                    ),
                ),
            )
        } else {
            match pinned {
                Some(v) => Ok(
                    (
                        v,
                        Some(
                            "Using pinned version "@ + v + " from previous import for "@ + package
                                + ". Pass --version to change it."@,
                        ),
                    ),
                ),
                None => match latest {
                    Some(v) => Ok((v, None)),
                    None => Err(
                        "npm package '"@ + package + "' does not have a latest dist-tag"@,
                    ),
                },
            }
        },
    }
}

pub open spec fn choice_view(c: VersionChoice) -> (Seq<char>, Option<Seq<char>>) {
    (c.version@, string_opt(c.notice))
}

pub fn select_npm_import_version(
    package: &str,
    void_name: &str,
    explicit: Option<&str>,
    install: bool,
    registry_versions: &[PackageVersion],
    pinned: Option<&str>,
    root: &NpmPackageRoot,
) -> (r: Result<VersionChoice, String>)
    ensures
        match r {
            Ok(c) => import_version(
                package@,
                void_name@,
                opt_view(explicit),
                install,
                registry_versions@,
                opt_view(pinned),
                string_lookup(root.dist_tags@, "latest"@),
            ) == Ok::<(Seq<char>, Option<Seq<char>>), Seq<char>>(choice_view(c)),
            Err(e) => import_version(
                package@,
                void_name@,
                opt_view(explicit),
                install,
                registry_versions@,
                opt_view(pinned),
                string_lookup(root.dist_tags@, "latest"@),
            ) == Err::<(Seq<char>, Option<Seq<char>>), Seq<char>>(e@),
        },
{
    if let Some(v) = explicit {
        return Ok(VersionChoice { version: String::from_str(v), notice: None });
    }
    if install && registry_versions.len() > 0 {
        let v = registry_versions[0].version.clone();
        let mut n = String::from_str("Using website registry version ");
        push_str(&mut n, v.as_str());
        push_str(&mut n, " for ");
        push_str(&mut n, void_name);
        push_str(&mut n, ". Pass --version to override.");
        return Ok(VersionChoice { version: v, notice: Some(n) });
    }
    if let Some(v) = pinned {
        let mut n = String::from_str("Using pinned version ");
        push_str(&mut n, v);
        push_str(&mut n, " from previous import for ");
        push_str(&mut n, package);
        push_str(&mut n, ". Pass --version to change it.");
        return Ok(VersionChoice { version: String::from_str(v), notice: Some(n) });
    }
    match find_entry(&root.dist_tags, "latest") {
        Some(i) => Ok(VersionChoice { version: root.dist_tags[i].1.clone(), notice: None }),
        None => {
            let mut m = String::from_str("npm package '");
            push_str(&mut m, package);
            push_str(&mut m, "' does not have a latest dist-tag");
            Err(m)
        },
    }
}

/// What an import takes from the metadata of one npm version.
pub struct NpmVersionDetails {
    pub tarball_url: String,
    pub main_js: String,
    pub main_void: String,
    pub description: String,
    pub repository: String,
    pub author: String,
}

pub struct NpmVersionDetailsV {
    pub tarball_url: Seq<char>,
    pub main_js: Seq<char>,
    pub main_void: Seq<char>,
    pub description: Seq<char>,
    pub repository: Seq<char>,
    pub author: Seq<char>,
}

impl View for NpmVersionDetails {
    type V = NpmVersionDetailsV;

    open spec fn view(&self) -> NpmVersionDetailsV {
        NpmVersionDetailsV {
            tarball_url: self.tarball_url@,
            main_js: self.main_js@,
            main_void: self.main_void@,
            description: self.description@,
            repository: self.repository@,
            author: self.author@,
        }
    }
}

pub open spec fn or_else(a: Option<Seq<char>>, b: Option<Seq<char>>) -> Option<Seq<char>> {
    match a {
        Some(x) => Some(x),
        None => b,
    }
}

pub open spec fn or_text(a: Option<Seq<char>>, d: Seq<char>) -> Seq<char> {
    match a {
        Some(x) => x,
        None => d,
    }
}

/// `text_or_member` of an optional value.
pub open spec fn field_text(v: Option<JsonValue>, key: Seq<char>) -> Option<Seq<char>> {
    match v {
        Some(x) => text_or_member(x, key),
        None => None,
    }
}

pub open spec fn opt_json(o: Option<JsonValue>) -> Option<JsonValue> {
    o
}

/// What the metadata of `version` gives an import: the tarball (required),
/// the entry file (`index.js` by default) and its Void path, and the
/// description, repository and author, each from the version, else from the
/// package, else a default.
pub open spec fn version_details(package: Seq<char>, version: Seq<char>, root: NpmPackageRoot) -> Result<
    NpmVersionDetailsV,
    Seq<char>,
> {
    match lookup(root.versions@, version) {
        None => Err("Version '"@ + version + "' not found for npm package '"@ + package + "'"@),
        Some(m) => {
            let tarball = match member(m, "dist"@) {
                Some(d) => member_text(d, "tarball"@),
                None => None,
            };
            match tarball {
                None => Err("npm package '"@ + package + "@"@ + version + "' has no dist.tarball"@),
                Some(t) => {
                    let main_js = or_text(member_text(m, "main"@), "index.js"@);
                    Ok(
                        NpmVersionDetailsV {
                            tarball_url: t,
                            main_js,
                            main_void: void_entry_path(main_js),
                            description: or_text(
                                or_else(
                                    member_text(m, "description"@),
                                    crate::registry::validate::opt_view(root.description),
                                ),
                                "npm import"@,
                            ),
                            repository: or_text(
                                or_else(
                                    field_text(member(m, "repository"@), "url"@),
                                    field_text(root.repository, "url"@),
                                ),
                                Seq::empty(),
                            ),
                            author: or_text(
                                or_else(
                                    field_text(member(m, "author"@), "name"@),
                                    field_text(root.author, "name"@),
                                ),
                                "npm"@,
                            ),
                        },
                    )
                },
            }
        },
    }
}

fn repository_of(v: Option<&JsonValue>) -> (r: Option<String>)
    ensures
        string_opt(r) == field_text(
            match v {
                Some(x) => Some(*x),
                None => None,
            },
            "url"@,
        ),
{
    match v {
        Some(x) => extract_repository_url(x),
        None => None,
    }
}

fn author_of(v: Option<&JsonValue>) -> (r: Option<String>)
    ensures
        string_opt(r) == field_text(
            match v {
                Some(x) => Some(*x),
                None => None,
            },
            "name"@,
        ),
{
    match v {
        Some(x) => extract_author_name(x),
        None => None,
    }
}

fn first_or(a: Option<String>, b: Option<String>, d: &str) -> (r: String)
    ensures
        r@ == or_text(or_else(string_opt(a), string_opt(b)), d@),
{
    match a {
        Some(x) => x,
        None => match b {
            Some(y) => y,
            None => String::from_str(d),
        },
    }
}

fn root_ref(o: &Option<JsonValue>) -> (r: Option<&JsonValue>)
    ensures
        match r {
            Some(x) => *o == Some(*x),
            None => o is None,
        },
{
    match o {
        Some(x) => Some(x),
        None => None,
    }
}

pub fn npm_version_details(package: &str, version: &str, root: &NpmPackageRoot) -> (r: Result<
    NpmVersionDetails,
    String,
>)
    ensures
        match r {
            Ok(d) => version_details(package@, version@, *root) == Ok::<
                NpmVersionDetailsV,
                Seq<char>,
            >(d@),
            Err(e) => version_details(package@, version@, *root) == Err::<
                NpmVersionDetailsV,
                Seq<char>,
            >(e@),
        },
{
    proof {
        reveal_strlit("");
        assert(""@ =~= Seq::<char>::empty());
    }
    let meta = match find_entry(&root.versions, version) {
        Some(i) => &root.versions[i].1,
        None => {
            let mut m = String::from_str("Version '");
            push_str(&mut m, version);
            push_str(&mut m, "' not found for npm package '");
            push_str(&mut m, package);
            push_str(&mut m, "'");
            return Err(m);
        },
    };
    let tarball = match meta.get("dist") {
        Some(d) => get_text(d, "tarball"),
        None => None,
    };
    let tarball_url = match tarball {
        Some(t) => t,
        None => {
            let mut m = String::from_str("npm package '");
            push_str(&mut m, package);
            push_str(&mut m, "@");
            push_str(&mut m, version);
            push_str(&mut m, "' has no dist.tarball");
            return Err(m);
        },
    };
    let main_js = match get_text(meta, "main") {
        Some(m) => m,
        None => String::from_str("index.js"),
    };
    let main_void = npm_main_to_void_path(main_js.as_str());
    let root_description = match &root.description {
        Some(d) => Some(d.clone()),
        None => None,
    };
    let description = first_or(get_text(meta, "description"), root_description, "npm import");
    let repository = first_or(
        repository_of(meta.get("repository")),
        repository_of(root_ref(&root.repository)),
        "",
    );
    let author = first_or(author_of(meta.get("author")), author_of(root_ref(&root.author)), "npm");
    Ok(NpmVersionDetails { tarball_url, main_js, main_void, description, repository, author })
}

// ---------------------------------------------------------------------------
// Files written for an import
// ---------------------------------------------------------------------------

/// The `voidpkg.toml` written into an import, ready for `vpm publish`.
pub open spec fn import_manifest(
    void_name: Seq<char>,
    version: Seq<char>,
    package: Seq<char>,
    description: Seq<char>,
    author: Seq<char>,
    tarball_url: Seq<char>,
    repository: Seq<char>,
) -> Seq<char> {
    "name = \""@ + escaped(void_name) + "\"\nversion = \""@ + escaped(version)
        + "\"\ndescription = \""@ + escaped("npm import: "@ + package + " - "@ + description)
        + "\"\nauthor = \""@ + escaped(author) + "\"\ntarball_url = \""@ + escaped(tarball_url)
        + "\"\ngithub_repo = \""@ + escaped(repository) + "\"\n"@
}

pub fn npm_import_manifest(
    void_name: &str,
    version: &str,
    package: &str,
    details: &NpmVersionDetails,
) -> (r: String)
    ensures
        r@ == import_manifest(
            void_name@,
            version@,
            package@,
            details.description@,
            details.author@,
            details.tarball_url@,
            details.repository@,
        ),
{
    let mut d = String::from_str("npm import: ");
    push_str(&mut d, package);
    push_str(&mut d, " - ");
    push_str(&mut d, details.description.as_str());
    let mut out = String::from_str("name = \"");
    push_str(&mut out, escape_toml_string(void_name).as_str());
    push_str(&mut out, "\"\nversion = \"");
    push_str(&mut out, escape_toml_string(version).as_str());
    push_str(&mut out, "\"\ndescription = \"");
    push_str(&mut out, escape_toml_string(d.as_str()).as_str());
    push_str(&mut out, "\"\nauthor = \"");
    push_str(&mut out, escape_toml_string(details.author.as_str()).as_str());
    push_str(&mut out, "\"\ntarball_url = \"");
    push_str(&mut out, escape_toml_string(details.tarball_url.as_str()).as_str());
    push_str(&mut out, "\"\ngithub_repo = \"");
    push_str(&mut out, escape_toml_string(details.repository.as_str()).as_str());
    push_str(&mut out, "\"\n");
    out
}

/// The `NPM_IMPORT.txt` note written into an import.
pub open spec fn import_note(
    package: Seq<char>,
    version: Seq<char>,
    main_js: Seq<char>,
    main_void: Seq<char>,
    void_name: Seq<char>,
) -> Seq<char> {
    "This package was converted from npm to Void-only format.\n\nnpm: "@ + package + "@"@ + version
        + "\nentry.js: "@ + main_js + "\nentry.void: "@ + main_void
        + "\n\nUse in Void:\n  use \""@ + void_name + "\" as pkg\n"@
}

pub fn npm_import_note(package: &str, version: &str, details: &NpmVersionDetails, void_name: &str) -> (r:
    String)
    ensures
        r@ == import_note(package@, version@, details.main_js@, details.main_void@, void_name@),
{
    let mut out = String::from_str("This package was converted from npm to Void-only format.\n\nnpm: ");
    push_str(&mut out, package);
    push_str(&mut out, "@");
    push_str(&mut out, version);
    push_str(&mut out, "\nentry.js: ");
    push_str(&mut out, details.main_js.as_str());
    push_str(&mut out, "\nentry.void: ");
    push_str(&mut out, details.main_void.as_str());
    push_str(&mut out, "\n\nUse in Void:\n  use \"");
    push_str(&mut out, void_name);
    push_str(&mut out, "\" as pkg\n");
    out
}

/// The `index.void` of an import: it names the npm package and its Void
/// entry, and has no JavaScript runtime behind it.
pub open spec fn wrapper_script(npm_name: Seq<char>, npm_version: Seq<char>, main_void: Seq<char>) -> Seq<
    char,
> {
    "module.exports.name = \""@ + escaped(npm_name) + "\"\nmodule.exports.version = \""@ + escaped(
        npm_version,
    ) + "\"\nmodule.exports.kind = \"npm_to_void\"\nmodule.exports.entry_void = \"npm/package/"@
        + escaped(main_void)
        + "\"\nmodule.exports.runtime = \"void_only\"\nmodule.exports.warning = \"Auto-converted npm package. Manual API adaptation may be needed.\"\n\nmodule.exports.run_entry = fn () {\nreturn \"void-only package: \" + module.exports.entry_void\n}\n\nmodule.exports.run = fn (relative_js) {\nreturn \"void-only conversion mode has no JS runtime bridge\"\n}\n"@
}

pub fn npm_wrapper_script(npm_name: &str, npm_version: &str, main_void: &str) -> (r: String)
    ensures
        r@ == wrapper_script(npm_name@, npm_version@, main_void@),
{
    let mut out = String::from_str("module.exports.name = \"");
    push_str(&mut out, escape_void_string(npm_name).as_str());
    push_str(&mut out, "\"\nmodule.exports.version = \"");
    push_str(&mut out, escape_void_string(npm_version).as_str());
    push_str(&mut out, "\"\nmodule.exports.kind = \"npm_to_void\"\nmodule.exports.entry_void = \"npm/package/");
    push_str(&mut out, escape_void_string(main_void).as_str());
    push_str(
        &mut out,
        "\"\nmodule.exports.runtime = \"void_only\"\nmodule.exports.warning = \"Auto-converted npm package. Manual API adaptation may be needed.\"\n\nmodule.exports.run_entry = fn () {\nreturn \"void-only package: \" + module.exports.entry_void\n}\n\nmodule.exports.run = fn (relative_js) {\nreturn \"void-only conversion mode has no JS runtime bridge\"\n}\n",
    );
    out
}

// ---------------------------------------------------------------------------
// Publishing an import
// ---------------------------------------------------------------------------

/// The request `vpm` sends to publish a package.
pub struct PublishPayload {
    pub name: String,
    pub version: String,
    pub description: Option<String>,
    pub tarball_url: Option<String>,
    pub github_repo: Option<String>,
    pub readme: Option<String>,
    pub npm_name: Option<String>,
}

/// The publish request for an import.
pub fn npm_import_payload(
    void_name: &str,
    version: &str,
    package: &str,
    details: &NpmVersionDetails,
    note: &str,
) -> (p: PublishPayload)
    ensures
        p.name@ == void_name@,
        p.version@ == version@,
        string_opt(p.description) == Some("npm import: "@ + package@ + " - "@ + details.description@),
        string_opt(p.tarball_url) == Some(details.tarball_url@),
        string_opt(p.github_repo) == if trim(details.repository@).len() == 0 {
            None
        } else {
            Some(details.repository@)
        },
        string_opt(p.readme) == Some(note@),
        string_opt(p.npm_name) == Some(package@),
{
    let mut d = String::from_str("npm import: ");
    push_str(&mut d, package);
    push_str(&mut d, " - ");
    push_str(&mut d, details.description.as_str());
    PublishPayload {
        name: String::from_str(void_name),
        version: String::from_str(version),
        description: Some(d),
        tarball_url: Some(details.tarball_url.clone()),
        github_repo: if is_blank(details.repository.as_str()) {
            None
        } else {
            Some(details.repository.clone())
        },
        readme: Some(String::from_str(note)),
        npm_name: Some(String::from_str(package)),
    }
}

/// What `vpm npm-import` does beyond converting, from its flags: only with
/// `--install` does it read the registry's versions, publish a version the
/// registry lacks, and record the package in the lock file; `--with-npm-deps`
/// only earns a note that it is ignored.
pub struct NpmImportPlan {
    pub read_registry_versions: bool,
    pub publish_missing_version: bool,
    pub update_lock: bool,
    pub note_npm_deps_ignored: bool,
}

pub fn npm_import_plan(install: bool, with_npm_deps: bool) -> (p: NpmImportPlan)
    ensures
        p.read_registry_versions == install,
        p.publish_missing_version == install,
        p.update_lock == install,
        p.note_npm_deps_ignored == with_npm_deps,
{
    NpmImportPlan {
        read_registry_versions: install,
        publish_missing_version: install,
        update_lock: install,
        note_npm_deps_ignored: with_npm_deps,
    }
}

/// Where an import is published: to the account of the token, or through the
/// registry's guest npm-import endpoint when there is no token.
pub enum NpmImportRoute {
    Account(String),
    Guest,
}

pub fn npm_import_route(token: Option<String>) -> (r: NpmImportRoute)
    ensures
        match token {
            Some(t) => r matches NpmImportRoute::Account(a) && a@ == t@,
            None => r is Guest,
        },
{
    match token {
        Some(t) => NpmImportRoute::Account(t),
        None => NpmImportRoute::Guest,
    }
}

/// Whether the registry already lists `version`.
pub fn registry_has_version(versions: &[PackageVersion], version: &str) -> (b: bool)
    ensures
        b == exists|i: int| 0 <= i < versions@.len() && (#[trigger] versions@[i]).version@ == version@,
{
    let mut i: usize = 0;
    while i < versions.len()
        invariant
            i <= versions@.len(),
            forall|j: int| 0 <= j < i ==> (#[trigger] versions@[j]).version@ != version@,
        decreases versions.len() - i,
    {
        if str_eq(versions[i].version.as_str(), version) {
            return true;
        }
        i = i + 1;
    }
    false
}

/// What publishing an import to the registry comes to: the line to print,
/// or the failure. A refusal that speaks of uniqueness means the version is
/// there already, which is no failure.
pub open spec fn import_publish_outcome(
    ok: bool,
    message: Seq<char>,
    void_name: Seq<char>,
    version: Seq<char>,
    registry: Seq<char>,
) -> Result<Seq<char>, Seq<char>> {
    if ok {
        Ok(
            "Published "@ + void_name + "@"@ + version + " to website registry "@ + trim_end_char(
                registry,
                '/',
            ),
        )
    } else if mentions_unique(message) {
        Ok(
            "Website registry already contains "@ + void_name + "@"@ + version
                + " (duplicate publish skipped)."@,
        )
    } else {
        Err("Website registry publish failed: "@ + message)
    }
}

pub fn npm_import_publish_outcome(
    ok: bool,
    message: &str,
    void_name: &str,
    version: &str,
    registry: &str,
) -> (r: Result<String, String>)
    ensures
        match r {
            Ok(t) => import_publish_outcome(ok, message@, void_name@, version@, registry@) == Ok::<
                Seq<char>,
                Seq<char>,
            >(t@),
            Err(e) => import_publish_outcome(ok, message@, void_name@, version@, registry@) == Err::<
                Seq<char>,
                Seq<char>,
            >(e@),
        },
{
    if ok {
        let mut t = String::from_str("Published ");
        push_str(&mut t, void_name);
        push_str(&mut t, "@");
        push_str(&mut t, version);
        push_str(&mut t, " to website registry ");
        push_str(&mut t, normalize_registry(registry).as_str());
        Ok(t)
    } else if is_unique_violation(message) {
        let mut t = String::from_str("Website registry already contains ");
        push_str(&mut t, void_name);
        push_str(&mut t, "@");
        push_str(&mut t, version);
        push_str(&mut t, " (duplicate publish skipped).");
        Ok(t)
    } else {
        let mut m = String::from_str("Website registry publish failed: ");
        push_str(&mut m, message);
        Err(m)
    }
}

// ---------------------------------------------------------------------------
// Void units made from JavaScript sources
// ---------------------------------------------------------------------------

/// A line without the `\r` of a `\r\n` ending.
pub open spec fn strip_cr(l: Seq<char>) -> Seq<char> {
    if l.len() > 0 && l.last() == '\r' {
        l.drop_last()
    } else {
        l
    }
}

/// `str::lines`: split at `\n`, each `\r\n`-ended line without its `\r`, no
/// empty line after a final `\n`.
pub open spec fn text_lines(s: Seq<char>) -> Seq<Seq<char>>
    decreases s.len(),
{
    if s.len() == 0 {
        Seq::empty()
    } else {
        match crate::registry::accounts::first_index(s, '\n') {
            None => seq![s],
            Some(i) => {
                proof {
                    lemma_first_index_bound(s, '\n');
                }
                seq![strip_cr(s.subrange(0, i))] + text_lines(s.subrange(i + 1, s.len() as int))
            },
        }
    }
}

pub proof fn lemma_first_index_bound(s: Seq<char>, c: char)
    ensures
        crate::registry::accounts::first_index(s, c) matches Some(i) ==> 0 <= i < s.len() && s[i]
            == c,
    decreases s.len(),
{
    if s.len() > 0 {
        lemma_first_index_bound(s.drop_first(), c);
    }
}

proof fn lemma_first_index_at(s: Seq<char>, c: char, i: int)
    requires
        0 <= i <= s.len(),
        forall|j: int| 0 <= j < i ==> s[j] != c,
        i < s.len() ==> s[i] == c,
    ensures
        crate::registry::accounts::first_index(s, c) == if i < s.len() {
            Some(i)
        } else {
            None::<int>
        },
    decreases i,
{
    if i > 0 {
        lemma_first_index_at(s.drop_first(), c, i - 1);
    }
}

/// The first line that is not blank, if any.
pub open spec fn first_non_blank(ls: Seq<Seq<char>>) -> Option<Seq<char>>
    decreases ls.len(),
{
    if ls.len() == 0 {
        None
    } else if trim(ls[0]).len() > 0 {
        Some(ls[0])
    } else {
        first_non_blank(ls.drop_first())
    }
}

pub fn split_lines(text: &str) -> (r: Vec<String>)
    ensures
        crate::vpm::commands::lines_view(r@) == text_lines(text@),
{
    let v = crate::text::chars_of(text);
    let mut out: Vec<String> = Vec::new();
    let mut start: usize = 0;
    let mut k: usize = 0;
    assert(v@.subrange(0, v@.len() as int) == v@);
    while k < v.len()
        invariant
            v@ == text@,
            start <= k <= v@.len(),
            forall|j: int| start <= j < k ==> v@[j] != '\n',
            text_lines(text@) == crate::vpm::commands::lines_view(out@) + text_lines(
                v@.subrange(start as int, v@.len() as int),
            ),
        decreases v.len() - k,
    {
        if v[k] == '\n' {
            let ghost rest = v@.subrange(start as int, v@.len() as int);
            proof {
                lemma_first_index_at(rest, '\n', k - start);
                assert(rest.subrange(0, k - start) =~= v@.subrange(start as int, k as int));
                assert(rest.subrange(k - start + 1, rest.len() as int) =~= v@.subrange(
                    k + 1,
                    v@.len() as int,
                ));
            }
            let mut end = k;
            if end > start && v[end - 1] == '\r' {
                end = end - 1;
                assert(v@.subrange(start as int, k as int).drop_last() =~= v@.subrange(
                    start as int,
                    end as int,
                ));
            }
            let line = crate::text::string_of(v.as_slice(), start, end);
            let ghost before = out@;
            out.push(line);
            assert(crate::vpm::commands::lines_view(out@) =~= crate::vpm::commands::lines_view(
                before,
            ) + seq![strip_cr(v@.subrange(start as int, k as int))]);
            start = k + 1;
        }
        k = k + 1;
    }
    if start < v.len() {
        let ghost rest = v@.subrange(start as int, v@.len() as int);
        proof {
            lemma_first_index_at(rest, '\n', rest.len() as int);
        }
        let line = crate::text::string_of(v.as_slice(), start, v.len());
        let ghost before = out@;
        out.push(line);
        assert(crate::vpm::commands::lines_view(out@) =~= crate::vpm::commands::lines_view(before)
            + seq![rest]);
    } else {
        assert(v@.subrange(start as int, v@.len() as int) =~= Seq::<char>::empty());
    }
    assert(text_lines(text@) =~= crate::vpm::commands::lines_view(out@));
    out
}

fn first_non_blank_of(lines: &Vec<String>) -> (r: Option<usize>)
    ensures
        match r {
            Some(i) => i < lines@.len() && first_non_blank(
                crate::vpm::commands::lines_view(lines@),
            ) == Some(lines@[i as int]@),
            None => first_non_blank(crate::vpm::commands::lines_view(lines@)) is None,
        },
{
    let ghost all = crate::vpm::commands::lines_view(lines@);
    let mut i: usize = 0;
    assert(all.skip(0) =~= all);
    while i < lines.len()
        invariant
            all == crate::vpm::commands::lines_view(lines@),
            i <= lines@.len(),
            first_non_blank(all) == first_non_blank(all.skip(i as int)),
        decreases lines.len() - i,
    {
        assert(all.skip(i as int)[0] == lines@[i as int]@);
        assert(all.skip(i as int).drop_first() =~= all.skip(i + 1));
        if !is_blank(lines[i].as_str()) {
            return Some(i);
        }
        i = i + 1;
    }
    None
}

/// The first `n` characters of `s` (all of it when shorter).
pub open spec fn take_chars(s: Seq<char>, n: nat) -> Seq<char> {
    if s.len() <= n {
        s
    } else {
        s.take(n as int)
    }
}

/// The `.void` unit that stands in for a JavaScript or TypeScript source
/// file: where it came from, its size in lines and bytes, and its first
/// non-blank line (120 characters at most).
pub open spec fn void_unit(relative: Seq<char>, source: Seq<char>) -> Seq<char> {
    let rel = crate::vpm::names::forward_slashes(relative);
    let ls = text_lines(source);
    let first = match first_non_blank(ls) {
        Some(l) => l,
        None => Seq::empty(),
    };
    "// Auto-converted from npm JS/TS source by vpm.\n// Original file: "@ + rel
        + "\nmodule.exports.kind = \"npm_void_unit\"\nmodule.exports.source_file = \""@ + rel
        + "\"\nmodule.exports.lines = "@ + decimal(ls.len()) + "\nmodule.exports.bytes = "@
        + decimal(crate::registry::validate::utf8_len(source)) + "\nmodule.exports.preview = \""@
        + escaped(take_chars(first, 120))
        + "\"\nmodule.exports.note = \"Converted to Void-only package format\"\n"@
}

pub fn void_unit_source(relative: &str, source: &str) -> (r: String)
    ensures
        r@ == void_unit(relative@, source@),
{
    let rel = crate::vpm::names::to_forward_slashes(relative);
    let lines = split_lines(source);
    let bytes = source.as_bytes().len();
    let preview = match first_non_blank_of(&lines) {
        Some(i) => {
            let v = crate::text::chars_of(lines[i].as_str());
            if v.len() <= 120 {
                lines[i].clone()
            } else {
                crate::text::string_of(v.as_slice(), 0, 120)
            }
        },
        None => String::new(),
    };
    let mut out = String::from_str("// Auto-converted from npm JS/TS source by vpm.\n// Original file: ");
    push_str(&mut out, rel.as_str());
    push_str(&mut out, "\nmodule.exports.kind = \"npm_void_unit\"\nmodule.exports.source_file = \"");
    push_str(&mut out, rel.as_str());
    push_str(&mut out, "\"\nmodule.exports.lines = ");
    push_decimal(&mut out, lines.len() as u128);
    push_str(&mut out, "\nmodule.exports.bytes = ");
    push_decimal(&mut out, bytes as u128);
    push_str(&mut out, "\nmodule.exports.preview = \"");
    push_str(&mut out, escape_void_string(preview.as_str()).as_str());
    push_str(&mut out, "\"\nmodule.exports.note = \"Converted to Void-only package format\"\n");
    out
}

/// The entry file of an import is the version's `main` when that is text,
/// and npm's default `index.js` when the version has none.
pub proof fn law_entry_defaults_to_index(package: Seq<char>, version: Seq<char>, root: NpmPackageRoot)
    ensures
        version_details(package, version, root) matches Ok(d) ==> {
            let m = lookup(root.versions@, version)->Some_0;
            &&& member_text(m, "main"@) is None ==> d.main_js == "index.js"@
            &&& member_text(m, "main"@) matches Some(main) ==> d.main_js == main
        },
{
}

} // verus!
