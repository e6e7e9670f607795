//! How the runtime finds the file behind a `use` specifier: relative paths,
//! packages under `void_modules`, directory entries and manifest targets.
//! The caller answers what exists on disk; these functions decide.
use vstd::prelude::*;

use crate::paths::{extension, extension_of, join, join_path, with_extension, with_extension_of};
use crate::text::{ends_with, is_blank, starts_with, str_ends_with, str_starts_with, trim, trimmed};

verus! {

/// A specifier names a file rather than a package when it is relative
/// (`./`, `../`), absolute, or ends in `.void`.
pub open spec fn path_like(specifier: Seq<char>) -> bool {
    starts_with(specifier, "./"@) || starts_with(specifier, "../"@) || starts_with(
        specifier,
        "/"@,
    ) || ends_with(specifier, ".void"@)
}

pub fn is_path_like(specifier: &str) -> (b: bool)
    ensures
        b == path_like(specifier@),
{
    str_starts_with(specifier, "./") || str_starts_with(specifier, "../") || str_starts_with(
        specifier,
        "/",
    ) || str_ends_with(specifier, ".void")
}

/// The path a specifier first stands for: itself when absolute, else
/// joined to the importing module's directory.
pub open spec fn module_candidate(base: Seq<char>, spec: Seq<char>) -> Seq<char> {
    if spec.len() > 0 && spec[0] == '/' {
        spec
    } else {
        join(base, spec)
    }
}

pub fn module_candidate_of(base: &str, spec: &str) -> (r: String)
    ensures
        r@ == module_candidate(base@, spec@),
{
    if crate::paths::is_absolute_path(spec) {
        String::from_str(spec)
    } else {
        join_path(base, spec)
    }
}

/// The file a relative specifier resolves to: the candidate if it exists,
/// else the candidate with `.void` added when it has no extension.
pub open spec fn resolved_path(candidate: Seq<char>, exists: bool) -> Seq<char> {
    if exists {
        candidate
    } else if extension(candidate) is None {
        with_extension(candidate, "void"@)
    } else {
        candidate
    }
}

pub fn resolve_path(candidate: &str, exists: bool) -> (r: String)
    ensures
        r@ == resolved_path(candidate@, exists),
{
    if exists {
        return String::from_str(candidate);
    }
    match extension_of(candidate) {
        None => with_extension_of(candidate, "void"),
        Some(_) => String::from_str(candidate),
    }
}

/// Where a package would be installed when searched from `dir`.
pub open spec fn package_root(dir: Seq<char>, package: Seq<char>) -> Seq<char> {
    join(join(dir, "void_modules"@), package)
}

pub fn package_root_in(dir: &str, package: &str) -> (r: String)
    ensures
        r@ == package_root(dir@, package@),
{
    let m = join_path(dir, "void_modules");
    join_path(m.as_str(), package)
}

/// The places tried, in order, for a package root: the root itself, then
/// its `repo` checkout.
pub fn package_root_entries(root: &str) -> (r: Vec<String>)
    ensures
        r@.len() == 2,
        r@[0]@ == root@,
        r@[1]@ == join(root@, "repo"@),
{
    let mut v: Vec<String> = Vec::new();
    v.push(String::from_str(root));
    v.push(join_path(root, "repo"));
    v
}

/// A path that is neither a file nor a directory is also tried with `.void`
/// when it has no extension.
pub open spec fn void_file_fallback(path: Seq<char>) -> Option<Seq<char>> {
    if extension(path) is None {
        Some(with_extension(path, "void"@))
    } else {
        None
    }
}

pub fn void_file_candidate(path: &str) -> (r: Option<String>)
    ensures
        match r {
            Some(p) => void_file_fallback(path@) == Some(p@),
            None => void_file_fallback(path@) is None,
        },
{
    match extension_of(path) {
        None => Some(with_extension_of(path, "void")),
        Some(_) => None,
    }
}

/// The entry files tried in a module directory, in order.
pub open spec fn directory_entries(dir: Seq<char>) -> Seq<Seq<char>> {
    seq![
        join(dir, "index.void"@),
        join(dir, "main.void"@),
        join(dir, "src/index.void"@),
        join(dir, "src/main.void"@),
    ]
}

pub fn directory_entry_candidates(dir: &str) -> (r: Vec<String>)
    ensures
        crate::vpm::commands::lines_view(r@) == directory_entries(dir@),
{
    let mut v: Vec<String> = Vec::new();
    v.push(join_path(dir, "index.void"));
    v.push(join_path(dir, "main.void"));
    v.push(join_path(dir, "src/index.void"));
    v.push(join_path(dir, "src/main.void"));
    assert(crate::vpm::commands::lines_view(v@) =~= directory_entries(dir@));
    v
}

/// The manifests read in a module directory, in order.
pub open spec fn manifest_names() -> Seq<Seq<char>> {
    seq!["void.json"@, "package.json"@]
}

/// The path a manifest's `main`, `module` or `entry` names, relative to
/// the module directory; none when blank.
pub open spec fn manifest_target(base: Seq<char>, target: Seq<char>) -> Option<Seq<char>> {
    let t = trim(target);
    if t.len() == 0 {
        None
    } else {
        Some(module_candidate(base, t))
    }
}

pub fn resolve_manifest_target(base: &str, target: &str) -> (r: Option<String>)
    ensures
        match r {
            Some(p) => manifest_target(base@, target@) == Some(p@),
            None => manifest_target(base@, target@) is None,
        },
{
    let t = trimmed(target);
    if t.as_str().is_empty() {
        None
    } else {
        Some(module_candidate_of(base, t.as_str()))
    }
}

/// The targets a module manifest names, in the order they are tried.
pub fn manifest_targets(main: Option<String>, module: Option<String>, entry: Option<String>) -> (r:
    Vec<String>)
    ensures
        crate::vpm::commands::lines_view(r@) == opt_seq(main) + opt_seq(module) + opt_seq(entry),
{
    let mut v: Vec<String> = Vec::new();
    let ghost a = opt_seq(main);
    if let Some(m) = main {
        v.push(m);
    }
    assert(crate::vpm::commands::lines_view(v@) =~= a);
    let ghost b = opt_seq(module);
    if let Some(m) = module {
        v.push(m);
    }
    assert(crate::vpm::commands::lines_view(v@) =~= a + b);
    let ghost c = opt_seq(entry);
    if let Some(m) = entry {
        v.push(m);
    }
    assert(crate::vpm::commands::lines_view(v@) =~= a + b + c);
    v
}

pub open spec fn opt_seq(o: Option<String>) -> Seq<Seq<char>> {
    match o {
        Some(s) => seq![s@],
        None => Seq::empty(),
    }
}

} // verus!
