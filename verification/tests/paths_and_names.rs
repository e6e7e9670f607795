use std::path::{Path, PathBuf};

use void::paths::{extension_of, file_name_of, is_absolute_path, join_path, with_extension_of};
use void::vpm::names::{
    absolute_url_from_registry, auth_store_path, encode_npm_name, escape_toml_string,
    escape_void_string, is_js_like_source, normalize_registry, normalize_repo_clone_url,
    npm_import_cache_dir, npm_import_cache_root, npm_main_to_js_path, npm_main_to_void_path,
    npm_name_to_void_name, sanitize_cache_segment, validate_package_name,
};

const SAMPLES: &[&str] = &[
    "", "/", "a", "a/", "a/b.c", "./a.b.c", "../x", "..", ".", "a/..", "a/.", "/a//b/./", ".hidden",
    "dir/.hidden.txt", "file.", "a.b/c", "x.tar.gz", "//", "a/./.", "name.void",
];

#[test]
fn file_names_and_extensions_match_std_path() {
    for s in SAMPLES {
        let p = Path::new(s);
        let expected_name = p.file_name().map(|n| n.to_str().unwrap().to_string());
        assert_eq!(file_name_of(s), expected_name, "file name of {s:?}");
        let expected_ext = p.extension().map(|n| n.to_str().unwrap().to_string());
        assert_eq!(extension_of(s), expected_ext, "extension of {s:?}");
        for ext in ["void", "", "js"] {
            let expected = p.with_extension(ext).to_str().unwrap().to_string();
            assert_eq!(with_extension_of(s, ext), expected, "{s:?} with extension {ext:?}");
        }
        assert_eq!(is_absolute_path(s), p.is_absolute());
    }
}

#[test]
fn joins_match_std_path() {
    for base in ["", "a", "a/", "/x"] {
        for rel in ["b", "/abs", "", "c/d"] {
            let expected = PathBuf::from(base).join(rel).to_str().unwrap().to_string();
            assert_eq!(join_path(base, rel), expected, "{base:?} joined with {rel:?}");
        }
    }
}

#[test]
fn package_names() {
    assert!(validate_package_name("my_pkg-2").is_ok());
    assert_eq!(validate_package_name("").unwrap_err(), "Package name cannot be empty");
    assert_eq!(
        validate_package_name("bad name").unwrap_err(),
        "Package name may only contain letters, numbers, '-' and '_'"
    );
    assert!(validate_package_name("héllo").is_err());
}

#[test]
fn npm_names() {
    assert_eq!(encode_npm_name("@scope/pkg"), "@scope%2fpkg");
    assert_eq!(npm_name_to_void_name("discord.js"), "npm_discord_js");
    assert_eq!(npm_name_to_void_name("@discordjs/builders"), "npm__discordjs_builders");
    assert_eq!(npm_name_to_void_name("Left-Pad!!"), "npm_left_pad");
    assert_eq!(npm_name_to_void_name("---"), "npm_pkg");
    assert_eq!(npm_name_to_void_name(""), "npm_pkg");
    for name in ["discord.js", "@a/b", "???", "x y z"] {
        assert!(validate_package_name(&npm_name_to_void_name(name)).is_ok());
    }
}

#[test]
fn cache_segments_and_dirs() {
    assert_eq!(sanitize_cache_segment("@Scope/Pkg.JS"), "scope_pkg.js");
    assert_eq!(sanitize_cache_segment("___"), "pkg");
    assert_eq!(sanitize_cache_segment("1.0.0-beta+1"), "1.0.0-beta_1");
    assert_eq!(
        npm_import_cache_dir("/cache/npm-import", "@a/B", "1.0.0"),
        "/cache/npm-import/a_b/1.0.0"
    );
    assert_eq!(npm_import_cache_root(Some("/c"), Some("/x"), Some("/h")), "/c/npm-import");
    assert_eq!(npm_import_cache_root(Some("  "), Some("/x"), Some("/h")), "/x/vpm/npm-import");
    assert_eq!(npm_import_cache_root(None, None, Some("/h")), "/h/.cache/vpm/npm-import");
    assert_eq!(npm_import_cache_root(None, None, None), ".vpm-cache/npm-import");
    assert_eq!(auth_store_path(Some("/tmp/a.json"), Some("/h")), "/tmp/a.json");
    assert_eq!(auth_store_path(None, Some("/h")), "/h/.vpm/auth.json");
    assert_eq!(auth_store_path(Some(" "), None), ".vpm-auth.json");
}

#[test]
fn quoting() {
    assert_eq!(escape_toml_string("a\"b\\c"), "a\\\"b\\\\c");
    assert_eq!(escape_void_string("say \"hi\""), "say \\\"hi\\\"");
}

#[test]
fn registries_and_urls() {
    assert_eq!(normalize_registry("http://x///"), "http://x");
    assert_eq!(absolute_url_from_registry("http://r/", "/files/a.tgz"), "http://r/files/a.tgz");
    assert_eq!(absolute_url_from_registry("http://r", "https://cdn/x"), "https://cdn/x");
    assert_eq!(absolute_url_from_registry("http://r", "uploads/a"), "http://r/uploads/a");
    assert_eq!(normalize_repo_clone_url(" git+https://github.com/a/b.git "), "https://github.com/a/b.git");
    assert_eq!(normalize_repo_clone_url("github:/owner/repo"), "https://github.com/owner/repo");
    assert_eq!(normalize_repo_clone_url("  plain "), "plain");
}

#[test]
fn javascript_entries() {
    assert!(is_js_like_source("lib/index.d.ts"));
    assert!(is_js_like_source("a.mjs"));
    assert!(!is_js_like_source("a.json"));
    assert!(!is_js_like_source("README"));
    assert_eq!(npm_main_to_void_path("./lib/index.js"), "lib/index.void");
    assert_eq!(npm_main_to_void_path("lib/main"), "lib/main.void");
    assert_eq!(npm_main_to_void_path("data.json"), "data.json");
    assert_eq!(npm_main_to_void_path("./a\\b.ts"), "a/b.void");
    assert_eq!(npm_main_to_js_path(""), "index.js");
    assert_eq!(npm_main_to_js_path("./lib/x"), "lib/x.js");
    assert_eq!(npm_main_to_js_path("lib/x.cjs"), "lib/x.cjs");
}
