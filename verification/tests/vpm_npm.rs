use void::registry::html::PackageVersion;
use void::vpm::json::{
    existing_import_version_of, extract_author_name, extract_repository_url, read_existing_import_version, JsonValue,
};
use void::vpm::npm::{is_legacy_void_unit, npm_wrapper_script as bridge_script};
use void::vpm::npm_import::{
    npm_import_manifest, npm_import_module_dir, npm_import_name, npm_import_note,
    npm_import_payload, npm_import_publish_outcome, npm_version_details, npm_wrapper_script,
    registry_has_version, select_npm_import_version, split_lines, void_unit_source,
    NpmPackageRoot,
};
use void::vpm::npm_import::{npm_import_plan, npm_import_route, NpmImportRoute};

fn s(x: &str) -> JsonValue {
    JsonValue::Str(x.to_string())
}

fn obj(entries: Vec<(&str, JsonValue)>) -> JsonValue {
    JsonValue::Object(entries.into_iter().map(|(k, v)| (k.to_string(), v)).collect())
}

fn reg_version(v: &str) -> PackageVersion {
    PackageVersion {
        name: "npm_x".into(),
        version: v.into(),
        description: String::new(),
        author: String::new(),
        tarball_url: String::new(),
        github_repo: String::new(),
        readme: String::new(),
        created_at: String::new(),
        downloads: 0,
    }
}

fn root() -> NpmPackageRoot {
    NpmPackageRoot {
        description: Some("root description".into()),
        repository: Some(obj(vec![("type", s("git")), ("url", s("git+https://github.com/o/r.git"))])),
        author: Some(s("Root Author")),
        dist_tags: vec![("latest".into(), "2.0.0".into())],
        versions: vec![
            (
                "2.0.0".into(),
                obj(vec![
                    ("dist", obj(vec![("tarball", s("https://registry.npmjs.org/x/-/x-2.0.0.tgz"))])),
                    ("main", s("./lib/index.js")),
                    ("author", obj(vec![("name", s("Version Author"))])),
                ]),
            ),
            ("1.0.0".into(), obj(vec![("description", s("old"))])),
        ],
    }
}

#[test]
fn json_fields() {
    assert_eq!(extract_repository_url(&s("https://x")), Some("https://x".to_string()));
    assert_eq!(extract_repository_url(&obj(vec![("url", s("u"))])), Some("u".to_string()));
    assert_eq!(extract_repository_url(&obj(vec![("url", JsonValue::Null)])), None);
    assert_eq!(extract_author_name(&obj(vec![("name", s("ann"))])), Some("ann".to_string()));
    assert_eq!(extract_author_name(&JsonValue::Array(vec![s("a")])), None);
    let pj = obj(vec![("name", s("x")), ("version", s(" 1.2.3 "))]);
    assert_eq!(read_existing_import_version(&pj), Some("1.2.3".to_string()));
    assert_eq!(read_existing_import_version(&obj(vec![("version", s("  "))])), None);
    assert_eq!(read_existing_import_version(&obj(vec![("version", JsonValue::Number("1".into()))])), None);
}

#[test]
fn import_names_and_dirs() {
    assert_eq!(npm_import_name("discord.js", None).unwrap(), "npm_discord_js");
    assert_eq!(npm_import_name("discord.js", Some("djs")).unwrap(), "djs");
    assert_eq!(npm_import_name("  ", None).unwrap_err(), "Package name cannot be empty");
    assert_eq!(
        npm_import_name("x", Some("bad alias")).unwrap_err(),
        "Package name may only contain letters, numbers, '-' and '_'"
    );
    assert_eq!(npm_import_module_dir("djs", true, Some("out")), "void_modules/djs");
    assert_eq!(npm_import_module_dir("djs", false, Some("out")), "out/djs");
    assert_eq!(npm_import_module_dir("djs", false, None), "vpm-imports/djs");
}

#[test]
fn import_version_selection() {
    let r = root();
    let c = select_npm_import_version("x", "npm_x", Some("1.0.0"), true, &[reg_version("9")], Some("5"), &r).unwrap();
    assert_eq!(c.version, "1.0.0");
    assert_eq!(c.notice, None);
    let c = select_npm_import_version("x", "npm_x", None, true, &[reg_version("9"), reg_version("8")], Some("5"), &r).unwrap();
    assert_eq!(c.version, "9");
    assert_eq!(c.notice.unwrap(), "Using website registry version 9 for npm_x. Pass --version to override.");
    let c = select_npm_import_version("x", "npm_x", None, false, &[reg_version("9")], Some("5"), &r).unwrap();
    assert_eq!(c.version, "5");
    assert_eq!(c.notice.unwrap(), "Using pinned version 5 from previous import for x. Pass --version to change it.");
    let c = select_npm_import_version("x", "npm_x", None, true, &[], None, &r).unwrap();
    assert_eq!(c.version, "2.0.0");
    let mut no_latest = root();
    no_latest.dist_tags.clear();
    assert_eq!(
        select_npm_import_version("x", "npm_x", None, false, &[], None, &no_latest).err().unwrap(),
        "npm package 'x' does not have a latest dist-tag"
    );
}

#[test]
fn version_details_and_files() {
    let r = root();
    let d = npm_version_details("x", "2.0.0", &r).unwrap();
    assert_eq!(d.tarball_url, "https://registry.npmjs.org/x/-/x-2.0.0.tgz");
    assert_eq!(d.main_js, "./lib/index.js");
    assert_eq!(d.main_void, "lib/index.void");
    assert_eq!(d.description, "root description");
    assert_eq!(d.repository, "git+https://github.com/o/r.git");
    assert_eq!(d.author, "Version Author");
    assert_eq!(npm_version_details("x", "1.0.0", &r).err().unwrap(), "npm package 'x@1.0.0' has no dist.tarball");
    assert_eq!(npm_version_details("x", "3.0.0", &r).err().unwrap(), "Version '3.0.0' not found for npm package 'x'");

    assert_eq!(
        npm_import_manifest("npm_x", "2.0.0", "x", &d),
        "name = \"npm_x\"\nversion = \"2.0.0\"\ndescription = \"npm import: x - root description\"\nauthor = \"Version Author\"\ntarball_url = \"https://registry.npmjs.org/x/-/x-2.0.0.tgz\"\ngithub_repo = \"git+https://github.com/o/r.git\"\n"
    );
    let note = npm_import_note("x", "2.0.0", &d, "npm_x");
    assert_eq!(
        note,
        "This package was converted from npm to Void-only format.\n\nnpm: x@2.0.0\nentry.js: ./lib/index.js\nentry.void: lib/index.void\n\nUse in Void:\n  use \"npm_x\" as pkg\n"
    );
    let p = npm_import_payload("npm_x", "2.0.0", "x", &d, &note);
    assert_eq!(p.description.unwrap(), "npm import: x - root description");
    assert_eq!(p.github_repo.unwrap(), "git+https://github.com/o/r.git");
    assert_eq!(p.npm_name.unwrap(), "x");
}

#[test]
fn wrapper_scripts() {
    assert_eq!(
        npm_wrapper_script("x", "1.0", "lib/a.void"),
        "module.exports.name = \"x\"\nmodule.exports.version = \"1.0\"\nmodule.exports.kind = \"npm_to_void\"\nmodule.exports.entry_void = \"npm/package/lib/a.void\"\nmodule.exports.runtime = \"void_only\"\nmodule.exports.warning = \"Auto-converted npm package. Manual API adaptation may be needed.\"\n\nmodule.exports.run_entry = fn () {\nreturn \"void-only package: \" + module.exports.entry_void\n}\n\nmodule.exports.run = fn (relative_js) {\nreturn \"void-only conversion mode has no JS runtime bridge\"\n}\n"
    );
    let b = bridge_script("a\"b", "1", "index.js");
    assert!(b.starts_with("module.exports.name = \"a\\\"b\"\n"));
    assert!(b.contains("module.exports.kind = \"npm_bridge\"\nmodule.exports.entry_js = \"npm/package/index.js\"\n"));
    assert!(b.ends_with("return cmd.run(\"node '\" + __dirname + \"/npm/package/\" + relative_js + \"'\")\n}\n"));
    assert!(is_legacy_void_unit("x\nmodule.exports.kind = \"npm_void_unit\"\n"));
    assert!(!is_legacy_void_unit(&b));
}

#[test]
fn publishing_an_import() {
    assert!(registry_has_version(&[reg_version("1"), reg_version("2")], "2"));
    assert!(!registry_has_version(&[reg_version("1")], "2"));
    assert_eq!(
        npm_import_publish_outcome(true, "", "npm_x", "1", "http://r/").unwrap(),
        "Published npm_x@1 to website registry http://r"
    );
    assert_eq!(
        npm_import_publish_outcome(false, "UNIQUE constraint failed", "npm_x", "1", "http://r").unwrap(),
        "Website registry already contains npm_x@1 (duplicate publish skipped)."
    );
    assert_eq!(
        npm_import_publish_outcome(false, "denied", "npm_x", "1", "http://r").unwrap_err(),
        "Website registry publish failed: denied"
    );
}

#[test]
fn lines_like_str_lines() {
    for text in ["", "a", "a\n", "a\r\nb", "\n\n", "x\r", "one\ntwo\r\n\nthree", "\r\n"] {
        let expected: Vec<String> = text.lines().map(|l| l.to_string()).collect();
        assert_eq!(split_lines(text), expected, "lines of {text:?}");
    }
}

#[test]
fn void_units() {
    let src = "\n  \n// first\r\nmore é\n";
    assert_eq!(
        void_unit_source("lib\\a.js", src),
        format!(
            "// Auto-converted from npm JS/TS source by vpm.\n// Original file: lib/a.js\nmodule.exports.kind = \"npm_void_unit\"\nmodule.exports.source_file = \"lib/a.js\"\nmodule.exports.lines = 4\nmodule.exports.bytes = {}\nmodule.exports.preview = \"// first\"\nmodule.exports.note = \"Converted to Void-only package format\"\n",
            src.len()
        )
    );
    let long = "x".repeat(130);
    let unit = void_unit_source("b.js", &long);
    assert!(unit.contains(&format!("module.exports.preview = \"{}\"\n", "x".repeat(120))));
    assert!(void_unit_source("c.js", "").contains("module.exports.lines = 0\nmodule.exports.bytes = 0\nmodule.exports.preview = \"\""));
}

#[test]
fn npm_import_steps_follow_the_flags() {
    let plain = npm_import_plan(false, true);
    assert!(!plain.read_registry_versions && !plain.publish_missing_version && !plain.update_lock);
    assert!(plain.note_npm_deps_ignored);
    let installing = npm_import_plan(true, false);
    assert!(installing.read_registry_versions && installing.publish_missing_version && installing.update_lock);
    assert!(!installing.note_npm_deps_ignored);
    match npm_import_route(Some("tok".to_string())) {
        NpmImportRoute::Account(t) => assert_eq!(t, "tok"),
        NpmImportRoute::Guest => panic!("expected the account route"),
    }
    assert!(matches!(npm_import_route(None), NpmImportRoute::Guest));
}

#[test]
fn recorded_version_from_package_json_text() {
    let text = "{\"name\": \"npm_left_pad\", \"version\": \" 1.3.0 \", \"main\": \"index.void\"}";
    assert_eq!(existing_import_version_of(text), Some("1.3.0".to_string()));
    assert_eq!(existing_import_version_of("{\"version\": \"   \"}"), None);
    assert_eq!(existing_import_version_of("{\"version\": 3}"), None);
    assert_eq!(existing_import_version_of("[\"version\"]"), None);
    assert_eq!(existing_import_version_of("{\"version\": \"2.0\""), None);
    assert_eq!(existing_import_version_of("not json"), None);
}
