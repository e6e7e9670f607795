use void::registry::html::{PackageSummary, PackageVersion};
use void::vpm::commands::{
    api_url, check_login_input, check_manifest_for_publish, choose_version, confirmed_username,
    explicit_auth_token, info_report, init_manifest_text, install_plan, list_line, logged_in_line,
    login_reply_token, logout_message, publish_auth_required, publish_github_repo,
    publish_outcome, remove_outcome, resolve_auth_token, search_lines, sort_names,
    unix_timestamp_string, whoami_report,
};
use void::vpm::store::AuthStore;

fn version(v: &str, downloads: i64) -> PackageVersion {
    PackageVersion {
        name: "pkg".to_string(),
        version: v.to_string(),
        description: "A package".to_string(),
        author: "ann".to_string(),
        tarball_url: String::new(),
        github_repo: String::new(),
        readme: String::new(),
        created_at: "2024-01-01".to_string(),
        downloads,
    }
}

#[test]
fn timestamps() {
    assert_eq!(unix_timestamp_string(Some(1700000000)), "unix:1700000000");
    assert_eq!(unix_timestamp_string(None), "unix:0");
}

#[test]
fn token_precedence() {
    let mut store = AuthStore::new();
    store.save_auth_session("http://r", "ann", "saved", "unix:1");
    let saved = store.load_auth_session("http://r");
    assert_eq!(resolve_auth_token(Some(" given "), Some("env"), saved.as_ref()), Some("given".to_string()));
    assert_eq!(resolve_auth_token(Some("  "), Some(" env "), saved.as_ref()), Some("env".to_string()));
    assert_eq!(resolve_auth_token(None, Some(""), saved.as_ref()), Some("saved".to_string()));
    assert_eq!(resolve_auth_token(None, None, None), None);
    assert_eq!(explicit_auth_token(None, Some("x")), Some("x".to_string()));
}

#[test]
fn init_manifest() {
    assert_eq!(init_manifest_text(true, Some("a"), None).unwrap_err(), "voidpkg.toml already exists");
    assert_eq!(
        init_manifest_text(false, Some("demo"), Some("dir")).unwrap(),
        "name = \"demo\"\nversion = \"0.1.0\"\ndescription = \"\"\nauthor = \"\"\ntarball_url = \"\"\ngithub_repo = \"\"\n"
    );
    assert!(init_manifest_text(false, None, Some("my-dir")).unwrap().starts_with("name = \"my-dir\""));
    assert!(init_manifest_text(false, None, None).unwrap().starts_with("name = \"void-package\""));
    assert_eq!(
        init_manifest_text(false, None, Some("my dir")).unwrap_err(),
        "Package name may only contain letters, numbers, '-' and '_'"
    );
}

#[test]
fn login_messages() {
    assert_eq!(check_login_input(" ", "pw").unwrap_err(), "Username and password are required");
    assert!(check_login_input("ann", "pw").is_ok());
    assert_eq!(login_reply_token(true, true, "ok".into(), Some("t".into())).unwrap(), "t");
    assert_eq!(login_reply_token(false, true, "denied".into(), Some("t".into())).unwrap_err(), "denied");
    assert_eq!(
        login_reply_token(true, true, "ok".into(), None).unwrap_err(),
        "Login response did not include a token"
    );
    assert_eq!(confirmed_username(Some("Ann"), " ann "), "Ann");
    assert_eq!(confirmed_username(Some("  "), " ann "), "ann");
    assert_eq!(confirmed_username(None, " ann "), "ann");
    assert_eq!(logged_in_line("ann", "http://r/"), "Logged in as 'ann' for http://r");
    assert_eq!(logout_message(true, "http://r/"), "Logged out from http://r");
    assert_eq!(logout_message(false, "http://r"), "No saved login for http://r");
}

#[test]
fn whoami_after_login() {
    let mut store = AuthStore::new();
    store.save_auth_session("http://r/", "ann", "tok", "unix:5");
    let s = store.load_auth_session("http://r");
    let (a, b) = whoami_report(s.as_ref(), "http://r").unwrap();
    assert_eq!(a, "Logged in as 'ann' for http://r");
    assert_eq!(b, "Saved at unix:5");
    assert_eq!(
        whoami_report(None, "http://x/").unwrap_err(),
        "Not logged in for http://x. Run: vpm login <username> <password> --registry http://x"
    );
}

#[test]
fn publish_decisions() {
    assert!(check_manifest_for_publish("pkg", "1.0").is_ok());
    assert_eq!(check_manifest_for_publish("pkg", "  ").unwrap_err(), "Manifest version cannot be empty");
    assert_eq!(check_manifest_for_publish("", "1").unwrap_err(), "Package name cannot be empty");
    assert_eq!(publish_github_repo(Some(" https://github.com/a/b "), Some("x")), Some("https://github.com/a/b".to_string()));
    assert_eq!(publish_github_repo(None, Some(" m ")), Some("m".to_string()));
    assert_eq!(publish_github_repo(Some("  "), Some("m")), None);
    assert_eq!(publish_github_repo(None, None), None);
    assert_eq!(
        publish_auth_required("http://r/"),
        "Publishing requires auth. Run: vpm login <username> <password> --registry http://r or pass --token"
    );
    assert_eq!(publish_outcome(true, "x".into(), "pkg", "1.0").unwrap(), "Published pkg@1.0");
    assert_eq!(publish_outcome(false, "nope".into(), "pkg", "1.0").unwrap_err(), "nope");
    assert_eq!(api_url("http://r//", "/api/publish"), "http://r/api/publish");
}

#[test]
fn search_output() {
    assert_eq!(search_lines("zz", &[]), vec!["No packages found for 'zz'".to_string()]);
    let p = PackageSummary {
        name: "util".into(),
        version: "1.2.0".into(),
        description: "helpers".into(),
        author: "bob".into(),
        created_at: "t".into(),
        downloads: 42,
    };
    assert_eq!(
        search_lines("u", &[p]),
        vec!["util@1.2.0 - helpers (author: bob, downloads: 42)".to_string()]
    );
}

#[test]
fn version_choice() {
    let vs = vec![version("2.0.0", 1), version("1.0.0", 2)];
    assert_eq!(choose_version(&vs, None, "pkg").unwrap(), 0);
    assert_eq!(choose_version(&vs, Some("1.0.0"), "pkg").unwrap(), 1);
    assert_eq!(choose_version(&vs, Some("3.0"), "pkg").unwrap_err(), "Version '3.0' not found for 'pkg'");
    assert_eq!(choose_version(&[], None, "pkg").unwrap_err(), "Package 'pkg' not found");
}

#[test]
fn info_output() {
    let mut latest = version("2.0.0", 7);
    latest.github_repo = "github:o/r".into();
    latest.readme = "Hello".into();
    let vs = vec![latest, version("1.0.0", -1)];
    let lines = info_report("http://r/", "pkg", &vs, None, true).unwrap();
    assert_eq!(
        lines,
        vec![
            "pkg@2.0.0",
            "author: ann",
            "downloads: 7",
            "published: 2024-01-01",
            "description: A package",
            "source: https://github.com/o/r",
            "install latest: vpm install pkg --registry http://r",
            "install exact: vpm install pkg --version 2.0.0 --registry http://r",
            "versions: 2.0.0, 1.0.0",
            "\nREADME:\nHello",
        ]
    );
    let older = info_report("http://r", "pkg", &vs, Some("1.0.0"), false).unwrap();
    assert_eq!(older[2], "downloads: -1");
    assert_eq!(older.last().unwrap(), "hint: pass --readme to print the README");
    let mut with_tarball = version("3.0.0", 0);
    with_tarball.tarball_url = "/uploads/x.tgz".into();
    let lines = info_report("http://r", "pkg", &[with_tarball], None, true).unwrap();
    assert_eq!(lines[5], "tarball: /uploads/x.tgz");
    assert_eq!(lines.last().unwrap(), "\nREADME: <empty>");
    assert_eq!(info_report("http://r", "pkg", &[], None, false).unwrap_err(), "Package 'pkg' not found");
}

#[test]
fn install_paths() {
    let mut v = version("1.0.0", 0);
    v.tarball_url = "/uploads/pkg.tgz".into();
    let plan = install_plan(&v, "http://r/");
    assert_eq!(plan.module_dir, "void_modules/pkg");
    assert_eq!(plan.metadata_path, "void_modules/pkg/package.json");
    assert_eq!(plan.github_repo, None);
    assert_eq!(plan.download_url, Some("http://r/uploads/pkg.tgz".to_string()));
}

#[test]
fn list_and_remove() {
    let names = vec!["b".to_string(), "a".to_string(), "B".to_string(), "ab".to_string(), "a".to_string()];
    let mut expected = names.clone();
    expected.sort();
    assert_eq!(sort_names(names), expected);
    assert_eq!(list_line("a", "1.0", true, "http://r"), "a@1.0 [installed] registry=http://r");
    assert_eq!(list_line("a", "1.0", false, "http://r"), "a@1.0 [missing] registry=http://r");
    assert!(remove_outcome("a", true, false).is_ok());
    assert_eq!(
        remove_outcome("a", false, false).unwrap_err(),
        "Package 'a' not found in void_modules or void.lock"
    );
}
