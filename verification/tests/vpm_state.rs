use void::vpm::cli::ColorMode;
use void::vpm::logging::{
    color_mode, icon_error, muted, paint, set_cli_runtime_config, success_line,
    use_color, verbose_enabled, verbose_line, error_line, CliRuntimeConfig, Loader, TermEnv,
};
use void::vpm::store::{AuthStore, LockFile};

fn env(terminal: bool) -> TermEnv {
    TermEnv {
        no_color: false,
        clicolor_force: None,
        clicolor: None,
        stdout_is_terminal: terminal,
        stderr_is_terminal: terminal,
    }
}

#[test]
fn login_then_load_gives_the_saved_session() {
    let mut store = AuthStore::new();
    store.save_auth_session("http://reg/", "ann", "tok1", "unix:1");
    let s = store.load_auth_session("http://reg").unwrap();
    assert_eq!(s.username, "ann");
    assert_eq!(s.token, "tok1");
    assert_eq!(s.saved_at, "unix:1");
    store.save_auth_session("http://reg", "bob", "tok2", "unix:2");
    assert_eq!(store.load_auth_session("http://reg///").unwrap().username, "bob");
    assert_eq!(store.sessions.len(), 1);
}

#[test]
fn logout_forgets_only_that_registry() {
    let mut store = AuthStore::new();
    store.save_auth_session("http://a", "ann", "t", "unix:1");
    store.save_auth_session("http://b", "bob", "u", "unix:2");
    assert!(store.remove_auth_session("http://a/"));
    assert!(!store.remove_auth_session("http://a"));
    assert!(store.load_auth_session("http://a").is_none());
    assert_eq!(store.load_auth_session("http://b").unwrap().username, "bob");
}

#[test]
fn lock_file_update_and_remove() {
    let mut lock = LockFile::new();
    lock.update("pkg", "1.0.0", "http://reg//", "http://reg/uploads/x.tgz", "");
    lock.update("other", "2.0.0", "http://reg", "", "https://github.com/o/r");
    let p = lock.packages.get("pkg").unwrap();
    assert_eq!(p.version, "1.0.0");
    assert_eq!(p.registry, "http://reg");
    lock.update("pkg", "1.1.0", "http://reg", "", "");
    assert_eq!(lock.packages.get("pkg").unwrap().version, "1.1.0");
    assert_eq!(lock.packages.len(), 2);
    assert!(lock.remove("pkg"));
    assert!(!lock.remove("pkg"));
    assert!(lock.packages.get("pkg").is_none());
    assert_eq!(lock.packages.keys(), vec!["other".to_string()]);
}

#[test]
fn color_mode_round_trip() {
    let mut cfg = CliRuntimeConfig::new();
    assert!(matches!(color_mode(&cfg), ColorMode::Auto));
    assert!(!verbose_enabled(&cfg));
    for m in [ColorMode::Auto, ColorMode::Always, ColorMode::Never] {
        set_cli_runtime_config(&mut cfg, true, m);
        assert_eq!(color_mode(&cfg), m);
        assert!(verbose_enabled(&cfg));
    }
}

#[test]
fn colour_decisions() {
    let mut cfg = CliRuntimeConfig::new();
    assert!(use_color(&cfg, &env(true), false));
    assert!(!use_color(&cfg, &env(false), false));
    let mut e = env(false);
    e.clicolor_force = Some("1".to_string());
    assert!(use_color(&cfg, &e, true));
    e.no_color = true;
    assert!(!use_color(&cfg, &e, true));
    let mut e2 = env(true);
    e2.clicolor = Some("0".to_string());
    assert!(!use_color(&cfg, &e2, false));
    set_cli_runtime_config(&mut cfg, false, ColorMode::Always);
    assert!(use_color(&cfg, &e, false));
    set_cli_runtime_config(&mut cfg, false, ColorMode::Never);
    assert!(!use_color(&cfg, &env(true), false));
}

#[test]
fn painted_lines() {
    let mut cfg = CliRuntimeConfig::new();
    set_cli_runtime_config(&mut cfg, false, ColorMode::Always);
    let e = env(false);
    assert_eq!(paint(&cfg, &e, "x", "31", false), "\x1b[31mx\x1b[0m");
    assert_eq!(muted(&cfg, &e, "(1ms)"), "\x1b[2m(1ms)\x1b[0m");
    assert_eq!(icon_error(&cfg, &e), "\x1b[1;31m✗\x1b[0m");
    assert_eq!(error_line(&cfg, &e, "bad"), "\x1b[1;31m✗\x1b[0m \x1b[31mbad\x1b[0m");
    set_cli_runtime_config(&mut cfg, false, ColorMode::Never);
    assert_eq!(success_line(&cfg, &e, "done"), "✓ done");
    assert_eq!(verbose_line(&cfg, &e, "more"), None);
    set_cli_runtime_config(&mut cfg, true, ColorMode::Never);
    assert_eq!(verbose_line(&cfg, &e, "more"), Some("› more".to_string()));
}

#[test]
fn loader_lines() {
    let mut cfg = CliRuntimeConfig::new();
    set_cli_runtime_config(&mut cfg, false, ColorMode::Never);
    let e = env(false);
    let (loader, line) = Loader::start(&cfg, &e, "Fetching");
    assert_eq!(line, "⟳ Fetching");
    assert_eq!(loader.done(&cfg, &e, "1.50s"), "✓ Fetching (1.50s)");
    set_cli_runtime_config(&mut cfg, false, ColorMode::Always);
    let (loader2, _) = Loader::start(&cfg, &e, "Quick");
    assert_eq!(
        loader2.done(&cfg, &e, "12ms"),
        "\x1b[1;32m✓\x1b[0m Quick \x1b[2m(12ms)\x1b[0m"
    );
}
