use void::clock::{chrono_like_iso_now, pseudo_random_u64};
use void::diagnostics::{error_label, error_text, info_label, info_text, success_text, supports_color};
use void::modules::{
    directory_entry_candidates, is_path_like, manifest_targets, module_candidate_of,
    package_root_entries, package_root_in, resolve_manifest_target, resolve_path,
    void_file_candidate,
};
use void::repl::{
    is_incomplete_repl_input, launch_action, repl_append, repl_command, repl_prompt, script_args,
    LaunchAction, ReplCommand,
};

#[test]
fn coloured_messages() {
    assert_eq!(error_label("Void runtime error", true), "\x1b[1;31mVoid runtime error\x1b[0m");
    assert_eq!(error_text("boom", true), "\x1b[31mboom\x1b[0m");
    assert_eq!(info_label("Welcome", true), "\x1b[1;36mWelcome\x1b[0m");
    assert_eq!(info_text("help", true), "\x1b[36mhelp\x1b[0m");
    assert_eq!(success_text("> ", true), "\x1b[1;32m> \x1b[0m");
    assert_eq!(success_text("> ", false), "> ");
    assert!(!supports_color(true, Some("1"), None, true));
    assert!(supports_color(false, Some("1"), Some("0"), false));
    assert!(!supports_color(false, Some("0"), Some("0"), true));
    assert!(supports_color(false, None, Some("1"), true));
    assert!(!supports_color(false, None, None, false));
}

#[test]
fn prompt_decisions() {
    assert_eq!(repl_prompt(true), "> ");
    assert_eq!(repl_prompt(false), "... ");
    assert_eq!(repl_command(true, "  \n"), ReplCommand::Skip);
    assert_eq!(repl_command(true, ".exit\n"), ReplCommand::Exit);
    assert_eq!(repl_command(true, " .quit "), ReplCommand::Exit);
    assert_eq!(repl_command(true, ".help"), ReplCommand::Help);
    assert_eq!(repl_command(true, ".clear"), ReplCommand::Clear);
    assert_eq!(repl_command(true, "let x = 1"), ReplCommand::Source);
    assert_eq!(repl_command(false, ".exit"), ReplCommand::Source);
    let mut pending = String::new();
    repl_append(&mut pending, "if x {\r\n");
    assert_eq!(pending, "if x {");
    repl_append(&mut pending, "}\n");
    assert_eq!(pending, "if x {\n}");
    assert!(is_incomplete_repl_input("Unterminated block at line 2"));
    assert!(is_incomplete_repl_input("Expected ')' at line 1"));
    assert!(!is_incomplete_repl_input("Unexpected character '#' at line 1"));
}

#[test]
fn command_line() {
    let args = |v: &[&str]| v.iter().map(|s| s.to_string()).collect::<Vec<_>>();
    assert_eq!(launch_action(&args(&[])), LaunchAction::Repl);
    assert_eq!(launch_action(&args(&["-h"])), LaunchAction::Help);
    assert_eq!(launch_action(&args(&["--version", "x"])), LaunchAction::Version);
    assert_eq!(launch_action(&args(&["main.void", "a"])), LaunchAction::Run);
    assert_eq!(script_args(&args(&["main.void", "a", "b"])), args(&["a", "b"]));
    assert!(script_args(&args(&["main.void"])).is_empty());
    assert!(script_args(&args(&[])).is_empty());
}

#[test]
fn module_resolution() {
    assert!(is_path_like("./a"));
    assert!(is_path_like("../a"));
    assert!(is_path_like("/abs"));
    assert!(is_path_like("lib.void"));
    assert!(!is_path_like("fs"));
    assert_eq!(module_candidate_of("src", "./util"), "src/./util");
    assert_eq!(module_candidate_of("src", "/abs/x"), "/abs/x");
    assert_eq!(resolve_path("src/util", false), "src/util.void");
    assert_eq!(resolve_path("src/util", true), "src/util");
    assert_eq!(resolve_path("src/util.js", false), "src/util.js");
    assert_eq!(package_root_in("/proj/src", "pkg"), "/proj/src/void_modules/pkg");
    assert_eq!(package_root_entries("r"), vec!["r".to_string(), "r/repo".to_string()]);
    assert_eq!(void_file_candidate("a/b"), Some("a/b.void".to_string()));
    assert_eq!(void_file_candidate("a/b.txt"), None);
    assert_eq!(
        directory_entry_candidates("d"),
        vec!["d/index.void", "d/main.void", "d/src/index.void", "d/src/main.void"]
    );
    assert_eq!(resolve_manifest_target("d", "  main.void "), Some("d/main.void".to_string()));
    assert_eq!(resolve_manifest_target("d", " "), None);
    assert_eq!(resolve_manifest_target("d", "/x.void"), Some("/x.void".to_string()));
    assert_eq!(
        manifest_targets(Some("a".into()), None, Some("c".into())),
        vec!["a".to_string(), "c".to_string()]
    );
}

fn reference_mix(seed: u64) -> u64 {
    let mut s = seed;
    s ^= s >> 12;
    s ^= s << 25;
    s ^= s >> 27;
    s.wrapping_mul(2685821657736338717)
}

#[test]
fn clock_text_and_random_mixing() {
    assert_eq!(chrono_like_iso_now(Some(1700000000)), "1700000000");
    assert_eq!(chrono_like_iso_now(None), "0");
    assert_eq!(pseudo_random_u64(Some(123456789), 7), reference_mix(123456789 ^ 7));
    assert_eq!(pseudo_random_u64(None, 0), 0);
    let big: u128 = (1u128 << 70) + 5;
    assert_eq!(pseudo_random_u64(Some(big), 1), reference_mix(5 ^ 1));
}
