use void::registry::accounts::{default_public_url_from_addr, extract_bearer_token, hash_password, random_token};
use void::registry::html::{
    escape_html, message_text, normalize_repo_url, render_auth_section, render_index_page,
    downloads_total_fits, render_package_cards, render_package_detail_page, render_readme_html, render_version_items,
    replace_text, AuthUser, PackageSummary, PackageVersion, Templates,
};
use void::registry::inspect::{build_upload_preview, render_upload_inspect_page};
use void::registry::replies::{
    api_auth_reply, api_login_reply, api_login_step, form_login_step, is_unique_violation,
    publish_api_step, publish_form_auth_code, publish_npm_import_step, publish_outcome_reply,
    register_failure_code, register_step, select_page_version, FormLoginStep, LoginStep,
    PublishStep, RegisterStep, UserRecord,
};
use void::registry::validate::{NpmImportPublishRequest, PublishRequest};

fn templates() -> Templates {
    Templates {
        index: "[{{MESSAGE_BANNER}}|{{AUTH_SECTION}}|{{PACKAGE_CARDS}}|{{SEARCH_VALUE}}]".into(),
        auth_guest: "guest".into(),
        auth_user: "hi {{USERNAME}}".into(),
        package_card: "<{{NAME}} {{VERSION}} {{AUTHOR}} {{DESCRIPTION}} {{DOWNLOADS}} {{PACKAGE_LINK}} {{INSTALL_CMD}}>".into(),
        package_detail: "{{NAME}}|{{VERSION}}|{{DESCRIPTION}}|{{AUTHOR}}|{{CREATED_AT}}|{{DOWNLOADS}}|{{VERSION_DOWNLOADS}}|{{README_HTML}}|{{VERSION_ITEMS}}|{{INSTALL_LATEST_CMD}}|{{INSTALL_SELECTED_CMD}}|{{TARBALL_LINK}}|{{GITHUB_LINK}}|{{SERVER_FILE_TOOLS}}".into(),
        version_item: "({{VERSION_LINK}} {{VERSION}} {{CREATED_AT}} {{DOWNLOADS}} {{INSTALL_CMD}})".into(),
        upload_inspect: "{{FILE_NAME}};{{FILE_SIZE}};{{SHA256}};{{CONTENT_TYPE}};{{RAW_URL}};{{PREVIEW_KIND}};{{PREVIEW}}".into(),
    }
}

fn version(v: &str, downloads: i64) -> PackageVersion {
    PackageVersion {
        name: "pkg".into(),
        version: v.into(),
        description: "d<".into(),
        author: "ann".into(),
        tarball_url: String::new(),
        github_repo: String::new(),
        readme: String::new(),
        created_at: "t".into(),
        downloads,
    }
}

#[test]
fn escaping_and_replacing() {
    assert_eq!(escape_html("<a href=\"x\">Tom & 'Jerry'</a>"), "&lt;a href=&quot;x&quot;&gt;Tom &amp; &#39;Jerry&#39;&lt;/a&gt;");
    assert_eq!(replace_text("aaa", "aa", "b"), "ba");
    assert_eq!(replace_text("x{{A}}y{{A}}", "{{A}}", "-"), "x-y-");
    assert_eq!(replace_text("abc", "zz", "-"), "abc");
    assert_eq!(message_text("published"), Some("Package published."));
    assert_eq!(message_text("nope"), None);
    assert_eq!(render_readme_html("  "), "<p class=\"muted\">No README published for this version.</p>");
    assert_eq!(render_readme_html("<b>"), "<pre class=\"readme\">&lt;b&gt;</pre>");
    assert_eq!(normalize_repo_url("git+https://x/y"), "https://x/y");
}

#[test]
fn front_page() {
    let t = templates();
    let ann = AuthUser { id: 1, username: "<ann>".into() };
    assert_eq!(render_auth_section(&t, Some(&ann)), "hi &lt;ann&gt;");
    assert_eq!(render_auth_section(&t, None), "guest");
    assert_eq!(render_package_cards(&t.package_card, &[], "http://r"), "<p class=\"muted\">No packages yet.</p>");
    let p = PackageSummary {
        name: "util".into(),
        version: "1.0".into(),
        description: "a & b".into(),
        author: "bob".into(),
        created_at: "t".into(),
        downloads: 3,
    };
    let cards = render_package_cards(&t.package_card, &[p], "http://r/");
    assert_eq!(cards, "<util 1.0 bob a &amp; b 3 /packages/util vpm install util --registry http://r>");
    let page = render_index_page(&t, None, &[], "q\"", Some("logged_out"), "http://r");
    assert_eq!(page, "[<div class=\"notice\">Logged out.</div>|guest|<p class=\"muted\">No packages yet.</p>|q&quot;]");
    let page2 = render_index_page(&t, None, &[], "", Some("bogus"), "http://r");
    assert_eq!(page2, "[|guest|<p class=\"muted\">No packages yet.</p>|]");
}

#[test]
fn detail_page() {
    let t = templates();
    let mut sel = version("2.0", 5);
    sel.tarball_url = "http://r/uploads/f.tgz".into();
    sel.github_repo = "github:o/r".into();
    sel.readme = "hi".into();
    let vs = vec![version("1.0", 7)];
    let items = render_version_items(&t.version_item, "pkg", &vs, "http://r/");
    assert_eq!(items, "(/packages/pkg/1.0 1.0 t 7 vpm install pkg --version 1.0 --registry http://r)");
    let all = vec![sel, version("1.0", 7)];
    let page = render_package_detail_page(&t, "pkg", &all[0], &all, "http://r");
    let parts: Vec<&str> = page.split('|').collect();
    assert_eq!(parts[0], "pkg");
    assert_eq!(parts[1], "2.0");
    assert_eq!(parts[2], "d&lt;");
    assert_eq!(parts[5], "12");
    assert_eq!(parts[6], "5");
    assert_eq!(parts[7], "<pre class=\"readme\">hi</pre>");
    assert_eq!(parts[9], "vpm install pkg --registry http://r");
    assert_eq!(parts[10], "vpm install pkg --version 2.0 --registry http://r");
    assert_eq!(parts[11], "<a href=\"http://r/uploads/f.tgz\" target=\"_blank\" rel=\"noopener\">Tarball</a>");
    assert_eq!(parts[12], "<a href=\"https://github.com/o/r\" target=\"_blank\" rel=\"noopener\">Source Repo</a>");
    assert_eq!(parts[13], "<a href=\"/uploads/f.tgz/inspect\">Inspect Server File</a> <a href=\"/uploads/f.tgz\" target=\"_blank\" rel=\"noopener\">Raw Download</a>");
    let plain = render_package_detail_page(&t, "pkg", &all[1], &all, "http://r");
    let parts: Vec<&str> = plain.split('|').collect();
    assert_eq!(parts[11], "<span class=\"muted\">No tarball URL</span>");
    assert_eq!(parts[12], "<span class=\"muted\">No repo URL</span>");
    assert_eq!(parts[13], "<span class=\"muted\">No uploaded server file for this version.</span>");
}

#[test]
fn upload_previews() {
    let (kind, text) = build_upload_preview("notes.txt", "héllo".as_bytes());
    assert_eq!(kind, "text preview");
    assert_eq!(text, "héllo");
    let long = "é".repeat(32001);
    let (_, cut) = build_upload_preview("a.md", long.as_bytes());
    assert_eq!(cut, format!("{}\n\n...truncated...", "é".repeat(32000)));
    let (kind, dump) = build_upload_preview("a.bin", &[0u8, 1, 255]);
    assert_eq!(kind, "hex preview");
    assert_eq!(dump, "00000000: 00 01 ff \n");
    let (kind, _) = build_upload_preview("a.txt", &[0xffu8, 0xfe]);
    assert_eq!(kind, "hex preview");
    let bytes: Vec<u8> = (0..3000u32).map(|i| (i % 256) as u8).collect();
    let (_, dump) = build_upload_preview("a.tgz", &bytes);
    let lines: Vec<&str> = dump.lines().collect();
    assert_eq!(lines[0], "00000000: 00 01 02 03 04 05 06 07 08 09 0a 0b 0c 0d 0e 0f ");
    assert_eq!(lines[1], "00000010: 10 11 12 13 14 15 16 17 18 19 1a 1b 1c 1d 1e 1f ");
    assert_eq!(lines[127], "000007f0: f0 f1 f2 f3 f4 f5 f6 f7 f8 f9 fa fb fc fd fe ff ");
    assert!(dump.ends_with("\n\n...truncated, showing first 2048 bytes...\n"));
}

#[test]
fn inspect_page_digest() {
    let page = render_upload_inspect_page(&templates().upload_inspect, "abc.txt", b"abc");
    assert_eq!(
        page,
        "abc.txt;3;ba7816bf8f01cfea414140de5dae2223b00361a396177a9cb410ff61f20015ad;application/octet-stream;/uploads/abc.txt;text preview;abc"
    );
}

fn signs_in(password: &str, hash: &str) -> bool {
    let user = UserRecord { id: 7, username: "ann".into(), password_hash: hash.into() };
    match api_login_step(Ok(Some(user)), password) {
        LoginStep::OpenSession(u) => u.id == 7 && u.username == "ann" && u.password_hash == hash,
        LoginStep::Reply(r) => {
            assert_eq!((r.status, r.message.as_str()), (401, "Invalid username or password"));
            false
        }
    }
}

#[test]
fn passwords_and_tokens() {
    let h = hash_password("correct horse").unwrap();
    assert!(h.starts_with("$argon2id$"));
    assert!(signs_in("correct horse", &h));
    assert!(!signs_in("wrong", &h));
    assert!(!signs_in("x", "not a hash"));
    let h2 = hash_password("correct horse").unwrap();
    assert_ne!(h, h2);
    let t = random_token();
    assert_eq!(t.len(), 64);
    assert!(t.chars().all(|c| c.is_ascii_hexdigit() && !c.is_ascii_uppercase()));
    assert_ne!(t, random_token());
}

#[test]
fn headers_and_addresses() {
    assert_eq!(extract_bearer_token(Some("Bearer  abc ")), Some("abc".to_string()));
    assert_eq!(extract_bearer_token(Some("bEaReR x")), Some("x".to_string()));
    assert_eq!(extract_bearer_token(Some("Basic x")), None);
    assert_eq!(extract_bearer_token(Some("Bearer   ")), None);
    assert_eq!(extract_bearer_token(Some("Bearer")), None);
    assert_eq!(extract_bearer_token(None), None);
    assert_eq!(default_public_url_from_addr("0.0.0.0:4090"), "http://127.0.0.1:4090");
    assert_eq!(default_public_url_from_addr("127.0.0.1:80"), "http://127.0.0.1:80");
    assert_eq!(default_public_url_from_addr("example"), "http://example");
}

fn request(name: &str) -> PublishRequest {
    PublishRequest {
        name: name.into(),
        version: "1.0".into(),
        description: None,
        tarball_url: Some("http://t".into()),
        github_repo: None,
        readme: None,
    }
}

#[test]
fn api_replies() {
    let ann = AuthUser { id: 1, username: "ann".into() };
    assert!(api_auth_reply(&Ok(Some(AuthUser { id: 1, username: "ann".into() }))).is_none());
    let r = api_auth_reply(&Ok(None)).unwrap();
    assert_eq!((r.status, r.ok, r.message.as_str()), (401, false, "Authentication required"));
    let r = api_auth_reply(&Err("db down".into())).unwrap();
    assert_eq!((r.status, r.message.as_str()), (500, "db down"));
    match publish_api_step(Ok(Some(ann)), request(" pkg ")) {
        PublishStep::Store(p, u) => {
            assert_eq!(p.name, "pkg");
            assert_eq!(u.id, 1);
        }
        PublishStep::Reply(_) => panic!("expected a store step"),
    }
    match publish_api_step(Ok(Some(AuthUser { id: 1, username: "ann".into() })), request("")) {
        PublishStep::Reply(r) => assert_eq!((r.status, r.message.as_str()), (400, "Package name cannot be empty")),
        PublishStep::Store(..) => panic!("expected a refusal"),
    }
    match publish_api_step(Ok(None), request("pkg")) {
        PublishStep::Reply(r) => assert_eq!(r.status, 401),
        PublishStep::Store(..) => panic!("expected a refusal"),
    }
    let ok = publish_outcome_reply(Ok(()));
    assert_eq!((ok.status, ok.ok, ok.message.as_str()), (201, true, "Package published"));
    let bad = publish_outcome_reply(Err("Package name is already owned by another account".into()));
    assert_eq!((bad.status, bad.ok), (400, false));
    let guest = NpmImportPublishRequest {
        name: "x".into(),
        version: "1".into(),
        npm_name: "".into(),
        description: None,
        tarball_url: None,
        github_repo: None,
        readme: None,
    };
    let r = publish_npm_import_step(guest).err().unwrap();
    assert_eq!((r.status, r.message.as_str()), (400, "npm_name is required for npm-import guest publish"));
}

#[test]
fn sign_in_and_sign_up() {
    let hash = hash_password("secret-pass").unwrap();
    let user = UserRecord { id: 7, username: "ann".into(), password_hash: hash };
    match api_login_step(Ok(Some(user)), "secret-pass") {
        LoginStep::OpenSession(u) => assert_eq!(u.id, 7),
        LoginStep::Reply(_) => panic!("expected a session"),
    }
    let user = UserRecord { id: 7, username: "ann".into(), password_hash: hash_password("secret-pass").unwrap() };
    match api_login_step(Ok(Some(user)), "wrong-pass") {
        LoginStep::Reply(r) => assert_eq!((r.status, r.message.as_str()), (401, "Invalid username or password")),
        LoginStep::OpenSession(_) => panic!("expected a refusal"),
    }
    match api_login_step(Ok(None), "x") {
        LoginStep::Reply(r) => assert_eq!(r.status, 401),
        LoginStep::OpenSession(_) => panic!("expected a refusal"),
    }
    match api_login_step(Err("db".into()), "x") {
        LoginStep::Reply(r) => assert_eq!((r.status, r.message.as_str()), (500, "Login failed")),
        LoginStep::OpenSession(_) => panic!("expected a refusal"),
    }
    let ok = api_login_reply(Ok("tok".into()), "ann".into());
    assert_eq!((ok.status, ok.ok, ok.token.as_deref(), ok.username.as_deref()), (200, true, Some("tok"), Some("ann")));
    let failed = api_login_reply(Err("x".into()), "ann".into());
    assert_eq!((failed.status, failed.message.as_str(), failed.token.is_none()), (500, "Could not create session", true));
    match form_login_step(Ok(None), "x") {
        FormLoginStep::Redirect(c) => assert_eq!(c, "bad_credentials"),
        FormLoginStep::OpenSession(_) => panic!("expected a redirect"),
    }
    match form_login_step(Err("db".into()), "x") {
        FormLoginStep::Redirect(c) => assert_eq!(c, "login_failed"),
        FormLoginStep::OpenSession(_) => panic!("expected a redirect"),
    }
    match register_step("a", "longenough") {
        RegisterStep::Redirect(c) => assert_eq!(c, "register_invalid"),
        RegisterStep::Create { .. } => panic!("expected a redirect"),
    }
    match register_step("ann", "short") {
        RegisterStep::Redirect(c) => assert_eq!(c, "password_short"),
        RegisterStep::Create { .. } => panic!("expected a redirect"),
    }
    match register_step(" ann ", "longenough") {
        RegisterStep::Create { username, password_hash } => {
            assert_eq!(username, "ann");
            assert!(signs_in("longenough", &password_hash));
        }
        RegisterStep::Redirect(_) => panic!("expected an account"),
    }
    assert_eq!(register_failure_code("UNIQUE constraint failed: users.username"), "user_exists");
    assert_eq!(register_failure_code("disk full"), "register_failed");
    assert!(is_unique_violation("Unique"));
    assert_eq!(publish_form_auth_code(&Ok(None)), Some("login_required"));
    assert_eq!(publish_form_auth_code(&Err("x".into())), Some("publish_failed"));
    assert_eq!(publish_form_auth_code(&Ok(Some(AuthUser { id: 1, username: "a".into() }))), None);
}

#[test]
fn package_page_versions() {
    let vs = vec![version("2.0", 0), version("1.0", 0)];
    assert_eq!(select_page_version(&vs, None).unwrap(), 0);
    assert_eq!(select_page_version(&vs, Some("1.0")).unwrap(), 1);
    assert_eq!(select_page_version(&vs, Some("3.0")).unwrap_err(), "Version not found");
    assert_eq!(select_page_version(&[], None).unwrap_err(), "Package not found");
}

#[test]
fn download_totals_that_fit() {
    assert!(downloads_total_fits(&[]));
    assert!(downloads_total_fits(&[version("1", 5), version("2", -3)]));
    assert!(!downloads_total_fits(&[version("1", i64::MAX), version("2", 1)]));
    assert!(downloads_total_fits(&[version("1", i64::MAX), version("2", -1)]));
    assert!(!downloads_total_fits(&[version("1", i64::MIN), version("2", -1), version("3", 5)]));
}

#[test]
fn sign_up_creates_the_account() {
    match register_step("bob", "a long password") {
        RegisterStep::Create { username, password_hash } => {
            assert_eq!(username, "bob");
            assert!(password_hash.starts_with("$argon2id$"));
        }
        RegisterStep::Redirect(c) => panic!("expected an account, got {c}"),
    }
}
