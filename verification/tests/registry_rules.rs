use void::registry::validate::{
    normalize_npm_name_for_void, validate_github_repo, validate_name,
    validate_npm_import_publish_request, validate_publish_request, validate_username,
    validate_version, NpmImportPublishRequest, PublishRequest,
};
use void::registry::files::{
    content_type_for_path, is_text_like_file_name, sanitize_filename, slugify, upload_file_name,
    upload_url_for, uploaded_file_name_from_tarball_url,
};
use void::registry::publish::{
    check_ownership, finalize_publish_draft, is_file_field, package_row, plan_upload,
    PublishDraft, MAX_UPLOAD_BYTES,
};
use void::registry::html::AuthUser;

fn request(name: &str, version: &str, tarball: Option<&str>, github: Option<&str>) -> PublishRequest {
    PublishRequest {
        name: name.to_string(),
        version: version.to_string(),
        description: Some("  desc  ".to_string()),
        tarball_url: tarball.map(|s| s.to_string()),
        github_repo: github.map(|s| s.to_string()),
        readme: Some("  readme kept  ".to_string()),
    }
}

#[test]
fn usernames() {
    assert!(validate_username("  ann_1 ").is_ok());
    assert_eq!(validate_username("ab").unwrap_err(), "Username must be at least 3 characters");
    assert_eq!(validate_username("é").unwrap_err(), "Username must be at least 3 characters");
    assert!(validate_username("éé").unwrap_err().starts_with("Username may only contain"));
    assert_eq!(validate_username(&"a".repeat(33)).unwrap_err(), "Username must be at most 32 characters");
    assert!(validate_username(&"a".repeat(32)).is_ok());
}

#[test]
fn names_versions_and_repos() {
    assert_eq!(validate_name("").unwrap_err(), "Package name cannot be empty");
    assert_eq!(validate_name(&"n".repeat(121)).unwrap_err(), "Package name too long");
    assert!(validate_name(&"n".repeat(120)).is_ok());
    assert_eq!(validate_name("a.b").unwrap_err(), "Package name may only contain letters, numbers, '-' and '_'");
    assert!(validate_version("1.0.0-beta+7").is_ok());
    assert_eq!(validate_version("").unwrap_err(), "Version cannot be empty");
    assert_eq!(validate_version(&"1".repeat(41)).unwrap_err(), "Version is too long");
    assert_eq!(validate_version("1_0").unwrap_err(), "Version contains invalid characters");
    assert!(validate_github_repo("https://github.com/o/r").is_ok());
    assert_eq!(validate_github_repo("http://github.com/o/r").unwrap_err(), "GitHub URL must start with https://github.com/");
    assert_eq!(validate_github_repo("https://github.com/owner").unwrap_err(), "GitHub URL must include owner/repo");
}

#[test]
fn publish_requests() {
    let ok = validate_publish_request(request(" pkg ", " 1.0 ", Some(" http://t "), None)).unwrap();
    assert_eq!(ok.name, "pkg");
    assert_eq!(ok.version, "1.0");
    assert_eq!(ok.description.as_deref(), Some("desc"));
    assert_eq!(ok.tarball_url.as_deref(), Some("http://t"));
    assert_eq!(ok.readme.as_deref(), Some("  readme kept  "));
    assert_eq!(
        validate_publish_request(request("pkg", "1", Some("  "), None)).err().unwrap(),
        "Provide a GitHub repo URL, tarball URL, or upload file"
    );
    assert_eq!(
        validate_publish_request(request("pkg", "1", None, Some("gitlab.com/x"))).err().unwrap(),
        "GitHub URL must start with https://github.com/"
    );
    assert_eq!(validate_publish_request(request("p q", "1", Some("t"), None)).err().unwrap(),
        "Package name may only contain letters, numbers, '-' and '_'");
    assert!(validate_publish_request(request("pkg", "1", None, Some("https://github.com/a/b"))).is_ok());
}

fn npm_request(name: &str, npm: &str, tarball: Option<&str>) -> NpmImportPublishRequest {
    NpmImportPublishRequest {
        name: name.to_string(),
        version: "1.2.3".to_string(),
        npm_name: npm.to_string(),
        description: None,
        tarball_url: tarball.map(|s| s.to_string()),
        github_repo: None,
        readme: None,
    }
}

#[test]
fn npm_import_requests() {
    let url = "https://registry.npmjs.org/discord.js/-/discord.js-1.2.3.tgz";
    assert_eq!(normalize_npm_name_for_void("@Discord.JS/"), "discord_js");
    assert!(validate_npm_import_publish_request(npm_request("npm_discord_js", "discord.js", Some(url))).is_ok());
    assert!(validate_npm_import_publish_request(npm_request("discord_js", "discord.js", Some(url))).is_ok());
    assert_eq!(
        validate_npm_import_publish_request(npm_request("other", "discord.js", Some(url))).err().unwrap(),
        "npm-import guest publish only allows 'discord_js' or 'npm_discord_js' package names"
    );
    assert_eq!(
        validate_npm_import_publish_request(npm_request("x", " ", Some(url))).err().unwrap(),
        "npm_name is required for npm-import guest publish"
    );
    assert_eq!(
        validate_npm_import_publish_request(npm_request("x", "@@", Some(url))).err().unwrap(),
        "npm_name is not valid"
    );
    assert_eq!(
        validate_npm_import_publish_request(npm_request("npm_discord_js", "discord.js", None)).err().unwrap(),
        "npm-import guest publish requires tarball_url"
    );
    assert_eq!(
        validate_npm_import_publish_request(npm_request("npm_discord_js", "discord.js", Some("https://evil/1.2.3.tgz"))).err().unwrap(),
        "npm-import guest publish requires an npm registry tarball URL"
    );
    assert_eq!(
        validate_npm_import_publish_request(npm_request("npm_discord_js", "discord.js", Some("https://registry.npmjs.org/d-9.tgz"))).err().unwrap(),
        "tarball_url must match the published version"
    );
}

#[test]
fn scoped_import_names_differ_between_cli_and_registry() {
    let cli_name = void::vpm::names::npm_name_to_void_name("@scope/pkg");
    assert_eq!(cli_name, "npm__scope_pkg");
    let url = "https://registry.npmjs.org/@scope/pkg/-/pkg-1.2.3.tgz";
    assert!(validate_npm_import_publish_request(npm_request(&cli_name, "@scope/pkg", Some(url))).is_err());
    let plain = void::vpm::names::npm_name_to_void_name("left-pad");
    let url2 = "https://registry.npmjs.org/left-pad/-/left-pad-1.2.3.tgz";
    assert!(validate_npm_import_publish_request(npm_request(&plain, "left-pad", Some(url2))).is_ok());
    let spaced = void::vpm::names::npm_name_to_void_name("abc ");
    assert_eq!(spaced, "npm_abc");
    assert_eq!(spaced, format!("npm_{}", normalize_npm_name_for_void("abc ".trim())));
}

#[test]
fn file_names() {
    assert_eq!(sanitize_filename("../../etc/pass wd"), Some("passwd".to_string()));
    assert_eq!(sanitize_filename("dir/"), Some("dir".to_string()));
    assert_eq!(sanitize_filename(".."), None);
    assert_eq!(sanitize_filename("x/   "), None);
    assert_eq!(sanitize_filename("@@@"), None);
    assert_eq!(slugify("My_Pkg.v2"), "my-pkg-v2");
    assert_eq!(slugify("!!!"), "pkg");
    assert_eq!(content_type_for_path("a/b.tgz"), "application/gzip");
    assert_eq!(content_type_for_path("b.gz"), "application/gzip");
    assert_eq!(content_type_for_path("b.zip"), "application/zip");
    assert_eq!(content_type_for_path("b.json"), "application/json");
    assert_eq!(content_type_for_path("b"), "application/octet-stream");
    assert!(is_text_like_file_name("notes.MD") == false);
    assert!(is_text_like_file_name("x.md"));
    assert!(!is_text_like_file_name("x.tgz"));
}

#[test]
fn stored_uploads_are_found_again() {
    let name = upload_file_name("my pkg.tar.gz", "My_Pkg", "1.0.0", "0123456789abcdef0123456789abcdef");
    assert_eq!(name, "my-pkg-1-0-0-0123456789abcdef0123456789abcdef.gz");
    assert_eq!(upload_file_name("", "p", "1", "id"), "p-1-id.bin");
    let url = upload_url_for("http://reg.example/", &name);
    assert_eq!(url, format!("http://reg.example/uploads/{name}"));
    assert_eq!(uploaded_file_name_from_tarball_url(&url, "http://reg.example"), Some(name.clone()));
    let plan = plan_upload("http://reg", "pkg", "2.0", "a.zip");
    assert!(plan.file_name.starts_with("pkg-2-0-"));
    assert!(plan.file_name.ends_with(".zip"));
    assert_eq!(plan.file_name.len(), "pkg-2-0-".len() + 32 + ".zip".len());
    assert_eq!(uploaded_file_name_from_tarball_url(&plan.url, "http://reg"), Some(plan.file_name.clone()));
}

#[test]
fn tarball_urls_of_uploads() {
    assert_eq!(uploaded_file_name_from_tarball_url(" /uploads/a.tgz?x=1#f ", "http://r"), Some("a.tgz".to_string()));
    assert_eq!(uploaded_file_name_from_tarball_url("uploads/b.zip", "http://r"), Some("b.zip".to_string()));
    assert_eq!(uploaded_file_name_from_tarball_url("https://other/x/uploads/c.tgz", "http://r"), Some("c.tgz".to_string()));
    assert_eq!(uploaded_file_name_from_tarball_url("https://other/a/uploads/b/uploads/d.tgz", "http://r"), Some("d.tgz".to_string()));
    assert_eq!(uploaded_file_name_from_tarball_url("https://registry.npmjs.org/x.tgz", "http://r"), None);
    assert_eq!(uploaded_file_name_from_tarball_url("   ", "http://r"), None);
}

#[test]
fn publish_forms() {
    assert!(is_file_field("package_file"));
    assert!(!is_file_field("name"));
    let mut d = PublishDraft::new();
    d.set_text_field("name", "  pkg ");
    d.set_text_field("version", " 1.0 ");
    d.set_text_field("readme", "  keep  ");
    d.set_text_field("unknown", "x");
    assert_eq!(d.name, "pkg");
    assert_eq!(d.readme, "  keep  ");
    assert!(d.check_required().is_ok());
    assert!(d.attach_file(Some("a.tgz"), Vec::new()).is_ok());
    assert!(d.uploaded_file.is_none());
    assert_eq!(d.attach_file(None, vec![0u8; MAX_UPLOAD_BYTES + 1]).unwrap_err(), "Uploaded file is too large");
    assert!(d.attach_file(None, vec![1u8, 2]).is_ok());
    assert_eq!(d.uploaded_file.as_ref().unwrap().file_name, "package.bin");
    let req = finalize_publish_draft(d, Some("http://r/uploads/p.bin".to_string())).unwrap();
    assert_eq!(req.tarball_url.as_deref(), Some("http://r/uploads/p.bin"));
    assert_eq!(req.description, None);
    assert_eq!(req.readme.as_deref(), Some("  keep  "));
    let empty = PublishDraft::new();
    assert_eq!(empty.check_required().unwrap_err(), "name and version are required");
    let mut no_source = PublishDraft::new();
    no_source.set_text_field("name", "pkg");
    no_source.set_text_field("version", "1");
    assert_eq!(
        finalize_publish_draft(no_source, None).err().unwrap(),
        "Provide a GitHub repo URL, tarball URL, or upload file"
    );
}

#[test]
fn ownership_and_rows() {
    let ann = AuthUser { id: 1, username: "ann".into() };
    let bob = AuthUser { id: 2, username: "bob".into() };
    assert!(check_ownership(None, None).is_ok());
    assert!(check_ownership(Some(1), Some(&ann)).is_ok());
    assert_eq!(check_ownership(Some(1), Some(&bob)).unwrap_err(), "Package name is already owned by another account");
    assert!(check_ownership(Some(1), None).is_err());
    let row = package_row(request("pkg", "1", Some("t"), None), Some(&ann), None);
    assert_eq!(row.author, "ann");
    assert_eq!(row.user_id, Some(1));
    assert_eq!(row.github_repo, "");
    assert_eq!(row.description, "  desc  ");
    let guest = package_row(request("pkg", "1", Some("t"), None), None, None);
    assert_eq!(guest.author, "npm_ghost");
    assert_eq!(guest.user_id, None);
    let npm = package_row(request("pkg", "1", Some("t"), None), None, Some("npm_ghost"));
    assert_eq!(npm.author, "npm_ghost");
}
