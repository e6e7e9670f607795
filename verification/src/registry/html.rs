//! The registry's web pages, filled in from templates.
//!
//! Each template is text with `{{NAME}}`-style slots; a page is its template
//! with each slot replaced in turn, all occurrences at once, as
//! `str::replace` does.
use vstd::prelude::*;

use crate::text::{str_eq, chars_of, decimal, is_blank, map_chars, matches_at, push_decimal, push_str, starts_with, trim, trim_end_char};
use crate::vpm::names::{normalize_registry, repo_url};

verus! {

// ---------------------------------------------------------------------------
// Replacing and escaping
// ---------------------------------------------------------------------------

/// `s` with every occurrence of the non-empty `p`, scanned left to right
/// without overlaps, replaced by `r`.
pub open spec fn replace_all(s: Seq<char>, p: Seq<char>, r: Seq<char>) -> Seq<char>
    decreases s.len(),
{
    if p.len() == 0 || s.len() == 0 {
        s
    } else if starts_with(s, p) {
        r + replace_all(s.subrange(p.len() as int, s.len() as int), p, r)
    } else {
        seq![s[0]] + replace_all(s.drop_first(), p, r)
    }
}

/// `str::replace` with a non-empty pattern.
pub fn replace_text(s: &str, p: &str, r: &str) -> (out: String)
    requires
        p@.len() > 0,
    ensures
        out@ == replace_all(s@, p@, r@),
{
    let v = chars_of(s);
    let pv = chars_of(p);
    let mut out = String::new();
    let mut i: usize = 0;
    assert(v@.subrange(0, v@.len() as int) == v@);
    while i < v.len()
        invariant
            v@ == s@,
            pv@ == p@,
            p@.len() > 0,
            i <= v@.len(),
            replace_all(s@, p@, r@) == out@ + replace_all(
                v@.subrange(i as int, v@.len() as int),
                p@,
                r@,
            ),
        decreases v.len() - i,
    {
        let ghost rest = v@.subrange(i as int, v@.len() as int);
        if matches_at(v.as_slice(), pv.as_slice(), i) {
            assert(rest.subrange(0, p@.len() as int) =~= v@.subrange(i as int, i + p@.len()));
            assert(rest.subrange(p@.len() as int, rest.len() as int) =~= v@.subrange(
                i + p@.len(),
                v@.len() as int,
            ));
            push_str(&mut out, r);
            i = i + pv.len();
        } else {
            assert(!starts_with(rest, p@)) by {
                if starts_with(rest, p@) {
                    assert(rest.subrange(0, p@.len() as int) =~= v@.subrange(
                        i as int,
                        i + p@.len(),
                    ));
                }
            }
            assert(rest.drop_first() =~= v@.subrange(i + 1, v@.len() as int));
            out.push(v[i]);
            i = i + 1;
        }
    }
    assert(replace_all(v@.subrange(i as int, v@.len() as int), p@, r@) =~= Seq::<char>::empty());
    out
}

pub open spec fn html_char(c: char) -> Seq<char> {
    if c == '&' {
        "&amp;"@
    } else if c == '<' {
        "&lt;"@
    } else if c == '>' {
        "&gt;"@
    } else if c == '"' {
        "&quot;"@
    } else if c == '\'' {
        "&#39;"@
    } else {
        seq![c]
    }
}

/// Text made safe for HTML: `&`, `<`, `>`, `"` and `'` as entities.
pub open spec fn html_escaped(s: Seq<char>) -> Seq<char> {
    map_chars(s, |c: char| html_char(c))
}

pub fn escape_html(input: &str) -> (r: String)
    ensures
        r@ == html_escaped(input@),
{
    let v = chars_of(input);
    let mut out = String::new();
    let mut i: usize = 0;
    while i < v.len()
        invariant
            v@ == input@,
            i <= v@.len(),
            out@ == map_chars(v@.take(i as int), |c: char| html_char(c)),
        decreases v.len() - i,
    {
        proof {
            crate::text::lemma_map_chars_push(v@, |c: char| html_char(c), i as int);
        }
        let c = v[i];
        if c == '&' {
            push_str(&mut out, "&amp;");
        } else if c == '<' {
            push_str(&mut out, "&lt;");
        } else if c == '>' {
            push_str(&mut out, "&gt;");
        } else if c == '"' {
            push_str(&mut out, "&quot;");
        } else if c == '\'' {
            push_str(&mut out, "&#39;");
        } else {
            out.push(c);
        }
        i = i + 1;
    }
    assert(v@.take(v@.len() as int) == v@);
    out
}

/// The decimal text of a signed integer.
pub open spec fn int_text(n: int) -> Seq<char> {
    if n < 0 {
        "-"@ + decimal((-n) as nat)
    } else {
        decimal(n as nat)
    }
}

pub fn push_int(s: &mut String, n: i64)
    ensures
        final(s)@ == old(s)@ + int_text(n as int),
{
    if n < 0 {
        s.push('-');
        let m: i128 = -(n as i128);
        push_decimal(s, m as u128);
        proof {
            reveal_strlit("-");
        }
    } else {
        push_decimal(s, n as u128);
    }
}

fn int_string(n: i64) -> (s: String)
    ensures
        s@ == int_text(n as int),
{
    let mut s = String::new();
    push_int(&mut s, n);
    s
}

// ---------------------------------------------------------------------------
// Small pieces
// ---------------------------------------------------------------------------

/// The banner text for a `?message=` code.
pub open spec fn message_for(code: Seq<char>) -> Option<Seq<char>> {
    if code == "registered"@ {
        Some("Account created and logged in."@)
    } else if code == "logged_in"@ {
        Some("Logged in successfully."@)
    } else if code == "logged_out"@ {
        Some("Logged out."@)
    } else if code == "published"@ {
        Some("Package published."@)
    } else if code == "login_required"@ {
        Some("Login is required for publishing."@)
    } else if code == "user_exists"@ {
        Some("That username is already taken."@)
    } else if code == "bad_credentials"@ {
        Some("Invalid username or password."@)
    } else if code == "password_short"@ {
        Some("Password must be at least 8 characters."@)
    } else if code == "register_invalid"@ {
        Some("Username format is invalid."@)
    } else if code == "register_failed"@ {
        Some("Could not create account."@)
    } else if code == "login_failed"@ {
        Some("Could not complete login."@)
    } else if code == "publish_failed"@ {
        Some("Publish failed. Provide GitHub URL or upload package file."@)
    } else {
        None
    }
}

pub open spec fn opt_str_view(o: Option<&'static str>) -> Option<Seq<char>> {
    match o {
        Some(s) => Some(s@),
        None => None,
    }
}

pub fn message_text(code: &str) -> (r: Option<&'static str>)
    ensures
        opt_str_view(r) == message_for(code@),
{
    if str_eq(code, "registered") {
        Some("Account created and logged in.")
    } else if str_eq(code, "logged_in") {
        Some("Logged in successfully.")
    } else if str_eq(code, "logged_out") {
        Some("Logged out.")
    } else if str_eq(code, "published") {
        Some("Package published.")
    } else if str_eq(code, "login_required") {
        Some("Login is required for publishing.")
    } else if str_eq(code, "user_exists") {
        Some("That username is already taken.")
    } else if str_eq(code, "bad_credentials") {
        Some("Invalid username or password.")
    } else if str_eq(code, "password_short") {
        Some("Password must be at least 8 characters.")
    } else if str_eq(code, "register_invalid") {
        Some("Username format is invalid.")
    } else if str_eq(code, "register_failed") {
        Some("Could not create account.")
    } else if str_eq(code, "login_failed") {
        Some("Could not complete login.")
    } else if str_eq(code, "publish_failed") {
        Some("Publish failed. Provide GitHub URL or upload package file.")
    } else {
        None
    }
}

/// A source repository URL as a link target.
pub fn normalize_repo_url(input: &str) -> (r: String)
    ensures
        r@ == repo_url(input@),
{
    crate::vpm::names::normalize_repo_clone_url(input)
}

pub open spec fn readme_html(readme: Seq<char>) -> Seq<char> {
    if trim(readme).len() == 0 {
        "<p class=\"muted\">No README published for this version.</p>"@
    } else {
        "<pre class=\"readme\">"@ + html_escaped(readme) + "</pre>"@
    }
}

pub fn render_readme_html(readme: &str) -> (r: String)
    ensures
        r@ == readme_html(readme@),
{
    if is_blank(readme) {
        return String::from_str("<p class=\"muted\">No README published for this version.</p>");
    }
    let mut out = String::from_str("<pre class=\"readme\">");
    let e = escape_html(readme);
    push_str(&mut out, e.as_str());
    push_str(&mut out, "</pre>");
    out
}

// ---------------------------------------------------------------------------
// Records shown on the pages
// ---------------------------------------------------------------------------

/// One published version of a package.
pub struct PackageVersion {
    pub name: String,
    pub version: String,
    pub description: String,
    pub author: String,
    pub tarball_url: String,
    pub github_repo: String,
    pub readme: String,
    pub created_at: String,
    pub downloads: i64,
}

/// The latest version of a package, with its downloads over all versions.
pub struct PackageSummary {
    pub name: String,
    pub version: String,
    pub description: String,
    pub author: String,
    pub created_at: String,
    pub downloads: i64,
}

/// A signed-in account.
pub struct AuthUser {
    pub id: i64,
    pub username: String,
}

/// The page templates, with their `{{...}}` slots.
pub struct Templates {
    pub index: String,
    pub auth_guest: String,
    pub auth_user: String,
    pub package_card: String,
    pub package_detail: String,
    pub version_item: String,
    pub upload_inspect: String,
}

// ---------------------------------------------------------------------------
// Pages
// ---------------------------------------------------------------------------

pub open spec fn install_cmd(name: Seq<char>, registry: Seq<char>) -> Seq<char> {
    "vpm install "@ + name + " --registry "@ + trim_end_char(registry, '/')
}

pub open spec fn install_version_cmd(name: Seq<char>, version: Seq<char>, registry: Seq<char>) -> Seq<
    char,
> {
    "vpm install "@ + name + " --version "@ + version + " --registry "@ + trim_end_char(
        registry,
        '/',
    )
}

fn install_command(name: &str, version: Option<&str>, registry: &str) -> (r: String)
    ensures
        r@ == match version {
            Some(v) => install_version_cmd(name@, v@, registry@),
            None => install_cmd(name@, registry@),
        },
{
    let mut out = String::from_str("vpm install ");
    push_str(&mut out, name);
    match version {
        Some(v) => {
            push_str(&mut out, " --version ");
            push_str(&mut out, v);
        },
        None => {},
    }
    push_str(&mut out, " --registry ");
    let r = normalize_registry(registry);
    push_str(&mut out, r.as_str());
    out
}

pub open spec fn package_card(t: Seq<char>, p: PackageSummary, registry: Seq<char>) -> Seq<char> {
    let a = replace_all(t, "{{NAME}}"@, html_escaped(p.name@));
    let b = replace_all(a, "{{VERSION}}"@, html_escaped(p.version@));
    let c = replace_all(b, "{{AUTHOR}}"@, html_escaped(p.author@));
    let d = replace_all(c, "{{DESCRIPTION}}"@, html_escaped(p.description@));
    let e = replace_all(d, "{{DOWNLOADS}}"@, int_text(p.downloads as int));
    let f = replace_all(e, "{{PACKAGE_LINK}}"@, html_escaped("/packages/"@ + p.name@));
    replace_all(f, "{{INSTALL_CMD}}"@, html_escaped(install_cmd(p.name@, registry)))
}

pub open spec fn package_cards(t: Seq<char>, ps: Seq<PackageSummary>, registry: Seq<char>) -> Seq<
    char,
>
    decreases ps.len(),
{
    if ps.len() == 0 {
        Seq::empty()
    } else {
        package_cards(t, ps.drop_last(), registry) + package_card(t, ps.last(), registry)
    }
}

/// The package list of the front page.
pub open spec fn cards_html(t: Seq<char>, ps: Seq<PackageSummary>, registry: Seq<char>) -> Seq<
    char,
> {
    if ps.len() == 0 {
        "<p class=\"muted\">No packages yet.</p>"@
    } else {
        package_cards(t, ps, registry)
    }
}

fn render_package_card(t: &str, p: &PackageSummary, registry: &str) -> (r: String)
    ensures
        r@ == package_card(t@, *p, registry@),
{
    proof {
        reveal_strlit("{{NAME}}");
        reveal_strlit("{{VERSION}}");
        reveal_strlit("{{AUTHOR}}");
        reveal_strlit("{{DESCRIPTION}}");
        reveal_strlit("{{DOWNLOADS}}");
        reveal_strlit("{{PACKAGE_LINK}}");
        reveal_strlit("{{INSTALL_CMD}}");
    }
    let a = replace_text(t, "{{NAME}}", escape_html(p.name.as_str()).as_str());
    let b = replace_text(a.as_str(), "{{VERSION}}", escape_html(p.version.as_str()).as_str());
    let c = replace_text(b.as_str(), "{{AUTHOR}}", escape_html(p.author.as_str()).as_str());
    let d = replace_text(
        c.as_str(),
        "{{DESCRIPTION}}",
        escape_html(p.description.as_str()).as_str(),
    );
    let e = replace_text(d.as_str(), "{{DOWNLOADS}}", int_string(p.downloads).as_str());
    let mut link = String::from_str("/packages/");
    push_str(&mut link, p.name.as_str());
    let f = replace_text(e.as_str(), "{{PACKAGE_LINK}}", escape_html(link.as_str()).as_str());
    let cmd = install_command(p.name.as_str(), None, registry);
    replace_text(f.as_str(), "{{INSTALL_CMD}}", escape_html(cmd.as_str()).as_str())
}

pub fn render_package_cards(card_template: &str, packages: &[PackageSummary], registry_url: &str) -> (r:
    String)
    ensures
        r@ == cards_html(card_template@, packages@, registry_url@),
{
    if packages.len() == 0 {
        return String::from_str("<p class=\"muted\">No packages yet.</p>");
    }
    let mut html = String::new();
    let mut i: usize = 0;
    while i < packages.len()
        invariant
            i <= packages@.len(),
            html@ == package_cards(card_template@, packages@.take(i as int), registry_url@),
        decreases packages.len() - i,
    {
        assert(packages@.take(i + 1).drop_last() =~= packages@.take(i as int));
        let card = render_package_card(card_template, &packages[i], registry_url);
        push_str(&mut html, card.as_str());
        i = i + 1;
    }
    assert(packages@.take(packages@.len() as int) =~= packages@);
    html
}

/// The sign-in area of the front page.
pub open spec fn auth_section(t: Templates, user: Option<AuthUser>) -> Seq<char> {
    match user {
        Some(u) => replace_all(t.auth_user@, "{{USERNAME}}"@, html_escaped(u.username@)),
        None => t.auth_guest@,
    }
}

pub fn render_auth_section(templates: &Templates, current_user: Option<&AuthUser>) -> (r: String)
    ensures
        r@ == auth_section(
            *templates,
            match current_user {
                Some(u) => Some(*u),
                None => None,
            },
        ),
{
    proof {
        reveal_strlit("{{USERNAME}}");
    }
    match current_user {
        Some(user) => replace_text(
            templates.auth_user.as_str(),
            "{{USERNAME}}",
            escape_html(user.username.as_str()).as_str(),
        ),
        None => templates.auth_guest.clone(),
    }
}

pub open spec fn message_banner(code: Option<Seq<char>>) -> Seq<char> {
    match code {
        Some(c) => match message_for(c) {
            Some(m) => "<div class=\"notice\">"@ + html_escaped(m) + "</div>"@,
            None => Seq::empty(),
        },
        None => Seq::empty(),
    }
}

/// The front page.
pub open spec fn index_page(
    t: Templates,
    user: Option<AuthUser>,
    ps: Seq<PackageSummary>,
    search: Seq<char>,
    code: Option<Seq<char>>,
    registry: Seq<char>,
) -> Seq<char> {
    let a = replace_all(t.index@, "{{MESSAGE_BANNER}}"@, message_banner(code));
    let b = replace_all(a, "{{AUTH_SECTION}}"@, auth_section(t, user));
    let c = replace_all(b, "{{PACKAGE_CARDS}}"@, cards_html(t.package_card@, ps, registry));
    replace_all(c, "{{SEARCH_VALUE}}"@, html_escaped(search))
}

pub open spec fn opt_ref_view(o: Option<&str>) -> Option<Seq<char>> {
    match o {
        Some(s) => Some(s@),
        None => None,
    }
}

pub fn render_index_page(
    templates: &Templates,
    current_user: Option<&AuthUser>,
    packages: &[PackageSummary],
    search: &str,
    message_code: Option<&str>,
    registry_url: &str,
) -> (r: String)
    ensures
        r@ == index_page(
            *templates,
            match current_user {
                Some(u) => Some(*u),
                None => None,
            },
            packages@,
            search@,
            opt_ref_view(message_code),
            registry_url@,
        ),
{
    proof {
        reveal_strlit("{{MESSAGE_BANNER}}");
        reveal_strlit("{{AUTH_SECTION}}");
        reveal_strlit("{{PACKAGE_CARDS}}");
        reveal_strlit("{{SEARCH_VALUE}}");
    }
    let auth = render_auth_section(templates, current_user);
    let cards = render_package_cards(templates.package_card.as_str(), packages, registry_url);
    let banner = match message_code {
        Some(code) => match message_text(code) {
            Some(m) => {
                let mut b = String::from_str("<div class=\"notice\">");
                push_str(&mut b, escape_html(m).as_str());
                push_str(&mut b, "</div>");
                b
            },
            None => String::new(),
        },
        None => String::new(),
    };
    let a = replace_text(templates.index.as_str(), "{{MESSAGE_BANNER}}", banner.as_str());
    let b = replace_text(a.as_str(), "{{AUTH_SECTION}}", auth.as_str());
    let c = replace_text(b.as_str(), "{{PACKAGE_CARDS}}", cards.as_str());
    replace_text(c.as_str(), "{{SEARCH_VALUE}}", escape_html(search).as_str())
}

pub open spec fn version_item(t: Seq<char>, name: Seq<char>, v: PackageVersion, registry: Seq<char>) -> Seq<
    char,
> {
    let a = replace_all(
        t,
        "{{VERSION_LINK}}"@,
        html_escaped("/packages/"@ + name + "/"@ + v.version@),
    );
    let b = replace_all(a, "{{VERSION}}"@, html_escaped(v.version@));
    let c = replace_all(b, "{{CREATED_AT}}"@, html_escaped(v.created_at@));
    let d = replace_all(c, "{{DOWNLOADS}}"@, int_text(v.downloads as int));
    replace_all(
        d,
        "{{INSTALL_CMD}}"@,
        html_escaped(install_version_cmd(name, v.version@, registry)),
    )
}

pub open spec fn version_items(
    t: Seq<char>,
    name: Seq<char>,
    vs: Seq<PackageVersion>,
    registry: Seq<char>,
) -> Seq<char>
    decreases vs.len(),
{
    if vs.len() == 0 {
        Seq::empty()
    } else {
        version_items(t, name, vs.drop_last(), registry) + version_item(t, name, vs.last(), registry)
    }
}

fn render_version_item(t: &str, name: &str, v: &PackageVersion, registry: &str) -> (r: String)
    ensures
        r@ == version_item(t@, name@, *v, registry@),
{
    proof {
        reveal_strlit("{{VERSION_LINK}}");
        reveal_strlit("{{VERSION}}");
        reveal_strlit("{{CREATED_AT}}");
        reveal_strlit("{{DOWNLOADS}}");
        reveal_strlit("{{INSTALL_CMD}}");
    }
    let mut link = String::from_str("/packages/");
    push_str(&mut link, name);
    push_str(&mut link, "/");
    push_str(&mut link, v.version.as_str());
    let a = replace_text(t, "{{VERSION_LINK}}", escape_html(link.as_str()).as_str());
    let b = replace_text(a.as_str(), "{{VERSION}}", escape_html(v.version.as_str()).as_str());
    let c = replace_text(b.as_str(), "{{CREATED_AT}}", escape_html(v.created_at.as_str()).as_str());
    let d = replace_text(c.as_str(), "{{DOWNLOADS}}", int_string(v.downloads).as_str());
    let cmd = install_command(name, Some(v.version.as_str()), registry);
    replace_text(d.as_str(), "{{INSTALL_CMD}}", escape_html(cmd.as_str()).as_str())
}

pub fn render_version_items(
    item_template: &str,
    name: &str,
    versions: &[PackageVersion],
    registry_url: &str,
) -> (r: String)
    ensures
        r@ == version_items(item_template@, name@, versions@, registry_url@),
{
    let mut html = String::new();
    let mut i: usize = 0;
    while i < versions.len()
        invariant
            i <= versions@.len(),
            html@ == version_items(item_template@, name@, versions@.take(i as int), registry_url@),
        decreases versions.len() - i,
    {
        assert(versions@.take(i + 1).drop_last() =~= versions@.take(i as int));
        let item = render_version_item(item_template, name, &versions[i], registry_url);
        push_str(&mut html, item.as_str());
        i = i + 1;
    }
    assert(versions@.take(versions@.len() as int) =~= versions@);
    html
}

pub open spec fn total_downloads(vs: Seq<PackageVersion>) -> int
    decreases vs.len(),
{
    if vs.len() == 0 {
        0
    } else {
        total_downloads(vs.drop_last()) + vs.last().downloads
    }
}

/// Every running total of the downloads fits an `i64`, as summing them needs.
pub open spec fn downloads_fit(vs: Seq<PackageVersion>) -> bool {
    forall|k: int|
        0 <= k <= vs.len() ==> i64::MIN <= #[trigger] total_downloads(vs.take(k)) <= i64::MAX
}

pub open spec fn tarball_link(url: Seq<char>) -> Seq<char> {
    if trim(url).len() == 0 {
        "<span class=\"muted\">No tarball URL</span>"@
    } else {
        "<a href=\""@ + html_escaped(url) + "\" target=\"_blank\" rel=\"noopener\">Tarball</a>"@
    }
}

pub open spec fn github_link(repo: Seq<char>) -> Seq<char> {
    let g = repo_url(repo);
    if g.len() == 0 {
        "<span class=\"muted\">No repo URL</span>"@
    } else {
        "<a href=\""@ + html_escaped(g) + "\" target=\"_blank\" rel=\"noopener\">Source Repo</a>"@
    }
}

pub open spec fn server_file_tools(tarball: Seq<char>, registry: Seq<char>) -> Seq<char> {
    match crate::registry::files::uploaded_name(tarball, registry) {
        Some(f) => "<a href=\""@ + html_escaped("/uploads/"@ + f + "/inspect"@)
            + "\">Inspect Server File</a> "@ + "<a href=\""@ + html_escaped("/uploads/"@ + f)
            + "\" target=\"_blank\" rel=\"noopener\">Raw Download</a>"@,
        None => "<span class=\"muted\">No uploaded server file for this version.</span>"@,
    }
}

/// The page of a package at a selected version.
pub open spec fn detail_page(
    t: Templates,
    name: Seq<char>,
    sel: PackageVersion,
    vs: Seq<PackageVersion>,
    registry: Seq<char>,
) -> Seq<char> {
    let a = replace_all(t.package_detail@, "{{NAME}}"@, html_escaped(name));
    let b = replace_all(a, "{{VERSION}}"@, html_escaped(sel.version@));
    let c = replace_all(b, "{{DESCRIPTION}}"@, html_escaped(sel.description@));
    let d = replace_all(c, "{{AUTHOR}}"@, html_escaped(sel.author@));
    let e = replace_all(d, "{{CREATED_AT}}"@, html_escaped(sel.created_at@));
    let f = replace_all(e, "{{DOWNLOADS}}"@, int_text(total_downloads(vs)));
    let g = replace_all(f, "{{VERSION_DOWNLOADS}}"@, int_text(sel.downloads as int));
    let h = replace_all(g, "{{README_HTML}}"@, readme_html(sel.readme@));
    let i = replace_all(h, "{{VERSION_ITEMS}}"@, version_items(t.version_item@, name, vs, registry));
    let j = replace_all(i, "{{INSTALL_LATEST_CMD}}"@, html_escaped(install_cmd(name, registry)));
    let k = replace_all(
        j,
        "{{INSTALL_SELECTED_CMD}}"@,
        html_escaped(install_version_cmd(name, sel.version@, registry)),
    );
    let l = replace_all(k, "{{TARBALL_LINK}}"@, tarball_link(sel.tarball_url@));
    let m = replace_all(l, "{{GITHUB_LINK}}"@, github_link(sel.github_repo@));
    replace_all(m, "{{SERVER_FILE_TOOLS}}"@, server_file_tools(sel.tarball_url@, registry))
}

fn sum_downloads(versions: &[PackageVersion]) -> (n: i64)
    requires
        downloads_fit(versions@),
    ensures
        n == total_downloads(versions@),
{
    let mut n: i64 = 0;
    let mut i: usize = 0;
    assert(versions@.take(0) =~= Seq::<PackageVersion>::empty());
    while i < versions.len()
        invariant
            i <= versions@.len(),
            downloads_fit(versions@),
            n == total_downloads(versions@.take(i as int)),
        decreases versions.len() - i,
    {
        assert(versions@.take(i + 1).drop_last() =~= versions@.take(i as int));
        assert(i64::MIN <= total_downloads(versions@.take(i + 1)) <= i64::MAX);
        n = n + versions[i].downloads;
        i = i + 1;
    }
    assert(versions@.take(versions@.len() as int) =~= versions@);
    n
}

/// Whether every running total of the downloads fits an `i64`: the
/// condition under which the package page can be rendered.
pub fn downloads_total_fits(versions: &[PackageVersion]) -> (b: bool)
    ensures
        b == downloads_fit(versions@),
{
    let mut n: i64 = 0;
    let mut i: usize = 0;
    assert(versions@.take(0) =~= Seq::<PackageVersion>::empty());
    while i < versions.len()
        invariant
            i <= versions@.len(),
            n == total_downloads(versions@.take(i as int)),
            forall|k: int|
                0 <= k <= i ==> i64::MIN <= #[trigger] total_downloads(versions@.take(k)) <= i64::MAX,
        decreases versions.len() - i,
    {
        assert(versions@.take(i + 1).drop_last() =~= versions@.take(i as int));
        match n.checked_add(versions[i].downloads) {
            Some(m) => {
                n = m;
                i = i + 1;
            },
            None => {
                assert(!(i64::MIN <= total_downloads(versions@.take(i + 1)) <= i64::MAX));
                return false;
            },
        }
    }
    assert(versions@.take(versions@.len() as int) =~= versions@);
    true
}

fn link_html(href: &str, tail: &str) -> (r: String)
    ensures
        r@ == "<a href=\""@ + html_escaped(href@) + tail@,
{
    let mut out = String::from_str("<a href=\"");
    push_str(&mut out, escape_html(href).as_str());
    push_str(&mut out, tail);
    out
}

fn render_server_file_tools(tarball: &str, registry: &str) -> (r: String)
    ensures
        r@ == server_file_tools(tarball@, registry@),
{
    match crate::registry::files::uploaded_file_name_from_tarball_url(tarball, registry) {
        Some(f) => {
            let mut inspect = String::from_str("/uploads/");
            push_str(&mut inspect, f.as_str());
            push_str(&mut inspect, "/inspect");
            let mut raw = String::from_str("/uploads/");
            push_str(&mut raw, f.as_str());
            let mut out = link_html(inspect.as_str(), "\">Inspect Server File</a> ");
            let second = link_html(
                raw.as_str(),
                "\" target=\"_blank\" rel=\"noopener\">Raw Download</a>",
            );
            push_str(&mut out, second.as_str());
            out
        },
        None => String::from_str(
            "<span class=\"muted\">No uploaded server file for this version.</span>",
        ),
    }
}

#[verifier::rlimit(40)]
pub fn render_package_detail_page(
    templates: &Templates,
    name: &str,
    selected: &PackageVersion,
    versions: &[PackageVersion],
    registry_url: &str,
) -> (r: String)
    requires
        downloads_fit(versions@),
    ensures
        r@ == detail_page(*templates, name@, *selected, versions@, registry_url@),
{
    proof {
        reveal_strlit("{{NAME}}");
        reveal_strlit("{{VERSION}}");
        reveal_strlit("{{DESCRIPTION}}");
        reveal_strlit("{{AUTHOR}}");
        reveal_strlit("{{CREATED_AT}}");
        reveal_strlit("{{DOWNLOADS}}");
        reveal_strlit("{{VERSION_DOWNLOADS}}");
        reveal_strlit("{{README_HTML}}");
        reveal_strlit("{{VERSION_ITEMS}}");
        reveal_strlit("{{INSTALL_LATEST_CMD}}");
        reveal_strlit("{{INSTALL_SELECTED_CMD}}");
        reveal_strlit("{{TARBALL_LINK}}");
        reveal_strlit("{{GITHUB_LINK}}");
        reveal_strlit("{{SERVER_FILE_TOOLS}}");
    }
    let install_latest = install_command(name, None, registry_url);
    let install_selected = install_command(name, Some(selected.version.as_str()), registry_url);
    let total = sum_downloads(versions);
    let readme = render_readme_html(selected.readme.as_str());
    let items = render_version_items(templates.version_item.as_str(), name, versions, registry_url);
    let tarball = if is_blank(selected.tarball_url.as_str()) {
        String::from_str("<span class=\"muted\">No tarball URL</span>")
    } else {
        link_html(
            selected.tarball_url.as_str(),
            "\" target=\"_blank\" rel=\"noopener\">Tarball</a>",
        )
    };
    let g = normalize_repo_url(selected.github_repo.as_str());
    let github = if g.as_str().is_empty() {
        String::from_str("<span class=\"muted\">No repo URL</span>")
    } else {
        link_html(g.as_str(), "\" target=\"_blank\" rel=\"noopener\">Source Repo</a>")
    };
    let tools = render_server_file_tools(selected.tarball_url.as_str(), registry_url);
    let a = replace_text(templates.package_detail.as_str(), "{{NAME}}", escape_html(name).as_str());
    let b = replace_text(a.as_str(), "{{VERSION}}", escape_html(selected.version.as_str()).as_str());
    let c = replace_text(
        b.as_str(),
        "{{DESCRIPTION}}",
        escape_html(selected.description.as_str()).as_str(),
    );
    let d = replace_text(c.as_str(), "{{AUTHOR}}", escape_html(selected.author.as_str()).as_str());
    let e = replace_text(
        d.as_str(),
        "{{CREATED_AT}}",
        escape_html(selected.created_at.as_str()).as_str(),
    );
    let f = replace_text(e.as_str(), "{{DOWNLOADS}}", int_string(total).as_str());
    let g2 = replace_text(
        f.as_str(),
        "{{VERSION_DOWNLOADS}}",
        int_string(selected.downloads).as_str(),
    );
    let h = replace_text(g2.as_str(), "{{README_HTML}}", readme.as_str());
    let i = replace_text(h.as_str(), "{{VERSION_ITEMS}}", items.as_str());
    let j = replace_text(
        i.as_str(),
        "{{INSTALL_LATEST_CMD}}",
        escape_html(install_latest.as_str()).as_str(),
    );
    let k = replace_text(
        j.as_str(),
        "{{INSTALL_SELECTED_CMD}}",
        escape_html(install_selected.as_str()).as_str(),
    );
    let l = replace_text(k.as_str(), "{{TARBALL_LINK}}", tarball.as_str());
    let m = replace_text(l.as_str(), "{{GITHUB_LINK}}", github.as_str());
    replace_text(m.as_str(), "{{SERVER_FILE_TOOLS}}", tools.as_str())
}

/// Escaped text holds no `<`, `>`, `"` or `'`, so it cannot open a tag or
/// close an attribute.
pub proof fn law_escaped_html_is_inert(s: Seq<char>)
    ensures
        forall|i: int|
            0 <= i < html_escaped(s).len() ==> {
                let c = #[trigger] html_escaped(s)[i];
                c != '<' && c != '>' && c != '"' && c != '\''
            },
    decreases s.len(),
{
    if s.len() > 0 {
        law_escaped_html_is_inert(s.drop_last());
        let c = s.last();
        let piece = html_char(c);
        reveal_strlit("&amp;");
        reveal_strlit("&lt;");
        reveal_strlit("&gt;");
        reveal_strlit("&quot;");
        reveal_strlit("&#39;");
        assert(forall|j: int| 0 <= j < piece.len() ==> {
            let d = #[trigger] piece[j];
            d != '<' && d != '>' && d != '"' && d != '\''
        });
        let pre = html_escaped(s.drop_last());
        assert(html_escaped(s) == pre + piece);
        assert forall|i: int| 0 <= i < html_escaped(s).len() implies {
            let c = #[trigger] html_escaped(s)[i];
            c != '<' && c != '>' && c != '"' && c != '\''
        } by {
            if i < pre.len() {
                assert(html_escaped(s)[i] == pre[i]);
            } else {
                assert(html_escaped(s)[i] == piece[i - pre.len()]);
            }
        }
    }
}

proof fn lemma_package_cards_append(
    t: Seq<char>,
    ps: Seq<PackageSummary>,
    qs: Seq<PackageSummary>,
    registry: Seq<char>,
)
    ensures
        package_cards(t, ps + qs, registry) == package_cards(t, ps, registry) + package_cards(
            t,
            qs,
            registry,
        ),
    decreases qs.len(),
{
    if qs.len() == 0 {
        assert(ps + qs =~= ps);
        assert(package_cards(t, ps, registry) + Seq::<char>::empty() =~= package_cards(t, ps, registry));
    } else {
        assert((ps + qs).drop_last() =~= ps + qs.drop_last());
        assert((ps + qs).last() == qs.last());
        lemma_package_cards_append(t, ps, qs.drop_last(), registry);
        assert(package_cards(t, ps, registry) + package_cards(t, qs.drop_last(), registry)
            + package_card(t, qs.last(), registry) =~= package_cards(t, ps, registry) + (
        package_cards(t, qs.drop_last(), registry) + package_card(t, qs.last(), registry)));
    }
}

/// The front page shows one card per package, in order: a single package
/// gives its own card, and the list of two lists of packages is the list of
/// the first followed by that of the second.
pub proof fn law_one_card_per_package(
    t: Seq<char>,
    ps: Seq<PackageSummary>,
    qs: Seq<PackageSummary>,
    registry: Seq<char>,
)
    ensures
        ps.len() == 1 ==> cards_html(t, ps, registry) == package_card(t, ps[0], registry),
        ps.len() > 0 && qs.len() > 0 ==> cards_html(t, ps + qs, registry) == cards_html(
            t,
            ps,
            registry,
        ) + cards_html(t, qs, registry),
{
    if ps.len() == 1 {
        assert(ps.drop_last() =~= Seq::<PackageSummary>::empty());
        assert(package_cards(t, ps.drop_last(), registry) == Seq::<char>::empty());
        assert(ps.last() == ps[0]);
        assert(package_cards(t, ps, registry) == package_cards(t, ps.drop_last(), registry)
            + package_card(t, ps.last(), registry));
        assert(Seq::<char>::empty() + package_card(t, ps[0], registry) =~= package_card(t, ps[0], registry));
    }
    lemma_package_cards_append(t, ps, qs, registry);
}

} // verus!
