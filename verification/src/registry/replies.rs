//! What the registry's endpoints answer, decided from the outcome of each
//! step: authentication, checking, storing.
use vstd::prelude::*;

use crate::registry::accounts::{argon2_verifies, hash_password, verify_password};
use crate::registry::html::{AuthUser, PackageVersion};
use crate::registry::validate::{
    npm_import_result, npm_request_rest, publish_request_result, request_result_view,
    username_error, utf8_len, validate_npm_import_publish_request, validate_publish_request,
    NpmImportPublishRequest, PublishRequest, PublishRequestV,
};
use crate::text::{chars_of, contains, lower, map_chars, str_contains, str_eq, to_lower, trim, trimmed};

verus! {

/// A JSON reply `{ ok, message }` with its HTTP status.
pub struct ApiReply {
    pub status: u16,
    pub ok: bool,
    pub message: String,
}

pub open spec fn is_reply(r: ApiReply, status: u16, ok: bool, message: Seq<char>) -> bool {
    r.status == status && r.ok == ok && r.message@ == message
}

fn reply(status: u16, ok: bool, message: String) -> (r: ApiReply)
    ensures
        is_reply(r, status, ok, message@),
{
    ApiReply { status, ok, message }
}

/// The reply to an API request whose authentication did not yield an
/// account: 401 without credentials, 500 when the lookup failed.
pub open spec fn auth_refusal(auth: Result<Option<AuthUser>, String>) -> Option<(u16, Seq<char>)> {
    match auth {
        Ok(Some(_)) => None,
        Ok(None) => Some((401u16, "Authentication required"@)),
        Err(e) => Some((500u16, e@)),
    }
}

pub fn api_auth_reply(auth: &Result<Option<AuthUser>, String>) -> (r: Option<ApiReply>)
    ensures
        match (r, auth_refusal(*auth)) {
            (Some(rep), Some((status, message))) => is_reply(rep, status, false, message),
            (None, None) => true,
            _ => false,
        },
{
    match auth {
        Ok(Some(_)) => None,
        Ok(None) => Some(reply(401, false, String::from_str("Authentication required"))),
        Err(e) => Some(reply(500, false, e.clone())),
    }
}

/// The reply once the package is stored, or could not be.
pub fn publish_outcome_reply(stored: Result<(), String>) -> (r: ApiReply)
    ensures
        match stored {
            Ok(_) => is_reply(r, 201, true, "Package published"@),
            Err(e) => is_reply(r, 400, false, e@),
        },
{
    match stored {
        Ok(()) => reply(201, true, String::from_str("Package published")),
        Err(e) => reply(400, false, e),
    }
}

/// A request refused before anything is stored.
pub fn rejection_reply(error: String) -> (r: ApiReply)
    ensures
        is_reply(r, 400, false, error@),
{
    reply(400, false, error)
}

/// What to do with a JSON publish request once authentication is known.
pub enum PublishStep {
    Reply(ApiReply),
    Store(PublishRequest, AuthUser),
}

pub fn publish_api_step(auth: Result<Option<AuthUser>, String>, payload: PublishRequest) -> (s:
    PublishStep)
    ensures
        match auth {
            Ok(Some(user)) => match (s, publish_request_result(payload@)) {
                (PublishStep::Store(p, u), Ok(q)) => p@ == q && u == user,
                (PublishStep::Reply(rep), Err(e)) => is_reply(rep, 400, false, e),
                _ => false,
            },
            Ok(None) => s matches PublishStep::Reply(rep) && is_reply(
                rep,
                401,
                false,
                "Authentication required"@,
            ),
            Err(e) => s matches PublishStep::Reply(rep) && is_reply(rep, 500, false, e@),
        },
{
    match auth {
        Ok(Some(user)) => match validate_publish_request(payload) {
            Ok(p) => PublishStep::Store(p, user),
            Err(e) => PublishStep::Reply(rejection_reply(e)),
        },
        Ok(None) => PublishStep::Reply(reply(401, false, String::from_str("Authentication required"))),
        Err(e) => PublishStep::Reply(reply(500, false, e)),
    }
}

/// What to do with a guest publish of an npm import.
pub fn publish_npm_import_step(payload: NpmImportPublishRequest) -> (r: Result<
    PublishRequest,
    ApiReply,
>)
    ensures
        match (
            r,
            npm_import_result(
                payload.name@,
                payload.version@,
                payload.npm_name@,
                npm_request_rest(payload),
            ),
        ) {
            (Ok(p), Ok(q)) => p@ == q,
            (Err(rep), Err(e)) => is_reply(rep, 400, false, e),
            _ => false,
        },
{
    match validate_npm_import_publish_request(payload) {
        Ok(p) => Ok(p),
        Err(e) => Err(rejection_reply(e)),
    }
}

// ---------------------------------------------------------------------------
// Signing in through the API
// ---------------------------------------------------------------------------

/// An account as stored.
pub struct UserRecord {
    pub id: i64,
    pub username: String,
    pub password_hash: String,
}

/// The JSON reply to `/api/login`, with its HTTP status.
pub struct LoginReply {
    pub status: u16,
    pub ok: bool,
    pub message: String,
    pub token: Option<String>,
    pub username: Option<String>,
}

pub open spec fn is_login_refusal(r: LoginReply, status: u16, message: Seq<char>) -> bool {
    r.status == status && !r.ok && r.message@ == message && r.token is None && r.username is None
}

fn login_refusal(status: u16, message: &str) -> (r: LoginReply)
    ensures
        is_login_refusal(r, status, message@),
{
    LoginReply { status, ok: false, message: String::from_str(message), token: None, username: None }
}

/// What to do after looking the account up: refuse, or open a session.
pub enum LoginStep {
    Reply(LoginReply),
    OpenSession(UserRecord),
}

/// Decides a sign-in from the account lookup and the password given.
pub fn api_login_step(lookup: Result<Option<UserRecord>, String>, password: &str) -> (s: LoginStep)
    ensures
        match lookup {
            Ok(Some(user)) => if argon2_verifies(password@, user.password_hash@) {
                s matches LoginStep::OpenSession(u) && u == user
            } else {
                s matches LoginStep::Reply(r) && is_login_refusal(
                    r,
                    401,
                    "Invalid username or password"@,
                )
            },
            Ok(None) => s matches LoginStep::Reply(r) && is_login_refusal(
                r,
                401,
                "Invalid username or password"@,
            ),
            Err(_) => s matches LoginStep::Reply(r) && is_login_refusal(r, 500, "Login failed"@),
        },
{
    match lookup {
        Ok(Some(user)) => {
            if verify_password(password, user.password_hash.as_str()) {
                LoginStep::OpenSession(user)
            } else {
                LoginStep::Reply(login_refusal(401, "Invalid username or password"))
            }
        },
        Ok(None) => LoginStep::Reply(login_refusal(401, "Invalid username or password")),
        Err(_) => LoginStep::Reply(login_refusal(500, "Login failed")),
    }
}

/// The reply once the session is opened, or could not be.
pub fn api_login_reply(session: Result<String, String>, username: String) -> (r: LoginReply)
    ensures
        match session {
            Ok(token) => r.status == 200 && r.ok && r.message@ == "Login successful"@ && r.token
                == Some(token) && r.username == Some(username),
            Err(_) => is_login_refusal(r, 500, "Could not create session"@),
        },
{
    match session {
        Ok(token) => LoginReply {
            status: 200,
            ok: true,
            message: String::from_str("Login successful"),
            token: Some(token),
            username: Some(username),
        },
        Err(_) => login_refusal(500, "Could not create session"),
    }
}

// ---------------------------------------------------------------------------
// The browser forms
// ---------------------------------------------------------------------------

/// What to do with a sign-in form after looking the account up.
pub enum FormLoginStep {
    Redirect(&'static str),
    OpenSession(UserRecord),
}

pub fn form_login_step(lookup: Result<Option<UserRecord>, String>, password: &str) -> (s:
    FormLoginStep)
    ensures
        match lookup {
            Ok(Some(user)) => if argon2_verifies(password@, user.password_hash@) {
                s matches FormLoginStep::OpenSession(u) && u == user
            } else {
                s matches FormLoginStep::Redirect(c) && c@ == "bad_credentials"@
            },
            Ok(None) => s matches FormLoginStep::Redirect(c) && c@ == "bad_credentials"@,
            Err(_) => s matches FormLoginStep::Redirect(c) && c@ == "login_failed"@,
        },
{
    match lookup {
        Ok(Some(user)) => {
            if verify_password(password, user.password_hash.as_str()) {
                FormLoginStep::OpenSession(user)
            } else {
                FormLoginStep::Redirect("bad_credentials")
            }
        },
        Ok(None) => FormLoginStep::Redirect("bad_credentials"),
        Err(_) => FormLoginStep::Redirect("login_failed"),
    }
}

/// The message code after opening a session for a form: signed in, or the
/// failure of `failure`.
pub fn session_code(opened: bool, success: &'static str, failure: &'static str) -> (c: &'static str)
    ensures
        c == if opened {
            success
        } else {
            failure
        },
{
    if opened {
        success
    } else {
        failure
    }
}

/// What to do with a sign-up form.
pub enum RegisterStep {
    Redirect(&'static str),
    Create { username: String, password_hash: String },
}

pub fn register_step(username: &str, password: &str) -> (s: RegisterStep)
    ensures
        username_error(username@) is Some ==> (s matches RegisterStep::Redirect(c) && c@
            == "register_invalid"@),
        username_error(username@) is None && utf8_len(password@) < 8 ==> (
        s matches RegisterStep::Redirect(c) && c@ == "password_short"@),
        username_error(username@) is None && 8 <= utf8_len(password@) <= u32::MAX ==> (
        s matches RegisterStep::Create { username: u, password_hash: h } && u@ == trim(username@)
            && argon2_verifies(password@, h@)),
        username_error(username@) is None && utf8_len(password@) > u32::MAX ==> (s matches RegisterStep::Redirect(c)
            && c@ == "register_failed"@) || (s matches RegisterStep::Create { username: u, password_hash: h }
            && u@ == trim(username@) && argon2_verifies(password@, h@)),
{
    if crate::registry::validate::validate_username(username).is_err() {
        return RegisterStep::Redirect("register_invalid");
    }
    if password.as_bytes().len() < 8 {
        return RegisterStep::Redirect("password_short");
    }
    match hash_password(password) {
        Ok(h) => RegisterStep::Create { username: trimmed(username), password_hash: h },
        Err(_) => RegisterStep::Redirect("register_failed"),
    }
}

/// ASCII lower-casing of each character.
pub open spec fn ascii_lowered(s: Seq<char>) -> Seq<char> {
    map_chars(s, |c: char| seq![lower(c)])
}

/// Whether an error text speaks of a uniqueness conflict, in any case.
pub open spec fn mentions_unique(text: Seq<char>) -> bool {
    contains(ascii_lowered(text), "unique"@)
}

pub fn is_unique_violation(text: &str) -> (b: bool)
    ensures
        b == mentions_unique(text@),
{
    let v = chars_of(text);
    let mut low = String::new();
    let mut i: usize = 0;
    while i < v.len()
        invariant
            v@ == text@,
            i <= v@.len(),
            low@ == map_chars(v@.take(i as int), |c: char| seq![lower(c)]),
        decreases v.len() - i,
    {
        proof {
            crate::text::lemma_map_chars_push(v@, |c: char| seq![lower(c)], i as int);
        }
        low.push(to_lower(v[i]));
        i = i + 1;
    }
    assert(v@.take(v@.len() as int) == v@);
    str_contains(low.as_str(), "unique")
}

/// The message code when creating the account failed.
pub fn register_failure_code(error: &str) -> (c: &'static str)
    ensures
        c@ == if mentions_unique(error@) {
            "user_exists"@
        } else {
            "register_failed"@
        },
{
    if is_unique_violation(error) {
        "user_exists"
    } else {
        "register_failed"
    }
}

/// The message code for the publish form once authentication is known:
/// none when signed in.
pub fn publish_form_auth_code(auth: &Result<Option<AuthUser>, String>) -> (c: Option<&'static str>)
    ensures
        match auth {
            Ok(Some(_)) => c is None,
            Ok(None) => c matches Some(m) && m@ == "login_required"@,
            Err(_) => c matches Some(m) && m@ == "publish_failed"@,
        },
{
    match auth {
        Ok(Some(_)) => None,
        Ok(None) => Some("login_required"),
        Err(_) => Some("publish_failed"),
    }
}

// ---------------------------------------------------------------------------
// Package pages
// ---------------------------------------------------------------------------

/// The index of the version shown on a package page: the newest (first)
/// when none is asked for, else the first with the version asked for.
pub fn select_page_version(versions: &[PackageVersion], wanted: Option<&str>) -> (r: Result<
    usize,
    String,
>)
    ensures
        match r {
            Ok(i) => i < versions@.len() && (match wanted {
                None => i == 0,
                Some(w) => versions@[i as int].version@ == w@ && forall|j: int|
                    0 <= j < i ==> versions@[j].version@ != w@,
            }),
            Err(e) => e@ == (if versions@.len() == 0 {
                "Package not found"@
            } else {
                "Version not found"@
            }) && (versions@.len() == 0 || (wanted matches Some(w) && forall|j: int|
                0 <= j < versions@.len() ==> versions@[j].version@ != w@)),
        },
{
    if versions.len() == 0 {
        return Err(String::from_str("Package not found"));
    }
    match wanted {
        None => Ok(0),
        Some(w) => {
            let mut i: usize = 0;
            while i < versions.len()
                invariant
                    wanted == Some(w),
                    i <= versions@.len(),
                    forall|j: int| 0 <= j < i ==> versions@[j].version@ != w@,
                decreases versions.len() - i,
            {
                if str_eq(versions[i].version.as_str(), w) {
                    return Ok(i);
                }
                i = i + 1;
            }
            Err(String::from_str("Version not found"))
        },
    }
}

} // verus!
