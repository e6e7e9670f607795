//! Publishing: the form a browser or `vpm` sends, who may publish under a
//! name, the row that is stored, and the replies of the publish endpoints.
use vstd::prelude::*;

use crate::registry::files::{stored_upload_name, upload_file_name, upload_url, upload_url_for};
use crate::registry::html::AuthUser;
use crate::registry::validate::{
    opt_view, publish_request_result, request_result_view, validate_publish_request,
    PublishRequest, PublishRequestV,
};
use crate::text::{is_blank, str_eq, trim, trimmed};

verus! {

/// The largest upload accepted, in bytes.
pub const MAX_UPLOAD_BYTES: usize = 26214400;

/// The author of packages published by guests importing from npm.
pub open spec fn npm_ghost_author() -> Seq<char> {
    "npm_ghost"@
}

// ---------------------------------------------------------------------------
// The publish form
// ---------------------------------------------------------------------------

/// A file sent with the publish form.
pub struct UploadedFile {
    pub file_name: String,
    pub bytes: Vec<u8>,
}

/// The publish form as read so far.
pub struct PublishDraft {
    pub name: String,
    pub version: String,
    pub description: String,
    pub tarball_url: String,
    pub github_repo: String,
    pub readme: String,
    pub uploaded_file: Option<UploadedFile>,
}

/// The form's fields other than the file.
pub struct DraftFields {
    pub name: Seq<char>,
    pub version: Seq<char>,
    pub description: Seq<char>,
    pub tarball_url: Seq<char>,
    pub github_repo: Seq<char>,
    pub readme: Seq<char>,
}

impl PublishDraft {
    pub open spec fn fields(&self) -> DraftFields {
        DraftFields {
            name: self.name@,
            version: self.version@,
            description: self.description@,
            tarball_url: self.tarball_url@,
            github_repo: self.github_repo@,
            readme: self.readme@,
        }
    }

    /// The uploaded file's name and bytes, if one was sent.
    pub open spec fn upload(&self) -> Option<(Seq<char>, Seq<u8>)> {
        match self.uploaded_file {
            Some(f) => Some((f.file_name@, f.bytes@)),
            None => None,
        }
    }

    /// An empty form.
    pub fn new() -> (d: Self)
        ensures
            d.fields() == (DraftFields {
                name: Seq::empty(),
                version: Seq::empty(),
                description: Seq::empty(),
                tarball_url: Seq::empty(),
                github_repo: Seq::empty(),
                readme: Seq::empty(),
            }),
            d.upload() is None,
    {
        PublishDraft {
            name: String::new(),
            version: String::new(),
            description: String::new(),
            tarball_url: String::new(),
            github_repo: String::new(),
            readme: String::new(),
            uploaded_file: None,
        }
    }
}

/// The form after a text field: the known fields are kept trimmed, the
/// README as sent; other fields are ignored.
pub open spec fn with_field(d: DraftFields, field: Seq<char>, value: Seq<char>) -> DraftFields {
    if field == "name"@ {
        DraftFields { name: trim(value), ..d }
    } else if field == "version"@ {
        DraftFields { version: trim(value), ..d }
    } else if field == "description"@ {
        DraftFields { description: trim(value), ..d }
    } else if field == "tarball_url"@ {
        DraftFields { tarball_url: trim(value), ..d }
    } else if field == "github_repo"@ {
        DraftFields { github_repo: trim(value), ..d }
    } else if field == "readme"@ {
        DraftFields { readme: value, ..d }
    } else {
        d
    }
}

/// Whether a form field carries the package file.
pub fn is_file_field(field: &str) -> (b: bool)
    ensures
        b == (field@ == "package_file"@),
{
    str_eq(field, "package_file")
}

impl PublishDraft {
    /// Records a text field of the form.
    pub fn set_text_field(&mut self, field: &str, value: &str)
        ensures
            final(self).fields() == with_field(old(self).fields(), field@, value@),
            final(self).upload() == old(self).upload(),
    {
        if str_eq(field, "name") {
            self.name = trimmed(value);
        } else if str_eq(field, "version") {
            self.version = trimmed(value);
        } else if str_eq(field, "description") {
            self.description = trimmed(value);
        } else if str_eq(field, "tarball_url") {
            self.tarball_url = trimmed(value);
        } else if str_eq(field, "github_repo") {
            self.github_repo = trimmed(value);
        } else if str_eq(field, "readme") {
            self.readme = String::from_str(value);
        }
    }

    /// Records the package file: an empty one is ignored, one over the size
    /// limit is refused; a file without a name is called `package.bin`.
    pub fn attach_file(&mut self, file_name: Option<&str>, bytes: Vec<u8>) -> (r: Result<(), String>)
        ensures
            final(self).fields() == old(self).fields(),
            bytes@.len() == 0 ==> r is Ok && final(self).upload() == old(self).upload(),
            bytes@.len() > MAX_UPLOAD_BYTES ==> (r matches Err(e) && e@
                == "Uploaded file is too large"@) && final(self).upload() == old(self).upload(),
            0 < bytes@.len() <= MAX_UPLOAD_BYTES ==> r is Ok && final(self).upload() == Some(
                (
                    match file_name {
                        Some(n) => n@,
                        None => "package.bin"@,
                    },
                    bytes@,
                ),
            ),
    {
        if bytes.len() == 0 {
            return Ok(());
        }
        if bytes.len() > MAX_UPLOAD_BYTES {
            return Err(String::from_str("Uploaded file is too large"));
        }
        let name = match file_name {
            Some(n) => String::from_str(n),
            None => String::from_str("package.bin"),
        };
        self.uploaded_file = Some(UploadedFile { file_name: name, bytes });
        Ok(())
    }

    /// The form once all fields are read: a name and a version are needed.
    pub fn check_required(&self) -> (r: Result<(), String>)
        ensures
            match r {
                Ok(_) => self.name@.len() > 0 && self.version@.len() > 0,
                Err(e) => (self.name@.len() == 0 || self.version@.len() == 0) && e@
                    == "name and version are required"@,
            },
    {
        if self.name.as_str().is_empty() || self.version.as_str().is_empty() {
            Err(String::from_str("name and version are required"))
        } else {
            Ok(())
        }
    }
}

pub open spec fn blank_to_none(s: Seq<char>) -> Option<Seq<char>> {
    if trim(s).len() == 0 {
        None
    } else {
        Some(s)
    }
}

/// The publish request a completed form stands for: the stored upload's URL
/// in place of the tarball URL when a file was sent, blank fields left out.
pub open spec fn draft_request(d: DraftFields, stored_url: Option<Seq<char>>) -> PublishRequestV {
    PublishRequestV {
        name: d.name,
        version: d.version,
        description: blank_to_none(d.description),
        tarball_url: blank_to_none(
            match stored_url {
                Some(u) => u,
                None => d.tarball_url,
            },
        ),
        github_repo: blank_to_none(d.github_repo),
        readme: blank_to_none(d.readme),
    }
}

fn non_blank(s: String) -> (r: Option<String>)
    ensures
        opt_view(r) == blank_to_none(s@),
{
    if is_blank(s.as_str()) {
        None
    } else {
        Some(s)
    }
}

/// Turns a completed form into a checked publish request; `stored_url` is
/// where the form's file was stored, if it had one.
pub fn finalize_publish_draft(draft: PublishDraft, stored_url: Option<String>) -> (r: Result<
    PublishRequest,
    String,
>)
    ensures
        request_result_view(r) == publish_request_result(
            draft_request(draft.fields(), opt_view(stored_url)),
        ),
{
    let PublishDraft { name, version, description, tarball_url, github_repo, readme, uploaded_file } =
        draft;
    let tarball = match stored_url {
        Some(u) => u,
        None => tarball_url,
    };
    validate_publish_request(
        PublishRequest {
            name,
            version,
            description: non_blank(description),
            tarball_url: non_blank(tarball),
            github_repo: non_blank(github_repo),
            readme: non_blank(readme),
        },
    )
}

/// Where an upload is stored: its file name and public URL.
pub struct StoredUpload {
    pub file_name: String,
    pub url: String,
}

/// A fresh stored name and URL for a file uploaded for a package version.
pub fn plan_upload(public_base: &str, package: &str, version: &str, original_name: &str) -> (r:
    StoredUpload)
    ensures
        exists|id: Seq<char>|
            id.len() == 32 && crate::registry::accounts::all_hex(id) && r.file_name@
                == #[trigger] stored_upload_name(original_name@, package@, version@, id),
        r.url@ == upload_url(public_base@, r.file_name@),
{
    let id = crate::registry::accounts::new_uuid_simple();
    let file_name = upload_file_name(original_name, package, version, id.as_str());
    let url = upload_url_for(public_base, file_name.as_str());
    StoredUpload { file_name, url }
}

// ---------------------------------------------------------------------------
// Owners and stored rows
// ---------------------------------------------------------------------------

/// A publisher may add a version under a name no account owns, or under one
/// that its own account owns.
pub open spec fn may_publish(owner: Option<i64>, publisher: Option<i64>) -> bool {
    match owner {
        None => true,
        Some(o) => publisher == Some(o),
    }
}

pub open spec fn user_id_of(user: Option<&AuthUser>) -> Option<i64> {
    match user {
        Some(u) => Some(u.id),
        None => None,
    }
}

/// Whether `user` (none for a guest) may publish under a name owned by
/// `existing_owner` (none if no account owns it).
pub fn check_ownership(existing_owner: Option<i64>, user: Option<&AuthUser>) -> (r: Result<(), String>)
    ensures
        match r {
            Ok(_) => may_publish(existing_owner, user_id_of(user)),
            Err(e) => !may_publish(existing_owner, user_id_of(user)) && e@
                == "Package name is already owned by another account"@,
        },
{
    match existing_owner {
        None => Ok(()),
        Some(owner) => match user {
            Some(u) => if u.id == owner {
                Ok(())
            } else {
                Err(String::from_str("Package name is already owned by another account"))
            },
            None => Err(String::from_str("Package name is already owned by another account")),
        },
    }
}

/// Once an account owns a name, no guest and no other account may publish
/// under it, and the owner always may.
pub proof fn law_only_the_owner_publishes(owner: i64, publisher: Option<i64>)
    ensures
        may_publish(Some(owner), publisher) <==> publisher == Some(owner),
        may_publish(Some(owner), Some(owner)),
        !may_publish(Some(owner), None),
{
}

/// A package version as stored.
pub struct PackageRow {
    pub name: String,
    pub version: String,
    pub description: String,
    pub author: String,
    pub tarball_url: String,
    pub github_repo: String,
    pub readme: String,
    pub user_id: Option<i64>,
}

pub open spec fn or_empty(o: Option<Seq<char>>) -> Seq<char> {
    match o {
        Some(s) => s,
        None => Seq::empty(),
    }
}

/// The author recorded: the given override, else the publishing account,
/// else the npm guest author.
pub open spec fn row_author(user: Option<&AuthUser>, author_override: Option<&str>) -> Seq<char> {
    match author_override {
        Some(a) => a@,
        None => match user {
            Some(u) => u.username@,
            None => npm_ghost_author(),
        },
    }
}

fn take_or_empty(o: Option<String>) -> (s: String)
    ensures
        s@ == or_empty(opt_view(o)),
{
    match o {
        Some(s) => s,
        None => String::new(),
    }
}

/// The row stored for a checked publish request.
pub fn package_row(payload: PublishRequest, user: Option<&AuthUser>, author_override: Option<&str>) -> (r:
    PackageRow)
    ensures
        r.name@ == payload.name@,
        r.version@ == payload.version@,
        r.description@ == or_empty(opt_view(payload.description)),
        r.tarball_url@ == or_empty(opt_view(payload.tarball_url)),
        r.github_repo@ == or_empty(opt_view(payload.github_repo)),
        r.readme@ == or_empty(opt_view(payload.readme)),
        r.author@ == row_author(user, author_override),
        r.user_id == user_id_of(user),
{
    let author = match author_override {
        Some(a) => String::from_str(a),
        None => match user {
            Some(u) => u.username.clone(),
            None => String::from_str("npm_ghost"),
        },
    };
    let user_id = match user {
        Some(u) => Some(u.id),
        None => None,
    };
    PackageRow {
        name: payload.name,
        version: payload.version,
        description: take_or_empty(payload.description),
        author,
        tarball_url: take_or_empty(payload.tarball_url),
        github_repo: take_or_empty(payload.github_repo),
        readme: take_or_empty(payload.readme),
        user_id,
    }
}

} // verus!
