//! Accounts of the registry: password hashes, session tokens, bearer
//! headers, and what the sign-in and sign-up requests are answered.
use vstd::prelude::*;

use argon2::password_hash::{PasswordHash, PasswordHasher, PasswordVerifier, SaltString};
use argon2::Argon2;
use uuid::Uuid;

use crate::registry::validate::{username_error, utf8_len, validate_username};
use crate::text::{chars_of, contains, is_blank, lower, map_chars, push_str, str_contains, to_lower, trim, trimmed};

verus! {

// ---------------------------------------------------------------------------
// Outside calls
// ---------------------------------------------------------------------------

/// The PHC string that Argon2 (default parameters) makes of a password with
/// a salt.
pub uninterp spec fn argon2_phc(password: Seq<char>, salt: Seq<u8>) -> Seq<char>;

/// Whether a password matches a PHC hash string under Argon2.
pub uninterp spec fn argon2_verifies(password: Seq<char>, hash: Seq<char>) -> bool;

pub open spec fn is_hex_lower(c: char) -> bool {
    ('0' <= c && c <= '9') || ('a' <= c && c <= 'f')
}

pub open spec fn all_hex(s: Seq<char>) -> bool {
    forall|i: int| 0 <= i < s.len() ==> is_hex_lower(#[trigger] s[i])
}

/// `uuid::Uuid::new_v4().simple()`: a fresh random identifier, written as
/// 32 lowercase hex digits.
#[verifier::external_body]
pub(crate) fn new_uuid_simple() -> (s: String)
    ensures
        s@.len() == 32,
        all_hex(s@),
{
    Uuid::new_v4().simple().to_string()
}

/// `uuid::Uuid::new_v4().as_bytes()`: 16 fresh random bytes.
#[verifier::external_body]
fn new_uuid_bytes() -> (b: [u8; 16]) {
    *Uuid::new_v4().as_bytes()
}

/// Why hashing a password failed.
pub enum HashFailure {
    Salt(String),
    Hash(String),
}

/// `SaltString::encode_b64` on `salt`, then `Argon2::default().hash_password`:
/// on success the PHC string of the password with that salt, which the
/// same password verifies against. A 16-byte salt encodes to 22 Base64
/// characters, within the salt limits of both crates, and Argon2 refuses
/// only passwords longer than `u32::MAX` bytes or salts outside 8 to
/// `u32::MAX` bytes, so it succeeds on such a salt with any shorter password.
#[verifier::external_body]
fn argon2_hash(password: &str, salt: &[u8]) -> (r: Result<String, HashFailure>)
    ensures
        r matches Ok(h) ==> h@ == argon2_phc(password@, salt@) && argon2_verifies(password@, h@),
        salt@.len() == 16 && utf8_len(password@) <= u32::MAX ==> r is Ok,
{
    let salt = match SaltString::encode_b64(salt) {
        Ok(s) => s,
        Err(e) => return Err(HashFailure::Salt(e.to_string())),
    };
    match Argon2::default().hash_password(password.as_bytes(), &salt) {
        Ok(hash) => Ok(hash.to_string()),
        Err(e) => Err(HashFailure::Hash(e.to_string())),
    }
}

/// `PasswordHash::new(hash)` then `Argon2::default().verify_password`:
/// whether the password matches the stored hash (never, when the hash does
/// not parse).
#[verifier::external_body]
pub(crate) fn verify_password(password: &str, hash: &str) -> (ok: bool)
    ensures
        ok == argon2_verifies(password@, hash@),
{
    match PasswordHash::new(hash) {
        Ok(parsed) => Argon2::default().verify_password(password.as_bytes(), &parsed).is_ok(),
        Err(_) => false,
    }
}

// ---------------------------------------------------------------------------
// Hashes and tokens
// ---------------------------------------------------------------------------

/// Hashes a password with a fresh random salt; it succeeds on every password
/// of at most `u32::MAX` bytes.
pub fn hash_password(password: &str) -> (r: Result<String, String>)
    ensures
        utf8_len(password@) <= u32::MAX ==> r is Ok,
        match r {
            Ok(h) => argon2_verifies(password@, h@) && exists|salt: Seq<u8>|
                salt.len() == 16 && h@ == #[trigger] argon2_phc(password@, salt),
            Err(e) => crate::text::starts_with(e@, "Salt generation error: "@)
                || crate::text::starts_with(e@, "Password hash error: "@),
        },
{
    let salt = new_uuid_bytes();
    match argon2_hash(password, &salt) {
        Ok(h) => Ok(h),
        Err(HashFailure::Salt(e)) => {
            let mut m = String::from_str("Salt generation error: ");
            let ghost p = m@;
            push_str(&mut m, e.as_str());
            assert(m@.subrange(0, p.len() as int) =~= p);
            Err(m)
        },
        Err(HashFailure::Hash(e)) => {
            let mut m = String::from_str("Password hash error: ");
            let ghost p = m@;
            push_str(&mut m, e.as_str());
            assert(m@.subrange(0, p.len() as int) =~= p);
            Err(m)
        },
    }
}

/// A new session token: two fresh identifiers, 64 lowercase hex digits.
pub fn random_token() -> (t: String)
    ensures
        t@.len() == 64,
        all_hex(t@),
{
    let mut t = new_uuid_simple();
    let second = new_uuid_simple();
    push_str(&mut t, second.as_str());
    t
}

// ---------------------------------------------------------------------------
// Headers and addresses
// ---------------------------------------------------------------------------

/// The index of the first `c` in `s`.
pub open spec fn first_index(s: Seq<char>, c: char) -> Option<int>
    decreases s.len(),
{
    if s.len() == 0 {
        None
    } else if s[0] == c {
        Some(0)
    } else {
        match first_index(s.drop_first(), c) {
            Some(i) => Some(i + 1),
            None => None,
        }
    }
}

/// The index of the last `c` in `s`.
pub open spec fn last_index(s: Seq<char>, c: char) -> Option<int>
    decreases s.len(),
{
    if s.len() == 0 {
        None
    } else if s.last() == c {
        Some(s.len() - 1)
    } else {
        last_index(s.drop_last(), c)
    }
}

pub open spec fn lower_piece(c: char) -> Seq<char> {
    seq![lower(c)]
}

/// The token of an `Authorization: Bearer <token>` header: the scheme is
/// before the first space and matched without regard to ASCII case; the
/// token is the rest, trimmed, and must not be empty.
pub open spec fn bearer_token(header: Option<Seq<char>>) -> Option<Seq<char>> {
    match header {
        None => None,
        Some(h) => match first_index(h, ' ') {
            None => None,
            Some(i) => {
                let scheme = h.subrange(0, i);
                let token = h.subrange(i + 1, h.len() as int);
                if map_chars(scheme, |c: char| lower_piece(c)) == "bearer"@ && trim(token).len()
                    > 0 {
                    Some(trim(token))
                } else {
                    None
                }
            },
        },
    }
}

proof fn lemma_first_index(s: Seq<char>, c: char, i: int)
    requires
        0 <= i <= s.len(),
        forall|j: int| 0 <= j < i ==> s[j] != c,
        i < s.len() ==> s[i] == c,
    ensures
        first_index(s, c) == if i < s.len() {
            Some(i)
        } else {
            None::<int>
        },
    decreases i,
{
    if i > 0 {
        lemma_first_index(s.drop_first(), c, i - 1);
    }
}

proof fn lemma_last_index(s: Seq<char>, c: char, i: int)
    requires
        -1 <= i < s.len(),
        forall|j: int| i < j < s.len() ==> s[j] != c,
        i >= 0 ==> s[i] == c,
    ensures
        last_index(s, c) == if i >= 0 {
            Some(i)
        } else {
            None::<int>
        },
    decreases s.len(),
{
    if s.len() > 0 && i < s.len() - 1 {
        lemma_last_index(s.drop_last(), c, i);
    }
}

fn lowered(v: &[char], lo: usize, hi: usize) -> (s: String)
    requires
        lo <= hi <= v@.len(),
    ensures
        s@ == map_chars(v@.subrange(lo as int, hi as int), |c: char| lower_piece(c)),
{
    let mut s = String::new();
    let mut k = lo;
    assert(v@.subrange(lo as int, lo as int) =~= Seq::<char>::empty());
    while k < hi
        invariant
            lo <= k <= hi,
            hi <= v@.len(),
            s@ == map_chars(v@.subrange(lo as int, k as int), |c: char| lower_piece(c)),
        decreases hi - k,
    {
        assert(v@.subrange(lo as int, k + 1).drop_last() =~= v@.subrange(lo as int, k as int));
        s.push(to_lower(v[k]));
        k = k + 1;
    }
    s
}

pub fn extract_bearer_token(header: Option<&str>) -> (r: Option<String>)
    ensures
        match r {
            Some(t) => bearer_token(crate::registry::html::opt_ref_view(header)) == Some(t@),
            None => bearer_token(crate::registry::html::opt_ref_view(header)) is None,
        },
{
    let h = match header {
        Some(h) => h,
        None => return None,
    };
    let v = chars_of(h);
    let mut i: usize = 0;
    while i < v.len() && v[i] != ' '
        invariant
            v@ == h@,
            i <= v@.len(),
            forall|j: int| 0 <= j < i ==> v@[j] != ' ',
        decreases v.len() - i,
    {
        i = i + 1;
    }
    proof {
        lemma_first_index(h@, ' ', i as int);
    }
    if i == v.len() {
        return None;
    }
    let scheme = lowered(v.as_slice(), 0, i);
    let token = crate::text::string_of(v.as_slice(), i + 1, v.len());
    if crate::text::str_eq(scheme.as_str(), "bearer") && !is_blank(token.as_str()) {
        Some(trimmed(token.as_str()))
    } else {
        None
    }
}

/// The public URL of a registry listening on `addr`: `0.0.0.0` is shown as
/// `127.0.0.1`.
pub open spec fn public_url_for(addr: Seq<char>) -> Seq<char> {
    match last_index(addr, ':') {
        Some(i) => if addr.subrange(0, i) == "0.0.0.0"@ {
            "http://127.0.0.1:"@ + addr.subrange(i + 1, addr.len() as int)
        } else {
            "http://"@ + addr
        },
        None => "http://"@ + addr,
    }
}

pub fn default_public_url_from_addr(addr: &str) -> (r: String)
    ensures
        r@ == public_url_for(addr@),
{
    let v = chars_of(addr);
    let mut e = v.len();
    while e > 0 && v[e - 1] != ':'
        invariant
            v@ == addr@,
            e <= v@.len(),
            forall|j: int| e <= j < v@.len() ==> v@[j] != ':',
        decreases e,
    {
        e = e - 1;
    }
    proof {
        lemma_last_index(addr@, ':', e - 1);
    }
    if e > 0 {
        let host = crate::text::string_of(v.as_slice(), 0, e - 1);
        if crate::text::str_eq(host.as_str(), "0.0.0.0") {
            let mut out = String::from_str("http://127.0.0.1:");
            crate::text::push_range(&mut out, v.as_slice(), e, v.len());
            return out;
        }
    }
    let mut out = String::from_str("http://");
    push_str(&mut out, addr);
    out
}

} // verus!
