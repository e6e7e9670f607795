//! The inspection page of an uploaded file: its digest, its content type
//! and a preview, as text or as a hex dump.
use vstd::prelude::*;
use vstd::utf8::{decode_utf8, encode_utf8, valid_utf8};

use sha2::{Digest, Sha256};

use crate::paths::extension;
use crate::registry::files::{content_type, content_type_for_path, is_text_like_file_name, text_like};
use crate::registry::html::{escape_html, html_escaped, replace_all, replace_text};
use crate::text::{chars_of, decimal, hex_fixed, push_decimal, push_hex_fixed, push_str};

verus! {

// ---------------------------------------------------------------------------
// Outside calls
// ---------------------------------------------------------------------------

/// The SHA-256 digest of some bytes.
pub uninterp spec fn sha256_digest(data: Seq<u8>) -> Seq<u8>;

/// `sha2::Sha256::digest`: the SHA-256 digest of `data`, 32 bytes long.
#[verifier::external_body]
fn sha256(data: &[u8]) -> (d: Vec<u8>)
    ensures
        d@ == sha256_digest(data@),
        d@.len() == 32,
{
    Sha256::digest(data).to_vec()
}

/// `std::str::from_utf8`: the bytes as text, when they are valid UTF-8.
#[verifier::external_body]
fn utf8_text(bytes: &[u8]) -> (r: Option<&str>)
    ensures
        match r {
            Some(s) => valid_utf8(bytes@) && encode_utf8(s@) == bytes@,
            None => !valid_utf8(bytes@),
        },
{
    std::str::from_utf8(bytes).ok()
}

// ---------------------------------------------------------------------------
// Hex
// ---------------------------------------------------------------------------

/// Bytes as two lowercase hex digits each, without separators.
pub open spec fn hex_string(b: Seq<u8>) -> Seq<char>
    decreases b.len(),
{
    if b.len() == 0 {
        Seq::empty()
    } else {
        hex_string(b.drop_last()) + hex_fixed(b.last() as nat, 2)
    }
}

/// Bytes as two lowercase hex digits and a space each.
pub open spec fn hex_cells(b: Seq<u8>) -> Seq<char>
    decreases b.len(),
{
    if b.len() == 0 {
        Seq::empty()
    } else {
        hex_cells(b.drop_last()) + hex_fixed(b.last() as nat, 2) + " "@
    }
}

/// A hex dump: lines of up to 16 bytes, each after its offset in eight hex
/// digits and `: `.
pub open spec fn hex_lines(b: Seq<u8>, offset: nat) -> Seq<char>
    decreases b.len(),
{
    if b.len() == 0 {
        Seq::empty()
    } else {
        let n: int = if b.len() < 16 {
            b.len() as int
        } else {
            16
        };
        hex_fixed(offset, 8) + ": "@ + hex_cells(b.take(n)) + "\n"@ + hex_lines(
            b.skip(n),
            offset + 16,
        )
    }
}

fn hex_digest(d: &[u8]) -> (s: String)
    ensures
        s@ == hex_string(d@),
{
    let mut s = String::new();
    let mut i: usize = 0;
    while i < d.len()
        invariant
            i <= d@.len(),
            s@ == hex_string(d@.take(i as int)),
        decreases d.len() - i,
    {
        assert(d@.take(i + 1).drop_last() =~= d@.take(i as int));
        push_hex_fixed(&mut s, d[i] as u64, 2);
        i = i + 1;
    }
    assert(d@.take(d@.len() as int) =~= d@);
    s
}

fn push_hex_cells(out: &mut String, b: &[u8], lo: usize, hi: usize)
    requires
        lo <= hi <= b@.len(),
    ensures
        final(out)@ == old(out)@ + hex_cells(b@.subrange(lo as int, hi as int)),
{
    let ghost start = out@;
    let mut k = lo;
    assert(b@.subrange(lo as int, lo as int) =~= Seq::<u8>::empty());
    while k < hi
        invariant
            lo <= k <= hi,
            hi <= b@.len(),
            out@ == start + hex_cells(b@.subrange(lo as int, k as int)),
        decreases hi - k,
    {
        assert(b@.subrange(lo as int, k + 1).drop_last() =~= b@.subrange(lo as int, k as int));
        push_hex_fixed(out, b[k] as u64, 2);
        push_str(out, " ");
        k = k + 1;
    }
}

/// A hex dump of `b[0..n]`.
fn hex_dump(b: &[u8], n: usize) -> (s: String)
    requires
        n <= b@.len(),
        n <= 4096,
    ensures
        s@ == hex_lines(b@.take(n as int), 0),
{
    let ghost all = b@.take(n as int);
    let mut s = String::new();
    let mut pos: usize = 0;
    assert(all.skip(0) =~= all);
    while pos < n
        invariant
            n <= b@.len(),
            n <= 4096,
            all == b@.take(n as int),
            pos <= n,
            hex_lines(all, 0) == s@ + hex_lines(all.skip(pos as int), pos as nat),
        decreases n - pos,
    {
        let end: usize = if n - pos < 16 {
            n
        } else {
            pos + 16
        };
        let ghost rest = all.skip(pos as int);
        assert(rest.take(end - pos) =~= b@.subrange(pos as int, end as int));
        assert(rest.skip(end - pos) =~= all.skip(end as int));
        let ghost s0 = s@;
        let ghost k: int = if rest.len() < 16 {
            rest.len() as int
        } else {
            16
        };
        assert(k == end - pos);
        assert(hex_lines(rest, pos as nat) == hex_fixed(pos as nat, 8) + ": "@ + hex_cells(
            rest.take(k),
        ) + "\n"@ + hex_lines(rest.skip(k), pos as nat + 16));
        if end < pos + 16 {
            assert(all.skip(end as int) =~= Seq::<u8>::empty());
            assert(hex_lines(rest.skip(k), pos as nat + 16) == hex_lines(
                all.skip(end as int),
                end as nat,
            ));
        }
        push_hex_fixed(&mut s, pos as u64, 8);
        push_str(&mut s, ": ");
        push_hex_cells(&mut s, b, pos, end);
        push_str(&mut s, "\n");
        assert(s0 + (hex_fixed(pos as nat, 8) + ": "@ + hex_cells(rest.take(k)) + "\n"@
            + hex_lines(all.skip(end as int), end as nat)) =~= s@ + hex_lines(
            all.skip(end as int),
            end as nat,
        ));
        pos = end;
    }
    assert(all.skip(n as int) =~= Seq::<u8>::empty());
    s
}

// ---------------------------------------------------------------------------
// Previews
// ---------------------------------------------------------------------------

pub open spec fn max_text_chars() -> nat {
    32000
}

pub open spec fn max_hex_bytes() -> nat {
    2048
}

/// Text shown whole up to 32000 characters, cut and marked beyond.
pub open spec fn text_preview(chars: Seq<char>) -> Seq<char> {
    if chars.len() > max_text_chars() {
        chars.take(max_text_chars() as int) + "\n\n...truncated..."@
    } else {
        chars
    }
}

/// A hex dump of at most the first 2048 bytes, with a note when cut.
pub open spec fn hex_preview(bytes: Seq<u8>) -> Seq<char> {
    let n: nat = if bytes.len() < max_hex_bytes() {
        bytes.len()
    } else {
        max_hex_bytes()
    };
    hex_lines(bytes.take(n as int), 0) + if bytes.len() > n {
        "\n...truncated, showing first "@ + decimal(n) + " bytes...\n"@
    } else {
        Seq::empty()
    }
}

/// The kind of preview and the preview of an uploaded file: text for a
/// text-like name holding valid UTF-8, a hex dump otherwise.
pub open spec fn upload_preview(file_name: Seq<char>, bytes: Seq<u8>) -> (Seq<char>, Seq<char>) {
    if text_like(file_name) && valid_utf8(bytes) {
        ("text preview"@, text_preview(decode_utf8(bytes)))
    } else {
        ("hex preview"@, hex_preview(bytes))
    }
}

pub fn build_upload_preview(file_name: &str, bytes: &[u8]) -> (r: (&'static str, String))
    ensures
        (r.0@, r.1@) == upload_preview(file_name@, bytes@),
{
    if is_text_like_file_name(file_name) {
        if let Some(text) = utf8_text(bytes) {
            proof {
                vstd::utf8::encode_utf8_decode_utf8(text@);
            }
            let v = chars_of(text);
            if v.len() > 32000 {
                let mut preview = crate::text::string_of(v.as_slice(), 0, 32000);
                push_str(&mut preview, "\n\n...truncated...");
                return ("text preview", preview);
            }
            return ("text preview", String::from_str(text));
        }
    }
    let n: usize = if bytes.len() < 2048 {
        bytes.len()
    } else {
        2048
    };
    let mut out = hex_dump(bytes, n);
    if bytes.len() > n {
        push_str(&mut out, "\n...truncated, showing first ");
        push_decimal(&mut out, n as u128);
        push_str(&mut out, " bytes...\n");
    }
    ("hex preview", out)
}

// ---------------------------------------------------------------------------
// The page
// ---------------------------------------------------------------------------

/// The inspection page of the stored file `safe_name` holding `bytes`.
pub open spec fn inspect_page(t: Seq<char>, safe_name: Seq<char>, bytes: Seq<u8>) -> Seq<char> {
    let (kind, preview) = upload_preview(safe_name, bytes);
    let a = replace_all(t, "{{FILE_NAME}}"@, html_escaped(safe_name));
    let b = replace_all(a, "{{FILE_SIZE}}"@, decimal(bytes.len()));
    let c = replace_all(b, "{{SHA256}}"@, hex_string(sha256_digest(bytes)));
    let d = replace_all(c, "{{CONTENT_TYPE}}"@, content_type(extension(safe_name)));
    let e = replace_all(d, "{{RAW_URL}}"@, html_escaped("/uploads/"@ + safe_name));
    let f = replace_all(e, "{{PREVIEW_KIND}}"@, html_escaped(kind));
    replace_all(f, "{{PREVIEW}}"@, html_escaped(preview))
}

pub fn render_upload_inspect_page(template: &str, safe_name: &str, bytes: &[u8]) -> (r: String)
    ensures
        r@ == inspect_page(template@, safe_name@, bytes@),
{
    proof {
        reveal_strlit("{{FILE_NAME}}");
        reveal_strlit("{{FILE_SIZE}}");
        reveal_strlit("{{SHA256}}");
        reveal_strlit("{{CONTENT_TYPE}}");
        reveal_strlit("{{RAW_URL}}");
        reveal_strlit("{{PREVIEW_KIND}}");
        reveal_strlit("{{PREVIEW}}");
    }
    let digest = sha256(bytes);
    let sha = hex_digest(digest.as_slice());
    let (kind, preview) = build_upload_preview(safe_name, bytes);
    let mut size = String::new();
    push_decimal(&mut size, bytes.len() as u128);
    let mut raw = String::from_str("/uploads/");
    push_str(&mut raw, safe_name);
    let a = replace_text(template, "{{FILE_NAME}}", escape_html(safe_name).as_str());
    let b = replace_text(a.as_str(), "{{FILE_SIZE}}", size.as_str());
    let c = replace_text(b.as_str(), "{{SHA256}}", sha.as_str());
    let d = replace_text(c.as_str(), "{{CONTENT_TYPE}}", content_type_for_path(safe_name));
    let e = replace_text(d.as_str(), "{{RAW_URL}}", escape_html(raw.as_str()).as_str());
    let f = replace_text(e.as_str(), "{{PREVIEW_KIND}}", escape_html(kind).as_str());
    replace_text(f.as_str(), "{{PREVIEW}}", escape_html(preview.as_str()).as_str())
}

} // verus!
