//! Decisions of the web front: which embedded file a path serves and with
//! which headers, the `<base>` tag injected into the single-page app, the
//! origin check of WebSocket upgrades, the multipart boundary of a one-shot
//! request, and the temporary name of a plugin upload.
use vstd::prelude::*;

use crate::paths::{path_extension, path_extension_of};
use crate::server::{cors_origin_matches, escape_html_attr, html_escaped, normalized_base_path, normalized_base_path_for_html, origin_matches_pattern, opt_str, strip_base_path_prefix, stripped_path};
use crate::session_rules::AppError;
use crate::text::{chars_of, extend_chars, extend_str, has_prefix, matches_at, occurs_at, starts_with, str_equal, string_of, trim_start_char};

verus! {

// ---------------------------------------------------------------------------
// Outside calls
// ---------------------------------------------------------------------------

/// The name for what `multer::parse_boundary` gives for a content type:
/// the boundary, or the text of its error.
pub uninterp spec fn multipart_boundary_of(content_type: Seq<char>) -> Result<Seq<char>, Seq<char>>;

/// The boundary of a `multipart/form-data` content type.
///
/// Trusted: calls `multer::parse_boundary`, which parses the content type,
/// requires `multipart/form-data` and returns its `boundary` parameter; the
/// contract names the outcome (the error as its message).
#[verifier::external_body]
fn parse_boundary(content_type: &str) -> (r: Result<String, String>)
    ensures
        match (r, multipart_boundary_of(content_type@)) {
            (Ok(b), Ok(c)) => b@ == c,
            (Err(e), Err(c)) => e@ == c,
            _ => false,
        },
{
    multer::parse_boundary(content_type).map_err(|e| e.to_string())
}

/// The name for the MIME type `mime_guess` gives a path (first guess, or
/// `application/octet-stream`).
pub uninterp spec fn mime_of(path: Seq<char>) -> Seq<char>;

/// The MIME type of a file, by its extension.
///
/// Trusted: calls `mime_guess::from_path(path).first_or_octet_stream()`,
/// which looks the extension (as `Path::extension` reads it) up in the
/// crate's table; a path without an extension gives
/// `application/octet-stream`.
#[verifier::external_body]
fn guess_mime(path: &str) -> (r: String)
    ensures
        r@ == mime_of(path@),
        path_extension_of(path@) is None ==> r@ == "application/octet-stream"@,
{
    mime_guess::from_path(path).first_or_octet_stream().to_string()
}

/// A lower-case hexadecimal digit.
pub open spec fn is_lower_hex_char(c: char) -> bool {
    ('0' <= c && c <= '9') || ('a' <= c && c <= 'f')
}

/// The hyphenated lower-case text of a random (version 4) UUID: 36
/// characters, `-` at 8, 13, 18 and 23, hex digits elsewhere, the version
/// digit `4` at 14 and the variant digit (`8`, `9`, `a` or `b`) at 19.
pub open spec fn is_uuid_v4_text(u: Seq<char>) -> bool {
    &&& u.len() == 36
    &&& forall|i: int| 0 <= i < 36 ==> (#[trigger] u[i] == '-' <==> (i == 8 || i == 13 || i == 18 || i == 23))
    &&& forall|i: int| 0 <= i < 36 && i != 8 && i != 13 && i != 18 && i != 23 ==> is_lower_hex_char(#[trigger] u[i])
    &&& u[14] == '4'
    &&& (u[19] == '8' || u[19] == '9' || u[19] == 'a' || u[19] == 'b')
}

/// A fresh random identifier.
///
/// Trusted: calls `uuid::Uuid::new_v4()` and formats it with `Display`,
/// which writes the hyphenated lower-case form. The digits are random; what
/// holds of every outcome is the shape: 36 characters, hyphens at 8, 13, 18
/// and 23, lower-case hex digits elsewhere, and the version and variant
/// digits that `new_v4` sets in its mask.
#[verifier::external_body]
fn random_uuid() -> (r: String)
    ensures
        is_uuid_v4_text(r@),
{
    uuid::Uuid::new_v4().to_string()
}

// ---------------------------------------------------------------------------
// Multipart requests and uploads
// ---------------------------------------------------------------------------

/// The `Content-Type` header of a request: absent, not text, or its text.
pub enum HeaderText<'a> {
    Missing,
    NotText,
    Text(&'a str),
}

/// The boundary of a one-shot request's multipart body, from its
/// `Content-Type` header.
pub fn extract_multipart_boundary(content_type: HeaderText) -> (r: Result<String, AppError>)
    ensures
        match content_type {
            HeaderText::Missing => r matches Err(AppError::BadRequest(m)) && m@ == "Missing Content-Type header"@,
            HeaderText::NotText => r matches Err(AppError::BadRequest(m)) && m@ == "Invalid Content-Type header"@,
            HeaderText::Text(ct) => match multipart_boundary_of(ct@) {
                Ok(b) => r matches Ok(s) && s@ == b,
                Err(e) => r matches Err(AppError::BadRequest(m)) && m@ == "Invalid multipart boundary: "@ + e,
            },
        },
{
    match content_type {
        HeaderText::Missing => Err(AppError::BadRequest("Missing Content-Type header".to_owned())),
        HeaderText::NotText => Err(AppError::BadRequest("Invalid Content-Type header".to_owned())),
        HeaderText::Text(ct) => match parse_boundary(ct) {
            Ok(b) => Ok(b),
            Err(e) => {
                let mut m = chars_of("Invalid multipart boundary: ");
                extend_str(&mut m, e.as_str());
                Err(AppError::BadRequest(string_of(&m)))
            },
        },
    }
}

/// The name of the temporary file an upload is streamed to: a fresh random
/// name with the upload prefix.
pub fn temp_upload_name() -> (r: String)
    ensures
        exists|u: Seq<char>| is_uuid_v4_text(u) && r@ == "streamkit-plugin-upload-"@ + u,
{
    let u = random_uuid();
    let mut m = chars_of("streamkit-plugin-upload-");
    extend_str(&mut m, u.as_str());
    let r = string_of(&m);
    assert(is_uuid_v4_text(u@) && r@ == "streamkit-plugin-upload-"@ + u@);
    r
}

// ---------------------------------------------------------------------------
// WebSocket upgrades
// ---------------------------------------------------------------------------

/// Whether a WebSocket upgrade passes the origin check: requests without a
/// (text) `Origin` are let through; others need an allowed origin pattern.
pub fn websocket_origin_allowed(origin: Option<&str>, patterns: &Vec<String>) -> (r: bool)
    ensures
        match origin {
            None => r,
            Some(o) => r == exists|i: int| 0 <= i < patterns@.len() && cors_origin_matches(o@, #[trigger] patterns@[i]@),
        },
{
    match origin {
        None => true,
        Some(o) => {
            for i in 0..patterns.len()
                invariant
                    origin == Some(o),
                    forall|j: int| 0 <= j < i ==> !cors_origin_matches(o@, #[trigger] patterns@[j]@),
            {
                if origin_matches_pattern(o, patterns[i].as_str()) {
                    assert(cors_origin_matches(o@, patterns@[i as int]@));
                    return true;
                }
            }
            false
        },
    }
}

// ---------------------------------------------------------------------------
// Embedded files
// ---------------------------------------------------------------------------

/// The embedded file a request path names, after the base path is removed:
/// `None` for the API (404), else the path without leading slashes,
/// `index.html` for the root.
pub open spec fn asset_path(path: Seq<char>, base: Option<Seq<char>>) -> Option<Seq<char>> {
    let s = stripped_path(path, base);
    if has_prefix(s, "/api/"@) {
        None
    } else {
        let p = trim_start_char(s, '/');
        if p.len() == 0 {
            Some("index.html"@)
        } else {
            Some(p)
        }
    }
}

/// The embedded file a request path names, or `None` for an API path.
pub fn static_asset_path(path: &str, base_path: Option<&str>) -> (r: Option<String>)
    ensures
        crate::paths::opt_chars(r) == asset_path(path@, opt_str(base_path)),
{
    let s = strip_base_path_prefix(path, base_path);
    let sv = chars_of(s.as_str());
    let api = chars_of("/api/");
    if starts_with(&sv, &api) {
        return None;
    }
    let p = crate::text::trim_start_matches_char(&sv, '/');
    if p.len() == 0 {
        Some("index.html".to_owned())
    } else {
        Some(string_of(&p))
    }
}

/// What to answer for a path with no embedded file: 404 for a path with an
/// extension (a missing asset), else the app's `index.html` (a client-side
/// route).
pub fn missing_asset_serves_index(path: &str) -> (r: bool)
    ensures
        r == (path_extension_of(path@) is None),
{
    path_extension(path).is_none()
}

/// The headers of an embedded file: its MIME type, and its caching
/// (`index.html` is revalidated, the hashed assets are immutable).
pub fn asset_headers(path: &str) -> (r: (String, &'static str))
    ensures
        r.0@ == mime_of(path@),
        path@ == "index.html"@ ==> r.1@ == "no-cache"@,
        path@ != "index.html"@ ==> r.1@ == "public, max-age=31536000, immutable"@,
{
    let mime = guess_mime(path);
    if str_equal(path, "index.html") {
        (mime, "no-cache")
    } else {
        (mime, "public, max-age=31536000, immutable")
    }
}

/// `s` with every occurrence of `pat` (non-empty) replaced by `rep`, left to
/// right.
pub open spec fn replace_all(s: Seq<char>, pat: Seq<char>, rep: Seq<char>) -> Seq<char>
    decreases s.len(),
{
    if s.len() == 0 || pat.len() == 0 {
        s
    } else if has_prefix(s, pat) {
        rep + replace_all(s.skip(pat.len() as int), pat, rep)
    } else {
        seq![s[0]] + replace_all(s.skip(1), pat, rep)
    }
}

fn replace_text(s: &Vec<char>, pat: &Vec<char>, rep: &Vec<char>) -> (r: Vec<char>)
    requires
        pat@.len() > 0,
    ensures
        r@ == replace_all(s@, pat@, rep@),
{
    let mut out: Vec<char> = Vec::new();
    let mut i: usize = 0;
    assert(s@.skip(0) =~= s@);
    while i < s.len()
        invariant
            i <= s.len(),
            pat@.len() > 0,
            out@ + replace_all(s@.skip(i as int), pat@, rep@) == replace_all(s@, pat@, rep@),
        decreases s.len() - i,
    {
        let ghost rest = s@.skip(i as int);
        let ghost before = out@;
        if matches_at(s, pat, i) {
            assert(has_prefix(rest, pat@)) by {
                assert(rest.subrange(0, pat@.len() as int) =~= s@.subrange(i as int, i + pat@.len()));
            }
            assert(rest.skip(pat@.len() as int) =~= s@.skip(i + pat.len()));
            extend_chars(&mut out, rep);
            assert(out@ + replace_all(s@.skip(i + pat.len()), pat@, rep@) =~= before + (rep@ + replace_all(
                rest.skip(pat@.len() as int),
                pat@,
                rep@,
            )));
            i = i + pat.len();
        } else {
            assert(!has_prefix(rest, pat@)) by {
                if has_prefix(rest, pat@) {
                    assert(rest.subrange(0, pat@.len() as int) =~= s@.subrange(i as int, i + pat@.len()));
                    assert(occurs_at(s@, pat@, i as int));
                }
            }
            assert(rest.skip(1) =~= s@.skip(i + 1));
            out.push(s[i]);
            assert(out@ + replace_all(s@.skip(i + 1), pat@, rep@) =~= before + (seq![rest[0]] + replace_all(
                rest.skip(1),
                pat@,
                rep@,
            )));
            i = i + 1;
        }
    }
    assert(s@.skip(s.len() as int) =~= Seq::<char>::empty());
    assert(out@ =~= replace_all(s@, pat@, rep@));
    out
}

/// The tag injected after `<head>`: the app's base path, escaped for an
/// attribute, with a trailing slash.
pub open spec fn base_tag(base: Option<Seq<char>>) -> Seq<char> {
    "<head>\n    <base href=\""@ + html_escaped(
        match normalized_base_path(base) {
            Some(p) => p,
            None => Seq::empty(),
        },
    ) + "/\">"@
}

/// The app's `index.html` with a `<base>` tag for its base path after each
/// `<head>`, so relative asset URLs resolve from the app's root on any
/// route.
pub fn inject_base_tag(html: &str, base_path: Option<&str>) -> (r: String)
    ensures
        r@ == replace_all(html@, "<head>"@, base_tag(opt_str(base_path))),
{
    let base = normalized_base_path_for_html(base_path);
    let escaped = escape_html_attr(base.as_str());
    let mut tag = chars_of("<head>\n    <base href=\"");
    extend_str(&mut tag, escaped.as_str());
    extend_str(&mut tag, "/\">");
    let h = chars_of(html);
    let pat = chars_of("<head>");
    proof {
        reveal_strlit("<head>");
    }
    let out = replace_text(&h, &pat, &tag);
    string_of(&out)
}

} // verus!
