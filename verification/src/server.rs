//! Request-level rules of the HTTP server: CORS origin patterns and the
//! CORS mode, the base path under which the server is mounted, which
//! requests the auth and origin guards inspect, HTML attribute escaping and
//! marketplace search filtering.
use vstd::prelude::*;

use crate::marketplace_security::all_digits;
use crate::permissions::texts;
use crate::text::{
    chars_equal, chars_of, contains, contains_seq, ends_with, extend_chars, extend_str, has_prefix,
    has_suffix, is_ascii_digit, occurs_at, is_ascii_digit_char, skip_chars, starts_with, string_of,
    take_chars, trim, trim_chars, trim_end_char, trim_end_matches_char,
};
use crate::unicode::{to_lowercase, unicode_lower_of};

verus! {

/// CORS matching: `*` matches everything, `prefix:*` matches the prefix
/// followed by `:` and a non-empty numeric port, anything else matches
/// exactly.
pub open spec fn cors_origin_matches(origin: Seq<char>, pattern: Seq<char>) -> bool {
    if pattern == "*"@ {
        true
    } else if has_suffix(pattern, ":*"@) {
        let prefix = pattern.take(pattern.len() - 2);
        &&& has_prefix(origin, prefix)
        &&& origin.len() > prefix.len() + 1
        &&& origin[prefix.len() as int] == ':'
        &&& all_digits(origin.skip(prefix.len() + 1int))
    } else {
        origin == pattern
    }
}

fn all_digit_chars(s: &Vec<char>, from: usize) -> (r: bool)
    requires
        from <= s.len(),
    ensures
        r == all_digits(s@.skip(from as int)),
{
    let mut i = from;
    while i < s.len()
        invariant
            from <= i <= s.len(),
            forall|j: int| from <= j < i ==> is_ascii_digit(#[trigger] s@[j]),
        decreases s.len() - i,
    {
        if !is_ascii_digit_char(s[i]) {
            assert(s@.skip(from as int)[i - from] == s@[i as int]);
            return false;
        }
        i = i + 1;
    }
    assert forall|j: int| 0 <= j < s@.skip(from as int).len() implies is_ascii_digit(
        #[trigger] s@.skip(from as int)[j],
    ) by {
        assert(s@.skip(from as int)[j] == s@[from + j]);
    }
    true
}

/// Whether a CORS allowlist pattern admits `origin`.
pub fn origin_matches_pattern(origin: &str, pattern: &str) -> (r: bool)
    ensures
        r == cors_origin_matches(origin@, pattern@),
{
    let o = chars_of(origin);
    let p = chars_of(pattern);
    if chars_equal(&p, &chars_of("*")) {
        return true;
    }
    let port_wild = chars_of(":*");
    if ends_with(&p, &port_wild) {
        proof {
            reveal_strlit(":*");
        }
        let prefix = take_chars(&p, p.len() - 2);
        if !starts_with(&o, &prefix) {
            return false;
        }
        if o.len() <= prefix.len() + 1 || o[prefix.len()] != ':' {
            return false;
        }
        return all_digit_chars(&o, prefix.len() + 1);
    }
    chars_equal(&o, &p)
}

pub open spec fn loopback_origin(pattern: Seq<char>) -> bool {
    ||| cors_origin_matches("http://localhost:80"@, pattern)
    ||| cors_origin_matches("http://127.0.0.1:80"@, pattern)
    ||| cors_origin_matches("https://localhost:443"@, pattern)
    ||| cors_origin_matches("https://127.0.0.1:443"@, pattern)
}

/// Whether a non-empty CORS allowlist only admits loopback origins.
pub fn cors_allowed_origins_are_loopback_only(origins: &Vec<String>) -> (r: bool)
    ensures
        r == (origins@.len() > 0 && forall|i: int|
            0 <= i < origins@.len() ==> loopback_origin(#[trigger] texts(origins@)[i])),
{
    if origins.len() == 0 {
        return false;
    }
    for i in 0..origins.len()
        invariant
            forall|j: int| 0 <= j < i ==> loopback_origin(#[trigger] texts(origins@)[j]),
    {
        let p = origins[i].as_str();
        let ok = origin_matches_pattern("http://localhost:80", p) || origin_matches_pattern(
            "http://127.0.0.1:80",
            p,
        ) || origin_matches_pattern("https://localhost:443", p) || origin_matches_pattern(
            "https://127.0.0.1:443",
            p,
        );
        assert(texts(origins@)[i as int] == p@);
        if !ok {
            return false;
        }
    }
    true
}

// ---------------------------------------------------------------------------
// Start-up
// ---------------------------------------------------------------------------

/// When built-in auth is on.
#[derive(Debug, Clone, Copy, PartialEq, Eq, Structural)]
pub enum AuthMode {
    /// On exactly when the server binds a non-loopback address.
    Auto,
    Enabled,
    Disabled,
}

/// Whether built-in auth is on for a mode and a bind address.
pub open spec fn auth_enabled_for(mode: AuthMode, bind_is_loopback: bool) -> bool {
    match mode {
        AuthMode::Auto => !bind_is_loopback,
        AuthMode::Enabled => true,
        AuthMode::Disabled => false,
    }
}

/// What the server starts with: whether auth is on, and the warnings it
/// logs (auth without TLS; a role header that `auto` auth overrides; a
/// non-loopback bind without auth or role header that the operator allowed).
#[derive(Debug, Clone, Copy, PartialEq, Eq, Structural)]
pub struct StartupDecision {
    pub auth_enabled: bool,
    pub warn_auth_without_tls: bool,
    pub warn_role_header_overridden: bool,
    pub warn_insecure_no_auth: bool,
}

pub open spec fn insecure_start_message(address: Seq<char>, default_role: Seq<char>) -> Seq<char> {
    "Refusing to start: server.address is '"@ + address
        + "' (non-loopback) but auth is disabled and permissions.role_header is not set. Without built-in auth or a trusted auth layer, all requests fall back to SK_ROLE/default_role ('"@
        + default_role
        + "'). Fix: enable auth (mode=enabled or mode=auto), put StreamKit behind an authenticating reverse proxy and set permissions.role_header, or (unsafe) set permissions.allow_insecure_no_auth = true to override."@
}

/// The server's start-up decision for its configuration. A non-loopback
/// bind without auth and without a role header is refused unless the
/// operator allowed it; TLS without a certificate or key path is refused.
pub fn startup_auth_decision(
    mode: AuthMode,
    bind_is_loopback: bool,
    tls_enabled: bool,
    cert_path_empty: bool,
    key_path_empty: bool,
    role_header_set: bool,
    allow_insecure_no_auth: bool,
    address: &str,
    default_role: &str,
) -> (r: Result<StartupDecision, String>)
    ensures
        ({
            let auth = auth_enabled_for(mode, bind_is_loopback);
            let unguarded = !auth && !bind_is_loopback && !role_header_set;
            if unguarded && !allow_insecure_no_auth {
                r matches Err(m) && m@ == insecure_start_message(address@, default_role@)
            } else if tls_enabled && (cert_path_empty || key_path_empty) {
                r matches Err(m) && m@ == "TLS is enabled but cert_path or key_path is not configured"@
            } else {
                r == Ok::<StartupDecision, String>(StartupDecision {
                    auth_enabled: auth,
                    warn_auth_without_tls: auth && !tls_enabled,
                    warn_role_header_overridden: mode == AuthMode::Auto && auth && role_header_set,
                    warn_insecure_no_auth: unguarded,
                })
            }
        }),
{
    let auth = match mode {
        AuthMode::Auto => !bind_is_loopback,
        AuthMode::Enabled => true,
        AuthMode::Disabled => false,
    };
    let unguarded = !auth && !bind_is_loopback && !role_header_set;
    if unguarded && !allow_insecure_no_auth {
        let mut m = chars_of("Refusing to start: server.address is '");
        extend_str(&mut m, address);
        extend_str(
            &mut m,
            "' (non-loopback) but auth is disabled and permissions.role_header is not set. Without built-in auth or a trusted auth layer, all requests fall back to SK_ROLE/default_role ('",
        );
        extend_str(&mut m, default_role);
        extend_str(
            &mut m,
            "'). Fix: enable auth (mode=enabled or mode=auto), put StreamKit behind an authenticating reverse proxy and set permissions.role_header, or (unsafe) set permissions.allow_insecure_no_auth = true to override.",
        );
        return Err(string_of(&m));
    }
    if tls_enabled && (cert_path_empty || key_path_empty) {
        return Err("TLS is enabled but cert_path or key_path is not configured".to_owned());
    }
    let is_auto = match mode {
        AuthMode::Auto => true,
        _ => false,
    };
    Ok(StartupDecision {
        auth_enabled: auth,
        warn_auth_without_tls: auth && !tls_enabled,
        warn_role_header_overridden: is_auto && auth && role_header_set,
        warn_insecure_no_auth: unguarded,
    })
}

/// How the CORS layer answers cross-origin requests.
#[derive(Debug)]
pub enum CorsMode {
    /// Reflect the request's origin (for a `*` allowlist).
    MirrorRequest,
    /// Admit no cross-origin request.
    Restrictive,
    /// Admit the origins that the patterns match.
    Allowlist(Vec<String>),
}

pub open spec fn cors_error_text() -> Seq<char> {
    "CORS allowed_origins='*' is incompatible with auth (cookies require explicit origins). Set allowed_origins to specific origins or disable auth."@
}

/// The CORS mode for an allowlist: `*` is refused together with auth and
/// mirrors the request origin otherwise; an empty allowlist admits nothing.
pub fn cors_mode(allowed_origins: &Vec<String>, auth_enabled: bool) -> (r: Result<CorsMode, String>)
    ensures
        ({
            let has_wildcard = texts(allowed_origins@).contains("*"@);
            if auth_enabled && has_wildcard {
                r matches Err(m) && m@ == cors_error_text()
            } else if has_wildcard {
                r matches Ok(CorsMode::MirrorRequest)
            } else if allowed_origins@.len() == 0 {
                r matches Ok(CorsMode::Restrictive)
            } else {
                r matches Ok(CorsMode::Allowlist(p)) && texts(p@) == texts(allowed_origins@)
            }
        }),
{
    let star = chars_of("*");
    let mut has_wildcard = false;
    for i in 0..allowed_origins.len()
        invariant
            star@ == "*"@,
            has_wildcard == exists|j: int| 0 <= j < i && #[trigger] texts(allowed_origins@)[j] == "*"@,
    {
        let o = chars_of(allowed_origins[i].as_str());
        assert(texts(allowed_origins@)[i as int] == o@);
        if chars_equal(&o, &star) {
            has_wildcard = true;
        }
    }
    if auth_enabled && has_wildcard {
        return Err(
            "CORS allowed_origins='*' is incompatible with auth (cookies require explicit origins). Set allowed_origins to specific origins or disable auth.".to_owned(),
        );
    }
    if has_wildcard {
        return Ok(CorsMode::MirrorRequest);
    }
    if allowed_origins.len() == 0 {
        return Ok(CorsMode::Restrictive);
    }
    let mut patterns: Vec<String> = Vec::new();
    for i in 0..allowed_origins.len()
        invariant
            patterns@.len() == i,
            forall|k: int| 0 <= k < i ==> #[trigger] patterns@[k]@ == allowed_origins@[k]@,
    {
        patterns.push(allowed_origins[i].clone());
    }
    assert(texts(patterns@) =~= texts(allowed_origins@));
    Ok(CorsMode::Allowlist(patterns))
}

// ---------------------------------------------------------------------------
// HTML attributes
// ---------------------------------------------------------------------------

pub open spec fn escape_char(c: char) -> Seq<char> {
    if c == '&' {
        "&amp;"@
    } else if c == '<' {
        "&lt;"@
    } else if c == '>' {
        "&gt;"@
    } else if c == '"' {
        "&quot;"@
    } else if c == '\'' {
        "&#39;"@
    } else {
        seq![c]
    }
}

pub open spec fn html_escaped(s: Seq<char>) -> Seq<char>
    decreases s.len(),
{
    if s.len() == 0 {
        Seq::<char>::empty()
    } else {
        html_escaped(s.drop_last()) + escape_char(s.last())
    }
}

/// Escapes `&`, `<`, `>`, `"` and `'` for an HTML attribute value.
pub fn escape_html_attr(value: &str) -> (r: String)
    ensures
        r@ == html_escaped(value@),
{
    let v = chars_of(value);
    let mut out: Vec<char> = Vec::new();
    for i in 0..v.len()
        invariant
            out@ == html_escaped(v@.take(i as int)),
    {
        assert(v@.take(i + 1).drop_last() =~= v@.take(i as int));
        assert(v@.take(i + 1).last() == v@[i as int]);
        let ch = v[i];
        if ch == '&' {
            extend_str(&mut out, "&amp;");
        } else if ch == '<' {
            extend_str(&mut out, "&lt;");
        } else if ch == '>' {
            extend_str(&mut out, "&gt;");
        } else if ch == '"' {
            extend_str(&mut out, "&quot;");
        } else if ch == '\'' {
            extend_str(&mut out, "&#39;");
        } else {
            out.push(ch);
            assert(out@ =~= html_escaped(v@.take(i as int)) + seq![ch]);
        }
    }
    assert(v@.take(v.len() as int) =~= v@);
    string_of(&out)
}

// ---------------------------------------------------------------------------
// Base path
// ---------------------------------------------------------------------------

/// A configured base path, normalized: trimmed, without trailing slashes,
/// with a leading slash; `None` when blank.
pub open spec fn normalized_base_path(base: Option<Seq<char>>) -> Option<Seq<char>> {
    match base {
        None => None,
        Some(b) => {
            let p = trim(b);
            if p.len() == 0 {
                None
            } else {
                let q = trim_end_char(p, '/');
                if q == "/"@ {
                    None
                } else if has_prefix(q, "/"@) {
                    Some(q)
                } else {
                    Some("/"@ + q)
                }
            }
        },
    }
}

pub open spec fn opt_str(o: Option<&str>) -> Option<Seq<char>> {
    match o {
        Some(s) => Some(s@),
        None => None,
    }
}

/// Normalizes a configured base path.
pub fn normalize_base_path(base_path: Option<&str>) -> (r: Option<String>)
    ensures
        crate::paths::opt_chars(r) == normalized_base_path(opt_str(base_path)),
{
    let b = match base_path {
        None => {
            return None;
        },
        Some(b) => b,
    };
    let v = chars_of(b);
    let p = trim_chars(&v);
    if p.len() == 0 {
        return None;
    }
    let q = trim_end_matches_char(&p, '/');
    let slash = chars_of("/");
    if chars_equal(&q, &slash) {
        return None;
    }
    if starts_with(&q, &slash) {
        Some(string_of(&q))
    } else {
        let mut out = chars_of("/");
        extend_chars(&mut out, &q);
        Some(string_of(&out))
    }
}

/// The base path as injected into the served HTML (empty when unset).
pub fn normalized_base_path_for_html(base_path: Option<&str>) -> (r: String)
    ensures
        r@ == match normalized_base_path(opt_str(base_path)) {
            Some(p) => p,
            None => Seq::<char>::empty(),
        },
{
    match normalize_base_path(base_path) {
        Some(p) => p,
        None => String::new(),
    }
}

/// `rest` as the remainder of a request path after its base path.
pub open spec fn strip_rest(path: Seq<char>, rest: Seq<char>) -> Seq<char> {
    if rest.len() == 0 {
        "/"@
    } else if rest[0] == '/' {
        rest
    } else {
        path
    }
}

/// The request path with the base path removed, when it starts with the
/// base path on a segment boundary; the path itself otherwise.
pub open spec fn stripped_path(path: Seq<char>, base: Option<Seq<char>>) -> Seq<char> {
    match base {
        None => path,
        Some(raw) => {
            let b = trim_end_char(trim(raw), '/');
            if b.len() == 0 || b == "/"@ {
                path
            } else if has_prefix(b, "/"@) {
                if !has_prefix(path, b) {
                    path
                } else {
                    strip_rest(path, path.skip(b.len() as int))
                }
            } else if !has_prefix(path, "/"@) {
                path
            } else if !has_prefix(path.skip(1), b) {
                path
            } else {
                strip_rest(path, path.skip(1).skip(b.len() as int))
            }
        },
    }
}

fn rest_or_path(path: &Vec<char>, rest: &Vec<char>) -> (r: Vec<char>)
    ensures
        r@ == strip_rest(path@, rest@),
{
    if rest.len() == 0 {
        return chars_of("/");
    }
    if rest[0] == '/' {
        return skip_chars(rest, 0);
    }
    skip_chars(path, 0)
}

/// Removes the configured base path from a request path.
pub fn strip_base_path_prefix(path: &str, base_path: Option<&str>) -> (r: String)
    ensures
        r@ == stripped_path(path@, opt_str(base_path)),
{
    let pv = chars_of(path);
    let raw = match base_path {
        None => {
            return path.to_owned();
        },
        Some(b) => b,
    };
    let rv = chars_of(raw);
    let t = trim_chars(&rv);
    let b = trim_end_matches_char(&t, '/');
    let slash = chars_of("/");
    if b.len() == 0 || chars_equal(&b, &slash) {
        return path.to_owned();
    }
    if starts_with(&b, &slash) {
        if !starts_with(&pv, &b) {
            return path.to_owned();
        }
        let rest = skip_chars(&pv, b.len());
        let r = rest_or_path(&pv, &rest);
        return string_of(&r);
    }
    if !starts_with(&pv, &slash) {
        return path.to_owned();
    }
    proof {
        reveal_strlit("/");
    }
    let after = skip_chars(&pv, 1);
    if !starts_with(&after, &b) {
        return path.to_owned();
    }
    let rest = skip_chars(&after, b.len());
    let r = rest_or_path(&pv, &rest);
    string_of(&r)
}

/// Whether the auth guard inspects a request: API routes, except the auth
/// endpoints themselves.
pub fn auth_guard_applies(raw_path: &str, base_path: Option<&str>) -> (r: bool)
    ensures
        ({
            let p = stripped_path(raw_path@, opt_str(base_path));
            r == (has_prefix(p, "/api/"@) && !has_prefix(p, "/api/v1/auth/"@))
        }),
{
    let p = strip_base_path_prefix(raw_path, base_path);
    let pv = chars_of(p.as_str());
    starts_with(&pv, &chars_of("/api/")) && !starts_with(&pv, &chars_of("/api/v1/auth/"))
}

/// Whether the origin guard lets a request through: only mutating API
/// requests that carry an `Origin` outside the allowlist are refused.
pub fn origin_guard_allows(
    raw_path: &str,
    base_path: Option<&str>,
    is_mutating: bool,
    origin: Option<&str>,
    allowed_origins: &Vec<String>,
) -> (r: bool)
    ensures
        ({
            let p = stripped_path(raw_path@, opt_str(base_path));
            r == !(has_prefix(p, "/api/"@) && is_mutating && match origin {
                Some(o) => !(exists|i: int|
                    0 <= i < allowed_origins@.len() && cors_origin_matches(
                        o@,
                        #[trigger] texts(allowed_origins@)[i],
                    )),
                None => false,
            })
        }),
{
    let p = strip_base_path_prefix(raw_path, base_path);
    let pv = chars_of(p.as_str());
    let is_api = starts_with(&pv, &chars_of("/api/"));
    if !(is_api && is_mutating) {
        return true;
    }
    let o = match origin {
        None => {
            return true;
        },
        Some(o) => o,
    };
    for i in 0..allowed_origins.len()
        invariant
            origin == Some(o),
            forall|j: int| 0 <= j < i ==> !cors_origin_matches(o@, #[trigger] texts(allowed_origins@)[j]),
    {
        if origin_matches_pattern(o, allowed_origins[i].as_str()) {
            assert(texts(allowed_origins@)[i as int] == allowed_origins@[i as int]@);
            return true;
        }
    }
    false
}

// ---------------------------------------------------------------------------
// Marketplace search
// ---------------------------------------------------------------------------

/// The fields of a registry plugin that marketplace search reads.
#[derive(Debug)]
pub struct RegistryPlugin {
    pub id: String,
    pub name: Option<String>,
    pub description: Option<String>,
}

/// Whether a plugin matches a (lower-cased) search filter: the filter
/// occurs in its lower-cased id, name or description.
pub open spec fn plugin_matches(p: RegistryPlugin, filter: Seq<char>) -> bool {
    ||| contains_seq(unicode_lower_of(p.id@), filter)
    ||| (p.name is Some && contains_seq(unicode_lower_of(p.name->0@), filter))
    ||| (p.description is Some && contains_seq(unicode_lower_of(p.description->0@), filter))
}

proof fn lemma_contains_seq_trans(a: Seq<char>, b: Seq<char>, c: Seq<char>)
    requires
        contains_seq(a, b),
        contains_seq(b, c),
    ensures
        contains_seq(a, c),
{
    let i = choose|i: int| occurs_at(a, b, i);
    let j = choose|j: int| occurs_at(b, c, j);
    assert(a.subrange(i + j, i + j + c.len()) =~= b.subrange(j, j + c.len()));
    assert(occurs_at(a, c, i + j));
}

/// A plugin matches exactly the filters that occur in its lower-cased id,
/// in its lower-cased name when it has one, or in its lower-cased
/// description when it has one.
pub proof fn law_plugin_matches_its_fields(p: RegistryPlugin, filter: Seq<char>)
    ensures
        contains_seq(unicode_lower_of(p.id@), filter) ==> plugin_matches(p, filter),
        (p.name matches Some(n) && contains_seq(unicode_lower_of(n@), filter)) ==> plugin_matches(p, filter),
        (p.description matches Some(d) && contains_seq(unicode_lower_of(d@), filter)) ==> plugin_matches(
            p,
            filter,
        ),
        plugin_matches(p, filter) ==> (contains_seq(unicode_lower_of(p.id@), filter) || (p.name matches Some(n)
            && contains_seq(unicode_lower_of(n@), filter)) || (p.description matches Some(d) && contains_seq(
            unicode_lower_of(d@),
            filter,
        ))),
{
}

/// Narrowing the search never loses a plugin: a plugin that matches a
/// filter matches every part of it, and the empty filter matches every
/// plugin.
pub proof fn law_plugin_matches_parts_of_filter(p: RegistryPlugin, filter: Seq<char>, part: Seq<char>)
    requires
        plugin_matches(p, filter),
        contains_seq(filter, part),
    ensures
        plugin_matches(p, part),
        plugin_matches(p, Seq::empty()),
{
    if contains_seq(unicode_lower_of(p.id@), filter) {
        lemma_contains_seq_trans(unicode_lower_of(p.id@), filter, part);
    } else if p.name is Some && contains_seq(unicode_lower_of(p.name->0@), filter) {
        lemma_contains_seq_trans(unicode_lower_of(p.name->0@), filter, part);
    } else {
        lemma_contains_seq_trans(unicode_lower_of(p.description->0@), filter, part);
    }
    assert(occurs_at(unicode_lower_of(p.id@), Seq::empty(), 0)) by {
        assert(unicode_lower_of(p.id@).subrange(0, 0) =~= Seq::<char>::empty());
    }
}

fn lower_contains(text: &String, filter: &Vec<char>) -> (r: bool)
    ensures
        r == contains_seq(unicode_lower_of(text@), filter@),
{
    let l = to_lowercase(text.as_str());
    let lv = chars_of(l.as_str());
    contains(&lv, filter)
}

/// Marketplace search: whether `plugin` matches the lower-cased `filter`.
pub fn marketplace_plugin_matches(plugin: &RegistryPlugin, filter: &str) -> (r: bool)
    ensures
        r == plugin_matches(*plugin, filter@),
{
    let f = chars_of(filter);
    if lower_contains(&plugin.id, &f) {
        return true;
    }
    if let Some(name) = &plugin.name {
        if lower_contains(name, &f) {
            return true;
        }
    }
    if let Some(description) = &plugin.description {
        if lower_contains(description, &f) {
            return true;
        }
    }
    false
}

} // verus!
