//! The marketplace URL policy: which URLs the server may fetch plugin
//! registries, manifests and bundles from (scheme, host, resolved addresses,
//! and same-origin with the registry unless allowlisted).
use vstd::prelude::*;

use crate::net::{opt_text, ipv4_from_text, is_never_routable, is_never_routable_ip, is_private_range, is_private_range_ip, join_url, parse_ipv4, parse_url, port_or_known_default, IpAddress, ParsedUrl, UrlModel, url_join_outcome, url_parse_outcome};
use crate::paths::{path_extension, path_extension_of};
use crate::text::{ascii_lower, chars_equal, chars_of, decimal, decimal_chars, ends_with, eq_ignore_ascii_case, eq_ignore_case, extend_chars, extend_str, has_suffix, is_ascii_digit, is_ascii_digit_char, has_prefix, starts_with, string_of, take_chars, to_ascii_lower};

verus! {

/// Whether plain `http` marketplace URLs are accepted.
#[derive(Clone, Copy, Debug, PartialEq, Eq, Structural)]
pub enum MarketplaceSchemePolicy {
    HttpsOnly,
    AllowHttp,
}

/// Whether marketplace hosts may be private, loopback or link-local.
#[derive(Clone, Copy, Debug, PartialEq, Eq, Structural)]
pub enum MarketplaceHostPolicy {
    PublicOnly,
    AllowPrivate,
}

/// The `[plugins.marketplace.security]` settings.
#[derive(Clone, Debug)]
pub struct MarketplaceSecurityConfig {
    pub marketplace_url_allowlist: Vec<String>,
    pub marketplace_require_registry_origin: bool,
    pub marketplace_scheme_policy: MarketplaceSchemePolicy,
    pub marketplace_host_policy: MarketplaceHostPolicy,
    pub marketplace_resolve_hostnames: bool,
}

/// The `[plugins.marketplace]` settings that the URL policy reads.
#[derive(Clone, Debug)]
pub struct MarketplaceConfig {
    pub security: MarketplaceSecurityConfig,
}

/// The `[plugins]` settings that the URL policy reads.
#[derive(Clone, Debug)]
pub struct PluginConfig {
    pub marketplace: MarketplaceConfig,
}

/// A scheme/host/port triple identifying a URL's origin.
#[derive(Clone, Debug)]
pub struct OriginKey {
    pub scheme: String,
    pub host: String,
    pub port: u16,
}

pub struct OriginModel {
    pub scheme: Seq<char>,
    pub host: Seq<char>,
    pub port: u16,
}

impl View for OriginKey {
    type V = OriginModel;

    open spec fn view(&self) -> OriginModel {
        OriginModel { scheme: self.scheme@, host: self.host@, port: self.port }
    }
}

impl PartialEq for OriginKey {
    fn eq(&self, other: &Self) -> (r: bool) {
        self.scheme == other.scheme && self.host == other.host && self.port == other.port
    }
}

impl vstd::std_specs::cmp::PartialEqSpecImpl for OriginKey {
    open spec fn obeys_eq_spec() -> bool {
        true
    }

    open spec fn eq_spec(&self, other: &Self) -> bool {
        self@ == other@
    }
}

/// The marketplace URL policy.
#[derive(Clone, Debug)]
pub struct MarketplaceUrlPolicy {
    pub allowed_origins: Vec<String>,
    pub require_registry_origin: bool,
    pub scheme_policy: MarketplaceSchemePolicy,
    pub host_policy: MarketplaceHostPolicy,
    pub resolve_hostnames: bool,
}

/// Why a marketplace URL was refused.
#[derive(Clone, Debug)]
pub enum MarketplaceUrlError {
    InvalidUrl { label: String, url: String },
    HttpsRequired { label: String },
    UnsupportedScheme { label: String, scheme: String },
    MissingHost { label: String },
    HostNotAllowed { label: String, host: String },
    MissingPort { label: String },
    ResolvedToBlocked { label: String, ip: String },
    UrlMissingHost,
    MissingDefaultPort { scheme: String },
    OriginMismatch { label: String, origin: String, registry_origin: String },
    RedirectLimit { label: String },
    MissingLocation { label: String },
    InvalidRedirect { label: String, location: String },
}

pub enum UrlErrorModel {
    InvalidUrl { label: Seq<char>, url: Seq<char> },
    HttpsRequired { label: Seq<char> },
    UnsupportedScheme { label: Seq<char>, scheme: Seq<char> },
    MissingHost { label: Seq<char> },
    HostNotAllowed { label: Seq<char>, host: Seq<char> },
    MissingPort { label: Seq<char> },
    ResolvedToBlocked { label: Seq<char>, ip: Seq<char> },
    UrlMissingHost,
    MissingDefaultPort { scheme: Seq<char> },
    OriginMismatch { label: Seq<char>, origin: Seq<char>, registry_origin: Seq<char> },
    RedirectLimit { label: Seq<char> },
    MissingLocation { label: Seq<char> },
    InvalidRedirect { label: Seq<char>, location: Seq<char> },
}

impl View for MarketplaceUrlError {
    type V = UrlErrorModel;

    open spec fn view(&self) -> UrlErrorModel {
        match self {
            MarketplaceUrlError::InvalidUrl { label, url } => UrlErrorModel::InvalidUrl {
                label: label@,
                url: url@,
            },
            MarketplaceUrlError::HttpsRequired { label } => UrlErrorModel::HttpsRequired {
                label: label@,
            },
            MarketplaceUrlError::UnsupportedScheme { label, scheme } =>
                UrlErrorModel::UnsupportedScheme { label: label@, scheme: scheme@ },
            MarketplaceUrlError::MissingHost { label } => UrlErrorModel::MissingHost {
                label: label@,
            },
            MarketplaceUrlError::HostNotAllowed { label, host } => UrlErrorModel::HostNotAllowed {
                label: label@,
                host: host@,
            },
            MarketplaceUrlError::MissingPort { label } => UrlErrorModel::MissingPort {
                label: label@,
            },
            MarketplaceUrlError::ResolvedToBlocked { label, ip } =>
                UrlErrorModel::ResolvedToBlocked { label: label@, ip: ip@ },
            MarketplaceUrlError::UrlMissingHost => UrlErrorModel::UrlMissingHost,
            MarketplaceUrlError::MissingDefaultPort { scheme } =>
                UrlErrorModel::MissingDefaultPort { scheme: scheme@ },
            MarketplaceUrlError::OriginMismatch { label, origin, registry_origin } =>
                UrlErrorModel::OriginMismatch {
                    label: label@,
                    origin: origin@,
                    registry_origin: registry_origin@,
                },
            MarketplaceUrlError::RedirectLimit { label } => UrlErrorModel::RedirectLimit {
                label: label@,
            },
            MarketplaceUrlError::MissingLocation { label } => UrlErrorModel::MissingLocation {
                label: label@,
            },
            MarketplaceUrlError::InvalidRedirect { label, location } =>
                UrlErrorModel::InvalidRedirect { label: label@, location: location@ },
        }
    }
}

/// An address that a host name resolved to, with its display text.
#[derive(Clone, Debug)]
pub struct ResolvedAddress {
    pub ip: IpAddress,
    pub text: String,
}

// ---------------------------------------------------------------------------
// Specification
// ---------------------------------------------------------------------------

pub open spec fn error_message(e: UrlErrorModel) -> Seq<char> {
    match e {
        UrlErrorModel::InvalidUrl { label, url } => "Invalid "@ + label + " '"@ + url + "'"@,
        UrlErrorModel::HttpsRequired { label } => label + " must use https"@,
        UrlErrorModel::UnsupportedScheme { label, scheme } => label
            + " has unsupported scheme '"@ + scheme + "'"@,
        UrlErrorModel::MissingHost { label } => label + " is missing host"@,
        UrlErrorModel::HostNotAllowed { label, host } => label + " host '"@ + host
            + "' is not allowed"@,
        UrlErrorModel::MissingPort { label } => label + " is missing a port"@,
        UrlErrorModel::ResolvedToBlocked { label, ip } => label + " resolved to blocked address "@
            + ip,
        UrlErrorModel::UrlMissingHost => "URL is missing host"@,
        UrlErrorModel::MissingDefaultPort { scheme } => "URL scheme '"@ + scheme
            + "' is missing a default port"@,
        UrlErrorModel::OriginMismatch { label, origin, registry_origin } => label + " origin "@
            + origin + " does not match registry origin "@ + registry_origin,
        UrlErrorModel::RedirectLimit { label } => label + " exceeded redirect limit (5)"@,
        UrlErrorModel::MissingLocation { label } => label + " redirect missing Location header"@,
        UrlErrorModel::InvalidRedirect { label, location } => "Invalid redirect URL '"@ + location
            + "' for "@ + label,
    }
}

pub open spec fn blocked_ip(ip: IpAddress, policy: MarketplaceHostPolicy) -> bool {
    (policy == MarketplaceHostPolicy::PublicOnly && is_private_range(ip)) || is_never_routable(ip)
}

pub open spec fn scheme_refusal(
    label: Seq<char>,
    scheme: Seq<char>,
    policy: MarketplaceSchemePolicy,
) -> Option<UrlErrorModel> {
    if scheme == "https"@ {
        None
    } else if scheme == "http"@ {
        if policy == MarketplaceSchemePolicy::AllowHttp {
            None
        } else {
            Some(UrlErrorModel::HttpsRequired { label })
        }
    } else {
        Some(UrlErrorModel::UnsupportedScheme { label, scheme })
    }
}

/// Host names that only resolve locally: `localhost`, `*.localhost`, `*.local`.
pub open spec fn is_local_name(host_lower: Seq<char>) -> bool {
    ||| host_lower == "localhost"@
    ||| has_suffix(host_lower, ".localhost"@)
    ||| (match path_extension_of(host_lower) {
        Some(ext) => eq_ignore_ascii_case(ext, "local"@),
        None => false,
    })
}

pub open spec fn host_refusal(
    label: Seq<char>,
    host: Option<Seq<char>>,
    policy: MarketplaceHostPolicy,
) -> Option<UrlErrorModel> {
    match host {
        None => Some(UrlErrorModel::MissingHost { label }),
        Some(h) => if policy == MarketplaceHostPolicy::PublicOnly && is_local_name(ascii_lower(h)) {
            Some(UrlErrorModel::HostNotAllowed { label, host: h })
        } else if ipv4_from_text(h) is Some && blocked_ip(ipv4_from_text(h)->0, policy) {
            Some(UrlErrorModel::HostNotAllowed { label, host: h })
        } else {
            None
        },
    }
}

/// The first address in `addrs` that the policy blocks.
pub open spec fn first_blocked(
    addrs: Seq<ResolvedAddress>,
    policy: MarketplaceHostPolicy,
) -> Option<ResolvedAddress>
    decreases addrs.len(),
{
    if addrs.len() == 0 {
        None
    } else if blocked_ip(addrs[0].ip, policy) {
        Some(addrs[0])
    } else {
        first_blocked(addrs.drop_first(), policy)
    }
}

/// The DNS check: `lookup` is what the host name resolved to (`None` when
/// the lookup failed, which the policy tolerates).
pub open spec fn resolution_refusal(
    label: Seq<char>,
    u: UrlModel,
    policy: MarketplaceHostPolicy,
    lookup: Option<Seq<ResolvedAddress>>,
) -> Option<UrlErrorModel> {
    match u.host {
        None => Some(UrlErrorModel::MissingHost { label }),
        Some(h) => if ipv4_from_text(h) is Some {
            None
        } else if port_or_known_default(u) is None {
            Some(UrlErrorModel::MissingPort { label })
        } else {
            match lookup {
                None => None,
                Some(addrs) => match first_blocked(addrs, policy) {
                    Some(a) => Some(UrlErrorModel::ResolvedToBlocked { label, ip: a.text@ }),
                    None => None,
                },
            }
        },
    }
}

/// The origin of a URL: scheme, host and effective port.
pub open spec fn origin_of(u: UrlModel) -> Result<OriginModel, UrlErrorModel> {
    match u.host {
        None => Err(UrlErrorModel::UrlMissingHost),
        Some(h) => match port_or_known_default(u) {
            None => Err(UrlErrorModel::MissingDefaultPort { scheme: u.scheme }),
            Some(p) => Ok(OriginModel { scheme: u.scheme, host: h, port: p }),
        },
    }
}

pub open spec fn origin_text(o: OriginModel) -> Seq<char> {
    o.scheme + "://"@ + o.host + ":"@ + decimal(o.port as nat)
}

/// The text that allowlist patterns are matched against: scheme and host,
/// plus the port only when the URL spells one out.
pub open spec fn allowlist_key_text(scheme: Seq<char>, host: Seq<char>, port: Option<u16>) -> Seq<
    char,
> {
    match port {
        Some(p) => scheme + "://"@ + host + ":"@ + decimal(p as nat),
        None => scheme + "://"@ + host,
    }
}

pub open spec fn all_digits(s: Seq<char>) -> bool {
    forall|i: int| 0 <= i < s.len() ==> is_ascii_digit(#[trigger] s[i])
}

/// Allowlist matching: `*` matches everything, `prefix:*` matches the
/// prefix alone or with any numeric port, anything else matches exactly.
pub open spec fn origin_matches(origin: Seq<char>, pattern: Seq<char>) -> bool {
    if pattern == "*"@ {
        true
    } else if has_suffix(pattern, ":*"@) {
        let prefix = pattern.take(pattern.len() - 2);
        ||| origin == prefix
        ||| {
            &&& has_prefix(origin, prefix)
            &&& origin.len() > prefix.len()
            &&& origin[prefix.len() as int] == ':'
            &&& origin.len() > prefix.len() + 1
            &&& all_digits(origin.skip(prefix.len() + 1int))
        }
    } else {
        origin == pattern
    }
}

pub open spec fn texts(v: Seq<String>) -> Seq<Seq<char>> {
    v.map_values(|s: String| s@)
}

pub open spec fn allowlisted(patterns: Seq<Seq<char>>, key: Seq<char>) -> bool {
    exists|i: int| 0 <= i < patterns.len() && origin_matches(key, #[trigger] patterns[i])
}

/// The same-origin rule, applied to a URL that passed the other checks.
pub open spec fn origin_refusal(
    policy: MarketplaceUrlPolicy,
    label: Seq<char>,
    u: UrlModel,
    registry_origin: Option<OriginModel>,
) -> Option<UrlErrorModel> {
    match origin_of(u) {
        Err(e) => Some(e),
        Ok(o) => {
            let key = allowlist_key_text(u.scheme, o.host, u.port);
            if policy.require_registry_origin && !allowlisted(texts(policy.allowed_origins@), key)
                && registry_origin is Some && registry_origin->0 != o {
                Some(
                    UrlErrorModel::OriginMismatch {
                        label,
                        origin: origin_text(o),
                        registry_origin: origin_text(registry_origin->0),
                    },
                )
            } else {
                None
            }
        },
    }
}

/// What validating `url` under `policy` yields, given the outcome of the DNS
/// lookup of its host (consulted only when the policy resolves host names).
pub open spec fn url_verdict(
    policy: MarketplaceUrlPolicy,
    label: Seq<char>,
    url: Seq<char>,
    registry_origin: Option<OriginModel>,
    lookup: Option<Seq<ResolvedAddress>>,
) -> Result<UrlModel, UrlErrorModel> {
    match url_parse_outcome(url) {
        None => Err(UrlErrorModel::InvalidUrl { label, url }),
        Some(u) => verdict_for_parsed(policy, label, u, registry_origin, lookup),
    }
}

pub open spec fn verdict_for_parsed(
    policy: MarketplaceUrlPolicy,
    label: Seq<char>,
    u: UrlModel,
    registry_origin: Option<OriginModel>,
    lookup: Option<Seq<ResolvedAddress>>,
) -> Result<UrlModel, UrlErrorModel> {
    if let Some(e) = scheme_refusal(label, u.scheme, policy.scheme_policy) {
        Err(e)
    } else if let Some(e) = host_refusal(label, u.host, policy.host_policy) {
        Err(e)
    } else if policy.resolve_hostnames && resolution_refusal(label, u, policy.host_policy, lookup)
        is Some {
        Err(resolution_refusal(label, u, policy.host_policy, lookup)->0)
    } else if let Some(e) = origin_refusal(policy, label, u, registry_origin) {
        Err(e)
    } else {
        Ok(u)
    }
}

pub open spec fn result_view(r: Result<ParsedUrl, MarketplaceUrlError>) -> Result<
    UrlModel,
    UrlErrorModel,
> {
    match r {
        Ok(u) => Ok(u@),
        Err(e) => Err(e@),
    }
}

/// The host and port to resolve, when the policy asks for a DNS check.
pub open spec fn lookup_target(policy: MarketplaceUrlPolicy, url: Seq<char>) -> Option<
    (Seq<char>, u16),
> {
    match url_parse_outcome(url) {
        Some(u) => if policy.resolve_hostnames && u.host is Some && ipv4_from_text(u.host->0)
            is None && port_or_known_default(u) is Some {
            Some((u.host->0, port_or_known_default(u)->0))
        } else {
            None
        },
        None => None,
    }
}

// ---------------------------------------------------------------------------
// Implementation
// ---------------------------------------------------------------------------

fn lit(s: &str) -> (r: Vec<char>)
    ensures
        r@ == s@,
{
    chars_of(s)
}

impl MarketplaceUrlError {
    /// The error's message.
    pub fn to_string(&self) -> (r: String)
        ensures
            r@ == error_message(self@),
    {
        let mut m: Vec<char> = Vec::new();
        match self {
            MarketplaceUrlError::InvalidUrl { label, url } => {
                extend_str(&mut m, "Invalid ");
                extend_str(&mut m, label.as_str());
                extend_str(&mut m, " '");
                extend_str(&mut m, url.as_str());
                extend_str(&mut m, "'");
            },
            MarketplaceUrlError::HttpsRequired { label } => {
                extend_str(&mut m, label.as_str());
                extend_str(&mut m, " must use https");
            },
            MarketplaceUrlError::UnsupportedScheme { label, scheme } => {
                extend_str(&mut m, label.as_str());
                extend_str(&mut m, " has unsupported scheme '");
                extend_str(&mut m, scheme.as_str());
                extend_str(&mut m, "'");
            },
            MarketplaceUrlError::MissingHost { label } => {
                extend_str(&mut m, label.as_str());
                extend_str(&mut m, " is missing host");
            },
            MarketplaceUrlError::HostNotAllowed { label, host } => {
                extend_str(&mut m, label.as_str());
                extend_str(&mut m, " host '");
                extend_str(&mut m, host.as_str());
                extend_str(&mut m, "' is not allowed");
            },
            MarketplaceUrlError::MissingPort { label } => {
                extend_str(&mut m, label.as_str());
                extend_str(&mut m, " is missing a port");
            },
            MarketplaceUrlError::ResolvedToBlocked { label, ip } => {
                extend_str(&mut m, label.as_str());
                extend_str(&mut m, " resolved to blocked address ");
                extend_str(&mut m, ip.as_str());
            },
            MarketplaceUrlError::UrlMissingHost => {
                extend_str(&mut m, "URL is missing host");
            },
            MarketplaceUrlError::MissingDefaultPort { scheme } => {
                extend_str(&mut m, "URL scheme '");
                extend_str(&mut m, scheme.as_str());
                extend_str(&mut m, "' is missing a default port");
            },
            MarketplaceUrlError::OriginMismatch { label, origin, registry_origin } => {
                extend_str(&mut m, label.as_str());
                extend_str(&mut m, " origin ");
                extend_str(&mut m, origin.as_str());
                extend_str(&mut m, " does not match registry origin ");
                extend_str(&mut m, registry_origin.as_str());
            },
            MarketplaceUrlError::RedirectLimit { label } => {
                extend_str(&mut m, label.as_str());
                extend_str(&mut m, " exceeded redirect limit (5)");
            },
            MarketplaceUrlError::MissingLocation { label } => {
                extend_str(&mut m, label.as_str());
                extend_str(&mut m, " redirect missing Location header");
            },
            MarketplaceUrlError::InvalidRedirect { label, location } => {
                extend_str(&mut m, "Invalid redirect URL '");
                extend_str(&mut m, location.as_str());
                extend_str(&mut m, "' for ");
                extend_str(&mut m, label.as_str());
            },
        }
        string_of(&m)
    }
}

fn text_eq(a: &str, b: &str) -> (r: bool)
    ensures
        r == (a@ == b@),
{
    let va = chars_of(a);
    let vb = chars_of(b);
    chars_equal(&va, &vb)
}

fn copy_string(s: &String) -> (r: String)
    ensures
        r@ == s@,
{
    s.clone()
}

/// Whether the policy blocks `ip`.
pub fn is_blocked_ip(ip: &IpAddress, host_policy: MarketplaceHostPolicy) -> (r: bool)
    ensures
        r == blocked_ip(*ip, host_policy),
{
    let is_private = is_private_range_ip(ip);
    if host_policy == MarketplaceHostPolicy::PublicOnly && is_private {
        return true;
    }
    is_never_routable_ip(ip)
}

/// Checks the URL's scheme against the scheme policy.
pub fn validate_scheme(label: &str, url: &ParsedUrl, policy: MarketplaceSchemePolicy) -> (r:
    Result<(), MarketplaceUrlError>)
    ensures
        match scheme_refusal(label@, url.scheme@, policy) {
            None => r is Ok,
            Some(e) => r matches Err(x) && x@ == e,
        },
{
    let scheme = url.scheme.as_str();
    if text_eq(scheme, "https") {
        Ok(())
    } else if text_eq(scheme, "http") {
        match policy {
            MarketplaceSchemePolicy::AllowHttp => Ok(()),
            MarketplaceSchemePolicy::HttpsOnly => Err(
                MarketplaceUrlError::HttpsRequired { label: label.to_owned() },
            ),
        }
    } else {
        Err(
            MarketplaceUrlError::UnsupportedScheme {
                label: label.to_owned(),
                scheme: copy_string(&url.scheme),
            },
        )
    }
}

fn is_local_host_name(host_lower: &Vec<char>) -> (r: bool)
    ensures
        r == is_local_name(host_lower@),
{
    let localhost = lit("localhost");
    if chars_equal(host_lower, &localhost) {
        return true;
    }
    let dot_localhost = lit(".localhost");
    if ends_with(host_lower, &dot_localhost) {
        return true;
    }
    let s = string_of(host_lower);
    match path_extension(s.as_str()) {
        Some(ext) => {
            let e = chars_of(ext.as_str());
            let local = lit("local");
            eq_ignore_case(&e, &local)
        },
        None => false,
    }
}

/// Checks the URL's host against the host policy.
pub fn validate_host(label: &str, url: &ParsedUrl, host_policy: MarketplaceHostPolicy) -> (r:
    Result<(), MarketplaceUrlError>)
    ensures
        match host_refusal(label@, opt_text_of(url.host), host_policy) {
            None => r is Ok,
            Some(e) => r matches Err(x) && x@ == e,
        },
{
    let host = match &url.host {
        Some(h) => h,
        None => {
            return Err(MarketplaceUrlError::MissingHost { label: label.to_owned() });
        },
    };
    if host_policy == MarketplaceHostPolicy::PublicOnly {
        let host_chars = chars_of(host.as_str());
        let host_lower = to_ascii_lower(&host_chars);
        if is_local_host_name(&host_lower) {
            return Err(
                MarketplaceUrlError::HostNotAllowed {
                    label: label.to_owned(),
                    host: copy_string(host),
                },
            );
        }
    }
    if let Some(ip) = parse_ipv4(host.as_str()) {
        if is_blocked_ip(&ip, host_policy) {
            return Err(
                MarketplaceUrlError::HostNotAllowed {
                    label: label.to_owned(),
                    host: copy_string(host),
                },
            );
        }
    }
    Ok(())
}

pub open spec fn opt_text_of(o: Option<String>) -> Option<Seq<char>> {
    crate::net::opt_text(o)
}

/// Checks what the URL's host name resolved to. `lookup` is `None` when the
/// lookup failed; like the lookup itself, such failures are tolerated.
pub fn validate_resolved_ips(
    label: &str,
    url: &ParsedUrl,
    host_policy: MarketplaceHostPolicy,
    lookup: Option<&Vec<ResolvedAddress>>,
) -> (r: Result<(), MarketplaceUrlError>)
    ensures
        match resolution_refusal(label@, url@, host_policy, opt_addrs(lookup)) {
            None => r is Ok,
            Some(e) => r matches Err(x) && x@ == e,
        },
{
    let host = match &url.host {
        Some(h) => h,
        None => {
            return Err(MarketplaceUrlError::MissingHost { label: label.to_owned() });
        },
    };
    if parse_ipv4(host.as_str()).is_some() {
        return Ok(());
    }
    if url.port_or_known_default().is_none() {
        return Err(MarketplaceUrlError::MissingPort { label: label.to_owned() });
    }
    let addrs = match lookup {
        Some(a) => a,
        None => {
            return Ok(());
        },
    };
    let mut i: usize = 0;
    assert(addrs@.skip(0) =~= addrs@);
    while i < addrs.len()
        invariant
            i <= addrs@.len(),
            first_blocked(addrs@, host_policy) == first_blocked(addrs@.skip(i as int), host_policy),
            url@.host == Some(host@),
            ipv4_from_text(host@) is None,
            port_or_known_default(url@) is Some,
            opt_addrs(lookup) == Some(addrs@),
        decreases addrs.len() - i,
    {
        assert(addrs@.skip(i as int).drop_first() =~= addrs@.skip(i + 1));
        assert(addrs@.skip(i as int)[0] == addrs@[i as int]);
        if is_blocked_ip(&addrs[i].ip, host_policy) {
            assert(first_blocked(addrs@.skip(i as int), host_policy) == Some(addrs@[i as int]));
            return Err(
                MarketplaceUrlError::ResolvedToBlocked {
                    label: label.to_owned(),
                    ip: copy_string(&addrs[i].text),
                },
            );
        }
        i = i + 1;
    }
    Ok(())
}

pub open spec fn opt_addrs(o: Option<&Vec<ResolvedAddress>>) -> Option<Seq<ResolvedAddress>> {
    match o {
        Some(v) => Some(v@),
        None => None,
    }
}

/// The origin (scheme, host, effective port) of a URL.
pub fn origin_key(url: &ParsedUrl) -> (r: Result<OriginKey, MarketplaceUrlError>)
    ensures
        match origin_of(url@) {
            Ok(o) => r matches Ok(k) && k@ == o,
            Err(e) => r matches Err(x) && x@ == e,
        },
{
    let host = match &url.host {
        Some(h) => h,
        None => {
            return Err(MarketplaceUrlError::UrlMissingHost);
        },
    };
    let port = match url.port_or_known_default() {
        Some(p) => p,
        None => {
            return Err(MarketplaceUrlError::MissingDefaultPort { scheme: copy_string(&url.scheme) });
        },
    };
    Ok(OriginKey { scheme: copy_string(&url.scheme), host: copy_string(host), port })
}

/// Renders an origin as `scheme://host:port`.
pub fn origin_display(origin: &OriginKey) -> (r: String)
    ensures
        r@ == origin_text(origin@),
{
    let mut m: Vec<char> = Vec::new();
    extend_str(&mut m, origin.scheme.as_str());
    extend_str(&mut m, "://");
    extend_str(&mut m, origin.host.as_str());
    extend_str(&mut m, ":");
    let digits = decimal_chars(origin.port as u64);
    extend_chars(&mut m, &digits);
    string_of(&m)
}

/// The text that allowlist patterns are matched against.
pub fn origin_allowlist_key(url: &ParsedUrl) -> (r: Result<String, MarketplaceUrlError>)
    ensures
        match url.host {
            None => r matches Err(x) && x@ == UrlErrorModel::UrlMissingHost,
            Some(h) => r matches Ok(k) && k@ == allowlist_key_text(url.scheme@, h@, url.port),
        },
{
    let host = match &url.host {
        Some(h) => h,
        None => {
            return Err(MarketplaceUrlError::UrlMissingHost);
        },
    };
    let mut m: Vec<char> = Vec::new();
    extend_str(&mut m, url.scheme.as_str());
    extend_str(&mut m, "://");
    extend_str(&mut m, host.as_str());
    if let Some(port) = url.port {
        extend_str(&mut m, ":");
        let digits = decimal_chars(port as u64);
        extend_chars(&mut m, &digits);
    }
    Ok(string_of(&m))
}

fn all_digit_chars(s: &Vec<char>, from: usize) -> (r: bool)
    requires
        from <= s.len(),
    ensures
        r == all_digits(s@.skip(from as int)),
{
    let mut i = from;
    while i < s.len()
        invariant
            from <= i <= s.len(),
            forall|j: int| from <= j < i ==> is_ascii_digit(#[trigger] s@[j]),
        decreases s.len() - i,
    {
        if !is_ascii_digit_char(s[i]) {
            assert(s@.skip(from as int)[i - from] == s@[i as int]);
            return false;
        }
        i = i + 1;
    }
    assert forall|j: int| 0 <= j < s@.skip(from as int).len() implies is_ascii_digit(
        #[trigger] s@.skip(from as int)[j],
    ) by {
        assert(s@.skip(from as int)[j] == s@[from + j]);
    }
    true
}

/// Whether an allowlist pattern admits `origin`.
pub fn origin_matches_pattern(origin: &str, pattern: &str) -> (r: bool)
    ensures
        r == origin_matches(origin@, pattern@),
{
    let o = chars_of(origin);
    let p = chars_of(pattern);
    let star = lit("*");
    if chars_equal(&p, &star) {
        return true;
    }
    let port_wild = lit(":*");
    if ends_with(&p, &port_wild) {
        proof {
            reveal_strlit(":*");
        }
        let prefix = take_chars(&p, p.len() - 2);
        if chars_equal(&o, &prefix) {
            return true;
        }
        if !starts_with(&o, &prefix) {
            return false;
        }
        if o.len() <= prefix.len() || o[prefix.len()] != ':' {
            return false;
        }
        if o.len() <= prefix.len() + 1 {
            return false;
        }
        return all_digit_chars(&o, prefix.len() + 1);
    }
    chars_equal(&o, &p)
}

fn is_allowlisted(patterns: &Vec<String>, key: &str) -> (r: bool)
    ensures
        r == allowlisted(texts(patterns@), key@),
{
    for i in 0..patterns.len()
        invariant
            forall|j: int| 0 <= j < i ==> !origin_matches(key@, #[trigger] texts(patterns@)[j]),
    {
        if origin_matches_pattern(key, patterns[i].as_str()) {
            assert(texts(patterns@)[i as int] == patterns@[i as int]@);
            return true;
        }
    }
    false
}

fn same_origin(a: &OriginKey, b: &OriginKey) -> (r: bool)
    ensures
        r == (a@ == b@),
{
    let r = text_eq(a.scheme.as_str(), b.scheme.as_str()) && text_eq(
        a.host.as_str(),
        b.host.as_str(),
    ) && a.port == b.port;
    r
}

impl MarketplaceUrlPolicy {
    /// The policy that the configuration describes.
    pub fn from_config(config: &PluginConfig) -> (r: Self)
        ensures
            r.allowed_origins@ == config.marketplace.security.marketplace_url_allowlist@,
            r.require_registry_origin
                == config.marketplace.security.marketplace_require_registry_origin,
            r.scheme_policy == config.marketplace.security.marketplace_scheme_policy,
            r.host_policy == config.marketplace.security.marketplace_host_policy,
            r.resolve_hostnames == config.marketplace.security.marketplace_resolve_hostnames,
    {
        let allowed_origins = config.marketplace.security.marketplace_url_allowlist.clone();
        assert(allowed_origins@ =~= config.marketplace.security.marketplace_url_allowlist@);
        Self {
            allowed_origins,
            require_registry_origin: config.marketplace.security.marketplace_require_registry_origin,
            scheme_policy: config.marketplace.security.marketplace_scheme_policy,
            host_policy: config.marketplace.security.marketplace_host_policy,
            resolve_hostnames: config.marketplace.security.marketplace_resolve_hostnames,
        }
    }

    /// The host and port whose DNS answer `validate_url` needs, if any.
    pub fn lookup_target(&self, url: &str) -> (r: Option<(String, u16)>)
        ensures
            match lookup_target(*self, url@) {
                Some((h, p)) => r matches Some((rh, rp)) && rh@ == h && rp == p,
                None => r is None,
            },
    {
        if !self.resolve_hostnames {
            return None;
        }
        let parsed = match parse_url(url) {
            Some(u) => u,
            None => {
                return None;
            },
        };
        let host = match &parsed.host {
            Some(h) => h,
            None => {
                return None;
            },
        };
        if parse_ipv4(host.as_str()).is_some() {
            return None;
        }
        match parsed.port_or_known_default() {
            Some(p) => Some((copy_string(host), p)),
            None => None,
        }
    }

    fn check_origin(&self, label: &str, parsed: &ParsedUrl, registry_origin: Option<&OriginKey>) -> (r:
        Result<(), MarketplaceUrlError>)
        ensures
            match origin_refusal(*self, label@, parsed@, opt_origin_ref(registry_origin)) {
                None => r is Ok,
                Some(e) => r matches Err(x) && x@ == e,
            },
    {
        let origin = origin_key(parsed)?;
        let origin_display_str = origin_display(&origin);
        let allowlist_key = origin_allowlist_key(parsed)?;
        let allowlisted = is_allowlisted(&self.allowed_origins, allowlist_key.as_str());
        if self.require_registry_origin && !allowlisted {
            if let Some(registry_origin) = registry_origin {
                if !same_origin(&origin, registry_origin) {
                    return Err(
                        MarketplaceUrlError::OriginMismatch {
                            label: label.to_owned(),
                            origin: origin_display_str,
                            registry_origin: origin_display(registry_origin),
                        },
                    );
                }
            }
        }
        Ok(())
    }

    /// Validates a marketplace URL against the policy. `lookup` is the DNS
    /// answer for the host named by `lookup_target` (`None` when no lookup
    /// was made or it failed).
    pub fn validate_url(
        &self,
        label: &str,
        url: &str,
        registry_origin: Option<&OriginKey>,
        lookup: Option<&Vec<ResolvedAddress>>,
    ) -> (r: Result<ParsedUrl, MarketplaceUrlError>)
        ensures
            result_view(r) == url_verdict(
                *self,
                label@,
                url@,
                opt_origin_ref(registry_origin),
                opt_addrs(lookup),
            ),
    {
        let parsed = match parse_url(url) {
            Some(u) => u,
            None => {
                return Err(
                    MarketplaceUrlError::InvalidUrl { label: label.to_owned(), url: url.to_owned() },
                );
            },
        };
        validate_scheme(label, &parsed, self.scheme_policy)?;
        validate_host(label, &parsed, self.host_policy)?;
        if self.resolve_hostnames {
            validate_resolved_ips(label, &parsed, self.host_policy, lookup)?;
        }
        self.check_origin(label, &parsed, registry_origin)?;
        Ok(parsed)
    }
}

/// How many redirects a marketplace fetch follows before giving up.
pub const MAX_MARKETPLACE_REDIRECTS: usize = 5;

/// The next URL of a redirect chain, before it is validated again.
pub open spec fn redirect_outcome(
    label: Seq<char>,
    redirect_count: usize,
    current: UrlModel,
    location: Option<Seq<char>>,
) -> Result<UrlModel, UrlErrorModel> {
    if redirect_count >= MAX_MARKETPLACE_REDIRECTS {
        Err(UrlErrorModel::RedirectLimit { label })
    } else {
        match location {
            None => Err(UrlErrorModel::MissingLocation { label }),
            Some(loc) => match url_join_outcome(current.href, loc) {
                None => Err(UrlErrorModel::InvalidRedirect { label, location: loc }),
                Some(next) => Ok(next),
            },
        }
    }
}

pub open spec fn opt_str(o: Option<&str>) -> Option<Seq<char>> {
    match o {
        Some(s) => Some(s@),
        None => None,
    }
}

/// Where the `redirect_count`-th redirect of a fetch leads: refused past the
/// redirect limit, without a `Location`, or when it does not resolve against
/// the current URL. The caller validates the target with `validate_url`.
pub fn redirect_target(
    label: &str,
    redirect_count: usize,
    current: &ParsedUrl,
    location: Option<&str>,
) -> (r: Result<ParsedUrl, MarketplaceUrlError>)
    ensures
        result_view(r) == redirect_outcome(label@, redirect_count, current@, opt_str(location)),
{
    if redirect_count >= MAX_MARKETPLACE_REDIRECTS {
        return Err(MarketplaceUrlError::RedirectLimit { label: label.to_owned() });
    }
    let location = match location {
        Some(l) => l,
        None => {
            return Err(MarketplaceUrlError::MissingLocation { label: label.to_owned() });
        },
    };
    match join_url(current, location) {
        Some(next) => Ok(next),
        None => Err(
            MarketplaceUrlError::InvalidRedirect {
                label: label.to_owned(),
                location: location.to_owned(),
            },
        ),
    }
}

/// Whether a bearer token bound to `token_origin` goes with a request to
/// `current`: only to that same origin.
pub fn bearer_applies(token_origin: Option<&OriginKey>, current: &ParsedUrl) -> (r: Result<
    bool,
    MarketplaceUrlError,
>)
    ensures
        match token_origin {
            None => r == Ok::<bool, MarketplaceUrlError>(false),
            Some(t) => match origin_of(current@) {
                Ok(o) => r == Ok::<bool, MarketplaceUrlError>(o == t@),
                Err(e) => r matches Err(x) && x@ == e,
            },
        },
{
    match token_origin {
        None => Ok(false),
        Some(t) => {
            let o = origin_key(current)?;
            Ok(same_origin(&o, t))
        },
    }
}

pub open spec fn opt_origin_ref(o: Option<&OriginKey>) -> Option<OriginModel> {
    match o {
        Some(k) => Some(k@),
        None => None,
    }
}

// ---------------------------------------------------------------------------
// Redirect chains
// ---------------------------------------------------------------------------

fn copy_url(u: &ParsedUrl) -> (r: ParsedUrl)
    ensures
        r@ == u@,
{
    let host = match &u.host {
        Some(h) => Some(copy_string(h)),
        None => None,
    };
    ParsedUrl { href: copy_string(&u.href), scheme: copy_string(&u.scheme), host, port: u.port }
}

/// What the server does next in a fetch that follows redirects.
pub enum FetchAction {
    /// Send a GET request to `url`, with the bearer token when `bearer`.
    Send { url: ParsedUrl, bearer: bool },
    /// Look the host of `target` up when the policy asks for it
    /// (`lookup_target`), and report the answer with `on_lookup`.
    Resolve { target: String },
    /// The last response is the final one; it came from `url`.
    Done { url: ParsedUrl },
}

/// A fetch in progress: the URL last requested, the redirects followed,
/// the origin the bearer token belongs to, a redirect target waiting for
/// validation, and the number of requests sent.
pub struct RedirectFetch {
    label: String,
    current: ParsedUrl,
    redirects: usize,
    token_origin: Option<OriginKey>,
    pending: Option<String>,
    requests: usize,
}

pub struct FetchView {
    pub label: Seq<char>,
    pub current: UrlModel,
    pub redirects: nat,
    pub token_origin: Option<OriginModel>,
    pub pending: Option<Seq<char>>,
    pub requests: nat,
}

impl View for RedirectFetch {
    type V = FetchView;

    closed spec fn view(&self) -> FetchView {
        FetchView {
            label: self.label@,
            current: self.current@,
            redirects: self.redirects as nat,
            token_origin: match self.token_origin {
                Some(t) => Some(t@),
                None => None,
            },
            pending: opt_text(self.pending),
            requests: self.requests as nat,
        }
    }
}

/// The invariant of a fetch: one request per URL followed, at most
/// `MAX_MARKETPLACE_REDIRECTS` redirects followed, and a target waits for
/// validation only while another redirect may still be followed.
pub open spec fn fetch_valid(f: FetchView) -> bool {
    &&& f.requests == f.redirects + 1
    &&& f.redirects <= MAX_MARKETPLACE_REDIRECTS
    &&& (f.pending is Some ==> f.redirects < MAX_MARKETPLACE_REDIRECTS)
}

/// Whether a request to `url` carries the bearer token bound to
/// `token_origin`, or the error of reading `url`'s origin.
pub open spec fn bearer_outcome(token_origin: Option<OriginModel>, url: UrlModel) -> Result<bool, UrlErrorModel> {
    match token_origin {
        None => Ok(false),
        Some(t) => match origin_of(url) {
            Ok(o) => Ok(o == t),
            Err(e) => Err(e),
        },
    }
}

/// A fetch just started at `start`, whose first request is sent.
pub open spec fn fetch_started(
    r: Result<(RedirectFetch, FetchAction), MarketplaceUrlError>,
    label: Seq<char>,
    start: UrlModel,
    token_origin: Option<OriginModel>,
    bearer: bool,
) -> bool {
    r matches Ok((f, a)) && f.well_formed() && f@ == (FetchView {
        label,
        current: start,
        redirects: 0,
        token_origin,
        pending: None,
        requests: 1,
    }) && send_is(a, start, bearer)
}

pub open spec fn send_is(a: FetchAction, url: UrlModel, bearer: bool) -> bool {
    a matches FetchAction::Send { url: u, bearer: b } && u@ == url && b == bearer
}

impl RedirectFetch {
    pub open spec fn well_formed(&self) -> bool {
        fetch_valid(self@)
    }

    /// Starts a fetch of `start` (already validated), with a bearer token
    /// when `with_token`: the token belongs to `start`'s origin. The first
    /// request goes to `start`.
    pub fn start(label: &str, start: &ParsedUrl, with_token: bool) -> (r: Result<(RedirectFetch, FetchAction), MarketplaceUrlError>)
        ensures
            if with_token {
                match origin_of(start@) {
                    Err(e) => r matches Err(x) && x@ == e,
                    Ok(o) => fetch_started(r, label@, start@, Some(o), true),
                }
            } else {
                fetch_started(r, label@, start@, None, false)
            },
    {
        let token_origin = if with_token {
            match origin_key(start) {
                Ok(o) => Some(o),
                Err(e) => {
                    return Err(e);
                },
            }
        } else {
            None
        };
        let f = RedirectFetch {
            label: label.to_owned(),
            current: copy_url(start),
            redirects: 0,
            token_origin,
            pending: None,
            requests: 1,
        };
        Ok((f, FetchAction::Send { url: copy_url(start), bearer: with_token }))
    }

    /// Whether the fetch has followed as many redirects as it may: a further
    /// redirect is refused.
    pub fn at_redirect_limit(&self) -> (r: bool)
        requires
            self.well_formed(),
        ensures
            r == (self@.redirects == MAX_MARKETPLACE_REDIRECTS),
    {
        self.redirects >= MAX_MARKETPLACE_REDIRECTS
    }

    /// Whether a redirect target waits for the answer of its lookup.
    pub fn awaiting_lookup(&self) -> (r: bool)
        ensures
            r == self@.pending is Some,
    {
        self.pending.is_some()
    }

    /// The response to the last request came: a final one ends the fetch;
    /// a redirect leads to its target, which is looked up and validated
    /// before it is requested, unless the redirect limit is reached, the
    /// `Location` is missing or it does not resolve.
    pub fn on_response(&mut self, is_redirect: bool, location: Option<&str>) -> (r: Result<FetchAction, MarketplaceUrlError>)
        requires
            old(self).well_formed(),
            old(self)@.pending is None,
        ensures
            final(self).well_formed(),
            !is_redirect ==> (r matches Ok(FetchAction::Done { url }) && url@ == old(self)@.current) && final(self)@
                == old(self)@,
            is_redirect ==> match redirect_outcome(old(self)@.label, old(self)@.redirects as usize, old(self)@.current, opt_str(location)) {
                Err(e) => (r matches Err(x) && x@ == e) && final(self)@ == old(self)@,
                Ok(next) => (r matches Ok(FetchAction::Resolve { target }) && target@ == next.href) && final(self)@
                    == (FetchView { pending: Some(next.href), ..old(self)@ }),
            },
    {
        if !is_redirect {
            return Ok(FetchAction::Done { url: copy_url(&self.current) });
        }
        match redirect_target(self.label.as_str(), self.redirects, &self.current, location) {
            Err(e) => Err(e),
            Ok(next) => {
                self.pending = Some(copy_string(&next.href));
                Ok(FetchAction::Resolve { target: next.href })
            },
        }
    }

    /// The answer of the lookup of the waiting redirect target came: the
    /// target is validated, and when it passes it is requested next, with
    /// the bearer token only if it has the token's origin.
    pub fn on_lookup(
        &mut self,
        policy: &MarketplaceUrlPolicy,
        registry_origin: Option<&OriginKey>,
        lookup: Option<&Vec<ResolvedAddress>>,
    ) -> (r: Result<FetchAction, MarketplaceUrlError>)
        requires
            old(self).well_formed(),
            old(self)@.pending is Some,
        ensures
            final(self).well_formed(),
            match url_verdict(*policy, old(self)@.label, old(self)@.pending->0, opt_origin_ref(registry_origin), opt_addrs(lookup)) {
                Err(e) => (r matches Err(x) && x@ == e) && final(self)@ == (FetchView { pending: None, ..old(self)@ }),
                Ok(u) => match bearer_outcome(old(self)@.token_origin, u) {
                    Err(e) => (r matches Err(x) && x@ == e) && final(self)@ == (FetchView { pending: None, ..old(self)@ }),
                    Ok(b) => (r matches Ok(a) && send_is(a, u, b)) && final(self)@ == (FetchView {
                        current: u,
                        redirects: old(self)@.redirects + 1,
                        requests: old(self)@.requests + 1,
                        pending: None,
                        ..old(self)@
                    }),
                },
            },
    {
        let target = match self.pending.take() {
            Some(t) => t,
            // Not reached: the precondition says a target waits.
            None => {
                return Err(MarketplaceUrlError::RedirectLimit { label: copy_string(&self.label) });
            },
        };
        let next = match policy.validate_url(self.label.as_str(), target.as_str(), registry_origin, lookup) {
            Ok(u) => u,
            Err(e) => {
                return Err(e);
            },
        };
        let bearer = match &self.token_origin {
            Some(t) => match bearer_applies(Some(t), &next) {
                Ok(b) => b,
                Err(e) => {
                    return Err(e);
                },
            },
            None => false,
        };
        self.current = copy_url(&next);
        self.redirects = self.redirects + 1;
        self.requests = self.requests + 1;
        Ok(FetchAction::Send { url: next, bearer })
    }
}

/// A fetch never sends more than `MAX_MARKETPLACE_REDIRECTS + 1` requests.
pub proof fn law_fetch_requests_bounded(f: FetchView)
    requires
        fetch_valid(f),
    ensures
        f.requests <= MAX_MARKETPLACE_REDIRECTS + 1,
{
}

} // verus!
