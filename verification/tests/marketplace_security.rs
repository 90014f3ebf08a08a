use skit::marketplace_security::{
    bearer_applies, redirect_target, FetchAction, RedirectFetch, ResolvedAddress, MAX_MARKETPLACE_REDIRECTS, is_blocked_ip, origin_allowlist_key, origin_display, origin_key,
    origin_matches_pattern, validate_host, validate_scheme, MarketplaceHostPolicy,
    MarketplaceSchemePolicy,
};
use skit::net::{IpAddress, ParsedUrl};

/// Parses an absolute URL with the `url` crate, through the redirect
/// resolution of the library (an absolute location replaces the base).
fn url(s: &str) -> ParsedUrl {
    let base = ParsedUrl {
        href: "https://base.example/".to_string(),
        scheme: "https".to_string(),
        host: Some("base.example".to_string()),
        port: None,
    };
    redirect_target("test", 0, &base, Some(s)).expect("test URL parses")
}

#[test]
fn origin_key_requires_host_and_known_port() {
    let err = origin_key(&url("foo:bar")).expect_err("missing host");
    assert!(err.to_string().contains("missing host"));

    let err = origin_key(&url("foo://example.com/")).expect_err("unknown scheme has no default port");
    assert!(err.to_string().contains("missing a default port"));

    let origin = origin_key(&url("https://example.com/x")).expect("origin");
    assert_eq!(origin.port, 443);
}

#[test]
fn origin_display_renders_scheme_host_port() {
    let origin = origin_key(&url("https://example.com:8443/x")).expect("origin");
    assert_eq!(origin_display(&origin), "https://example.com:8443");
}

#[test]
fn origin_allowlist_key_includes_explicit_port_only() {
    assert_eq!(
        origin_allowlist_key(&url("https://example.com:8443/x")).expect("key"),
        "https://example.com:8443"
    );
    assert_eq!(origin_allowlist_key(&url("https://example.com/x")).expect("key"), "https://example.com");
    let err = origin_allowlist_key(&url("foo:bar")).expect_err("missing host");
    assert!(err.to_string().contains("missing host"));
}

#[test]
fn origin_matches_pattern_handles_wildcards_and_ports() {
    let cases = [
        ("https://anything.example", "*", true),
        ("http://127.0.0.1:5000", "http://127.0.0.1:*", true),
        ("http://127.0.0.1", "http://127.0.0.1:*", true),
        ("http://127.0.0.1:", "http://127.0.0.1:*", false),
        ("http://127.0.0.1:abc", "http://127.0.0.1:*", false),
        ("http://other:5000", "http://127.0.0.1:*", false),
        ("https://example.com", "https://example.com", true),
        ("https://example.com", "https://other.com", false),
    ];
    for (origin, pattern, expected) in cases {
        assert_eq!(origin_matches_pattern(origin, pattern), expected, "origin={origin} pattern={pattern}");
    }
}

#[test]
fn validate_scheme_matrix() {
    let https = url("https://example.com/");
    let http = url("http://example.com/");
    let ftp = url("ftp://example.com/");

    assert!(validate_scheme("x", &https, MarketplaceSchemePolicy::HttpsOnly).is_ok());
    assert!(validate_scheme("x", &https, MarketplaceSchemePolicy::AllowHttp).is_ok());
    assert!(validate_scheme("x", &http, MarketplaceSchemePolicy::AllowHttp).is_ok());

    let err = validate_scheme("x", &http, MarketplaceSchemePolicy::HttpsOnly).expect_err("http rejected");
    assert!(err.to_string().contains("must use https"));
    let err = validate_scheme("x", &ftp, MarketplaceSchemePolicy::AllowHttp).expect_err("ftp rejected");
    assert!(err.to_string().contains("unsupported scheme"));
}

#[test]
fn validate_host_public_only_blocks_local_and_private() {
    for host in ["localhost", "plugin.localhost", "printer.local", "10.0.0.1", "192.168.1.1"] {
        let u = url(&format!("https://{host}/x"));
        let err = validate_host("x", &u, MarketplaceHostPolicy::PublicOnly).expect_err("blocked host");
        assert!(err.to_string().contains("not allowed"), "host={host}");
    }
    for host in ["example.com", "8.8.8.8"] {
        let u = url(&format!("https://{host}/x"));
        assert!(validate_host("x", &u, MarketplaceHostPolicy::PublicOnly).is_ok());
    }
}

#[test]
fn validate_host_allow_private_permits_private_but_blocks_unspecified() {
    let private = url("https://10.0.0.1/x");
    assert!(validate_host("x", &private, MarketplaceHostPolicy::AllowPrivate).is_ok());

    let unspecified = url("https://0.0.0.0/x");
    let err = validate_host("x", &unspecified, MarketplaceHostPolicy::AllowPrivate)
        .expect_err("unspecified always blocked");
    assert!(err.to_string().contains("not allowed"));
}

#[test]
fn is_blocked_ip_matrix() {
    let v4 = |a, b, c, d| IpAddress::V4(a, b, c, d);
    let v6 = |s: [u16; 8]| IpAddress::V6(s[0], s[1], s[2], s[3], s[4], s[5], s[6], s[7]);
    let cases = [
        (v4(10, 0, 0, 1), true, false),
        (v4(172, 16, 0, 1), true, false),
        (v4(192, 168, 1, 1), true, false),
        (v4(127, 0, 0, 1), true, false),
        (v4(169, 254, 0, 1), true, false),
        (v4(0, 0, 0, 0), true, true),
        (v4(224, 0, 0, 1), true, true),
        (v4(255, 255, 255, 255), true, true),
        (v6([0, 0, 0, 0, 0, 0, 0, 1]), true, false),
        (v6([0xfd00, 0, 0, 0, 0, 0, 0, 1]), true, false),
        (v6([0xfe80, 0, 0, 0, 0, 0, 0, 1]), true, false),
        (v6([0, 0, 0, 0, 0, 0, 0, 0]), true, true),
        (v6([0xff02, 0, 0, 0, 0, 0, 0, 1]), true, true),
        (v4(8, 8, 8, 8), false, false),
        (v6([0x2001, 0x4860, 0x4860, 0, 0, 0, 0, 0x8888]), false, false),
    ];
    for (ip, public_blocked, private_blocked) in cases {
        assert_eq!(is_blocked_ip(&ip, MarketplaceHostPolicy::PublicOnly), public_blocked, "PublicOnly {ip:?}");
        assert_eq!(is_blocked_ip(&ip, MarketplaceHostPolicy::AllowPrivate), private_blocked, "AllowPrivate {ip:?}");
    }
}

#[test]
fn validated_urls_carry_scheme_host_and_explicit_port() {
    let mut policy = test_policy();
    policy.require_registry_origin = false;
    let u = policy.validate_url("x", "https://Example.COM:8443/a?b=c", None, None).expect("valid");
    assert_eq!(u.scheme, "https");
    assert_eq!(u.host.as_deref(), Some("example.com"));
    assert_eq!(u.port, Some(8443));
    assert_eq!(u.href, "https://example.com:8443/a?b=c");
    let d = policy.validate_url("x", "https://example.com:443/", None, None).expect("valid");
    assert_eq!(d.port, None);
    let err = policy.validate_url("x", "not a url", None, None).expect_err("invalid");
    assert_eq!(err.to_string(), "Invalid x 'not a url'");
}

#[test]
fn bearer_token_is_kept_on_same_origin_only() {
    let registry = origin_key(&url("https://registry.example/index.json")).expect("origin");
    let same = url("https://registry.example/plugins/a.tar.zst");
    let other = url("https://cdn.example/plugins/a.tar.zst");
    assert!(bearer_applies(Some(&registry), &same).expect("origin"));
    assert!(!bearer_applies(Some(&registry), &other).expect("origin"));
    assert!(!bearer_applies(None, &same).expect("origin"));
}

#[test]
fn redirect_target_resolves_relative_locations() {
    let current = url("https://registry.example/a/index.json");
    let next = redirect_target("index", 0, &current, Some("/final")).expect("target");
    assert_eq!(next.href, "https://registry.example/final");
}

#[test]
fn redirect_target_enforces_limit_and_location() {
    let current = url("https://registry.example/index.json");
    let err = redirect_target("index", MAX_MARKETPLACE_REDIRECTS, &current, Some("/x")).expect_err("limit");
    assert_eq!(err.to_string(), "index exceeded redirect limit (5)");
    let err = redirect_target("index", 0, &current, None).expect_err("no location");
    assert_eq!(err.to_string(), "index redirect missing Location header");
}

fn test_policy() -> skit::marketplace_security::MarketplaceUrlPolicy {
    skit::marketplace_security::MarketplaceUrlPolicy {
        allowed_origins: Vec::new(),
        require_registry_origin: true,
        scheme_policy: MarketplaceSchemePolicy::HttpsOnly,
        host_policy: MarketplaceHostPolicy::PublicOnly,
        resolve_hostnames: false,
    }
}

#[test]
fn rejects_insecure_marketplace_urls() {
    let policy = test_policy();
    let registry = policy.validate_url("registry index", "https://example.com/index.json", None, None).expect("index");
    let registry_origin = origin_key(&registry).expect("origin");
    let err = policy
        .validate_url("descriptor url", "http://example.com/descriptor.json", Some(&registry_origin), None)
        .expect_err("expected https rejection");
    assert!(err.to_string().contains("https"));
    let err = policy
        .validate_url("descriptor url", "https://evil.com/descriptor.json", Some(&registry_origin), None)
        .expect_err("expected origin rejection");
    assert!(err.to_string().contains("origin"));
}

#[test]
fn validate_url_accepts_https_under_strict_policy() {
    assert!(test_policy().validate_url("index", "https://example.com/index.json", None, None).is_ok());
}

#[test]
fn validate_url_http_follows_scheme_policy() {
    let err = test_policy()
        .validate_url("index", "http://example.com/index.json", None, None)
        .expect_err("http must be rejected under HttpsOnly");
    assert!(err.to_string().contains("must use https"));
    let mut lenient = test_policy();
    lenient.scheme_policy = MarketplaceSchemePolicy::AllowHttp;
    assert!(lenient.validate_url("index", "http://example.com/index.json", None, None).is_ok());
}

#[test]
fn validate_url_rejects_unknown_scheme() {
    let err = test_policy()
        .validate_url("index", "ftp://example.com/index.json", None, None)
        .expect_err("ftp is unsupported");
    assert!(err.to_string().contains("unsupported scheme"));
}

#[test]
fn validate_url_enforces_registry_origin() {
    let policy = test_policy();
    let registry = policy.validate_url("index", "https://example.com/index.json", None, None).expect("index");
    let registry_origin = origin_key(&registry).expect("origin");
    assert!(policy
        .validate_url("descriptor", "https://example.com/descriptor.json", Some(&registry_origin), None)
        .is_ok());
    let err = policy
        .validate_url("descriptor", "https://other.com/descriptor.json", Some(&registry_origin), None)
        .expect_err("cross-origin must be rejected");
    assert!(err.to_string().contains("does not match registry origin"));
}

#[test]
fn validate_url_allowlist_bypasses_registry_origin() {
    let mut policy = test_policy();
    policy.allowed_origins = vec!["https://cdn.example.net".to_string()];
    let registry_origin = origin_key(&url("https://registry.example.com/index.json")).expect("origin");
    assert!(policy
        .validate_url("bundle", "https://cdn.example.net/plugin.tar.zst", Some(&registry_origin), None)
        .is_ok());
}

#[test]
fn resolved_loopback_answer_is_blocked() {
    let mut policy = test_policy();
    policy.resolve_hostnames = true;
    assert_eq!(policy.lookup_target("https://example.com/x"), Some(("example.com".to_string(), 443)));
    assert_eq!(policy.lookup_target("https://10.0.0.1/x"), None);
    let answer = vec![ResolvedAddress { ip: IpAddress::V4(127, 0, 0, 1), text: "127.0.0.1".to_string() }];
    let err = policy
        .validate_url("index", "https://example.com/x", None, Some(&answer))
        .expect_err("loopback answer is blocked");
    assert!(err.to_string().contains("127.0.0.1"));
    assert!(policy.validate_url("index", "https://example.com/x", None, None).is_ok());
}

/// Runs a fetch against scripted responses: each entry is the `Location`
/// of a redirect, or `None` for a final response. Returns the requests sent
/// (URL and whether they carried the token) and the outcome.
fn run_fetch(start: &str, with_token: bool, redirects: &[Option<&str>]) -> (Vec<(String, bool)>, Result<String, String>) {
    let policy = test_policy();
    let start = policy.validate_url("index", start, None, None).expect("start");
    let mut sent = Vec::new();
    let (mut fetch, mut action) = RedirectFetch::start("index", &start, with_token).expect("start");
    let mut k = 0;
    loop {
        action = match action {
            FetchAction::Send { url, bearer } => {
                sent.push((url.href.clone(), bearer));
                let reply = redirects.get(k).copied().flatten();
                k += 1;
                match fetch.on_response(reply.is_some(), reply) {
                    Ok(FetchAction::Done { url }) => return (sent, Ok(url.href)),
                    Ok(next) => next,
                    Err(e) => return (sent, Err(e.to_string())),
                }
            },
            FetchAction::Resolve { target } => {
                assert!(fetch.awaiting_lookup());
                match fetch.on_lookup(&policy, None, None) {
                    Ok(next) => next,
                    Err(e) => {
                        assert!(!target.is_empty());
                        return (sent, Err(e.to_string()));
                    },
                }
            },
            FetchAction::Done { .. } => panic!("done without a response"),
        };
    }
}

#[test]
fn fetch_follows_a_revalidated_redirect() {
    let (sent, out) = run_fetch("https://example.com/start", false, &[Some("/final"), None]);
    assert_eq!(sent, vec![("https://example.com/start".to_string(), false), ("https://example.com/final".to_string(), false)]);
    assert_eq!(out, Ok("https://example.com/final".to_string()));
}

#[test]
fn fetch_sends_at_most_six_requests() {
    let all = [Some("/loop"); 10];
    let (sent, out) = run_fetch("https://example.com/loop", false, &all);
    assert_eq!(sent.len(), MAX_MARKETPLACE_REDIRECTS + 1);
    assert_eq!(out, Err("index exceeded redirect limit (5)".to_string()));
}

#[test]
fn fetch_validates_redirect_targets_before_requesting_them() {
    let (sent, out) = run_fetch("https://example.com/a", false, &[Some("http://example.com/b"), None]);
    assert_eq!(sent.len(), 1);
    assert!(out.expect_err("http target refused").contains("must use https"));
}

#[test]
fn fetch_drops_the_bearer_token_across_origins() {
    let (sent, out) = run_fetch("https://example.com/a", true, &[Some("/b"), Some("https://cdn.example.net/c"), None]);
    assert_eq!(
        sent,
        vec![
            ("https://example.com/a".to_string(), true),
            ("https://example.com/b".to_string(), true),
            ("https://cdn.example.net/c".to_string(), false),
        ]
    );
    assert_eq!(out, Ok("https://cdn.example.net/c".to_string()));
}
