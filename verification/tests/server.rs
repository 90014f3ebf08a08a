use skit::server::{
    auth_guard_applies, cors_allowed_origins_are_loopback_only, cors_mode, escape_html_attr,
    marketplace_plugin_matches, normalize_base_path, normalized_base_path_for_html,
    origin_guard_allows, origin_matches_pattern, startup_auth_decision, strip_base_path_prefix, AuthMode, CorsMode,
    RegistryPlugin, StartupDecision,
};

#[test]
fn cors_wildcard_port_matches_localhost_port_only() {
    assert!(origin_matches_pattern("http://localhost:8080", "http://localhost:*"));
    assert!(origin_matches_pattern("https://localhost:12345", "https://localhost:*"));

    assert!(!origin_matches_pattern("http://localhost", "http://localhost:*"));
    assert!(!origin_matches_pattern("http://localhost:abc", "http://localhost:*"));
    assert!(!origin_matches_pattern("http://localhost123:8080", "http://localhost:*"));
    assert!(!origin_matches_pattern("http://127.0.0.1:8080", "http://localhost:*"));
}

#[test]
fn cors_exact_match_only() {
    assert!(origin_matches_pattern("https://example.com", "https://example.com"));
    assert!(!origin_matches_pattern("https://example.com:443", "https://example.com"));
    assert!(!origin_matches_pattern("https://example.com", "https://example.com:*"));
}

#[test]
fn cors_mode_allowlist_and_wildcard_rules() {
    let origins = vec!["http://localhost:*".to_string(), "http://127.0.0.1:*".to_string()];
    assert!(matches!(cors_mode(&origins, true), Ok(CorsMode::Allowlist(ref p)) if p == &origins));
    let star = vec!["*".to_string()];
    assert!(cors_mode(&star, true).is_err());
    assert!(matches!(cors_mode(&star, false), Ok(CorsMode::MirrorRequest)));
    assert!(matches!(cors_mode(&Vec::new(), true), Ok(CorsMode::Restrictive)));
}

#[test]
fn cors_loopback_only_detection() {
    assert!(cors_allowed_origins_are_loopback_only(&vec![
        "http://localhost:*".to_string(),
        "https://127.0.0.1:*".to_string()
    ]));
    assert!(!cors_allowed_origins_are_loopback_only(&vec!["https://example.com".to_string()]));
    assert!(!cors_allowed_origins_are_loopback_only(&Vec::new()));
}

#[test]
fn base_path_normalization() {
    assert_eq!(normalize_base_path(None), None);
    assert_eq!(normalize_base_path(Some("  ")), None);
    assert_eq!(normalize_base_path(Some("/")), Some("/".to_string()));
    assert_eq!(normalize_base_path(Some("/app")), Some("/app".to_string()));
    assert_eq!(normalize_base_path(Some("app/")), Some("/app".to_string()));
    assert_eq!(normalize_base_path(Some(" /app// ")), Some("/app".to_string()));
    assert_eq!(normalized_base_path_for_html(None), "");
    assert_eq!(normalized_base_path_for_html(Some("x")), "/x");
}

#[test]
fn base_path_prefix_is_stripped_on_boundaries_only() {
    assert_eq!(strip_base_path_prefix("/app/api/v1/x", Some("/app")), "/api/v1/x");
    assert_eq!(strip_base_path_prefix("/app", Some("/app/")), "/");
    assert_eq!(strip_base_path_prefix("/apple/x", Some("/app")), "/apple/x");
    assert_eq!(strip_base_path_prefix("/app/x", Some("app")), "/x");
    assert_eq!(strip_base_path_prefix("/x", None), "/x");
}

#[test]
fn guards_apply_to_api_routes() {
    assert!(auth_guard_applies("/app/api/v1/sessions", Some("/app")));
    assert!(!auth_guard_applies("/api/v1/auth/login", None));
    assert!(!auth_guard_applies("/index.html", None));
    let allowed = vec!["http://localhost:*".to_string()];
    assert!(origin_guard_allows("/api/v1/x", None, true, Some("http://localhost:3000"), &allowed));
    assert!(!origin_guard_allows("/api/v1/x", None, true, Some("https://evil.example"), &allowed));
    assert!(origin_guard_allows("/api/v1/x", None, false, Some("https://evil.example"), &allowed));
    assert!(origin_guard_allows("/api/v1/x", None, true, None, &allowed));
}

#[test]
fn html_attribute_escaping() {
    assert_eq!(escape_html_attr("a&b<c>\"d'"), "a&amp;b&lt;c&gt;&quot;d&#39;");
    assert_eq!(escape_html_attr("plain"), "plain");
}

#[test]
fn marketplace_search_matches_id_name_or_description() {
    let p = RegistryPlugin {
        id: "Whisper-STT".to_string(),
        name: Some("Whisper".to_string()),
        description: Some("Speech To Text".to_string()),
    };
    assert!(marketplace_plugin_matches(&p, "whisper-stt"));
    assert!(marketplace_plugin_matches(&p, "speech"));
    assert!(!marketplace_plugin_matches(&p, "kokoro"));
}

#[test]
fn startup_turns_auth_on_for_non_loopback_auto() {
    let d = startup_auth_decision(AuthMode::Auto, false, true, false, false, true, false, "0.0.0.0:4545", "admin")
        .expect("starts");
    assert_eq!(
        d,
        StartupDecision {
            auth_enabled: true,
            warn_auth_without_tls: false,
            warn_role_header_overridden: true,
            warn_insecure_no_auth: false,
        }
    );
    let d = startup_auth_decision(AuthMode::Auto, true, false, true, true, false, false, "127.0.0.1:4545", "admin")
        .expect("starts");
    assert!(!d.auth_enabled && !d.warn_insecure_no_auth);
    let d = startup_auth_decision(AuthMode::Enabled, true, false, true, true, false, false, "127.0.0.1:4545", "admin")
        .expect("starts");
    assert!(d.auth_enabled && d.warn_auth_without_tls && !d.warn_role_header_overridden);
}

#[test]
fn startup_refuses_an_unguarded_public_bind() {
    let err = startup_auth_decision(AuthMode::Disabled, false, false, true, true, false, false, "0.0.0.0:4545", "admin")
        .unwrap_err();
    assert_eq!(
        err,
        "Refusing to start: server.address is '0.0.0.0:4545' (non-loopback) but auth is disabled and permissions.role_header is not set. Without built-in auth or a trusted auth layer, all requests fall back to SK_ROLE/default_role ('admin'). Fix: enable auth (mode=enabled or mode=auto), put StreamKit behind an authenticating reverse proxy and set permissions.role_header, or (unsafe) set permissions.allow_insecure_no_auth = true to override."
    );
    let d = startup_auth_decision(AuthMode::Disabled, false, false, true, true, false, true, "0.0.0.0:4545", "admin")
        .expect("allowed");
    assert!(d.warn_insecure_no_auth && !d.auth_enabled);
    assert!(startup_auth_decision(AuthMode::Disabled, false, false, true, true, true, false, "0.0.0.0:4545", "admin").is_ok());
}

#[test]
fn startup_refuses_tls_without_cert_or_key() {
    let err = startup_auth_decision(AuthMode::Enabled, false, true, false, true, false, false, "0.0.0.0:4545", "admin")
        .unwrap_err();
    assert_eq!(err, "TLS is enabled but cert_path or key_path is not configured");
    assert!(startup_auth_decision(AuthMode::Enabled, false, true, false, false, false, false, "0.0.0.0:4545", "admin").is_ok());
}
