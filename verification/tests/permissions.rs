use skit::permissions::{resolve_role_name, Permissions, PermissionsConfig};

#[test]
fn test_sample_path_matching() {
    let perms = Permissions {
        allowed_samples: vec!["demo/*.yml".to_string(), "custom/special.yml".to_string()],
        ..Default::default()
    };
    assert!(perms.is_sample_allowed("demo/moq_gain.yml"));
    assert!(perms.is_sample_allowed("demo/test.yml"));
    assert!(perms.is_sample_allowed("custom/special.yml"));
    assert!(!perms.is_sample_allowed("production/pipeline.yml"));
    assert!(!perms.is_sample_allowed("custom/other.yml"));
}

#[test]
fn test_node_type_matching() {
    let perms = Permissions {
        allowed_nodes: vec![
            "audio::gain".to_string(),
            "audio::opus::*".to_string(),
            "transport::moq::*".to_string(),
        ],
        ..Default::default()
    };
    assert!(perms.is_node_allowed("audio::gain"));
    assert!(perms.is_node_allowed("audio::opus::encoder"));
    assert!(perms.is_node_allowed("audio::opus::decoder"));
    assert!(perms.is_node_allowed("transport::moq::peer"));
    assert!(!perms.is_node_allowed("audio::mixer"));
    assert!(!perms.is_node_allowed("transport::http::client"));
}

#[test]
fn test_plugin_matching() {
    let perms = Permissions {
        allowed_plugins: vec!["plugin::wasm::gain".to_string(), "plugin::native::audio*".to_string()],
        ..Default::default()
    };
    assert!(perms.is_plugin_allowed("plugin::wasm::gain"));
    assert!(perms.is_plugin_allowed("plugin::native::audio_effect"));
    assert!(!perms.is_plugin_allowed("plugin::native::network"));
}

#[test]
fn test_default_user_allows_plugin_nodes() {
    let user = Permissions::user();
    assert!(user.is_node_allowed("plugin::native::whisper"));
    assert!(user.is_node_allowed("plugin::native::kokoro"));
    assert!(user.is_node_allowed("plugin::wasm::gain_filter_rust"));
}

#[test]
fn test_global_session_limits() {
    let config = PermissionsConfig { max_concurrent_sessions: Some(10), ..Default::default() };
    assert!(config.can_accept_session(0));
    assert!(config.can_accept_session(9));
    assert!(!config.can_accept_session(10));
    assert!(!config.can_accept_session(11));
}

#[test]
fn test_global_oneshot_limits() {
    let config = PermissionsConfig { max_concurrent_oneshots: Some(5), ..Default::default() };
    assert!(config.can_accept_oneshot(0));
    assert!(config.can_accept_oneshot(4));
    assert!(!config.can_accept_oneshot(5));
}

#[test]
fn test_user_role_defaults() {
    let user = Permissions::user();
    assert!(user.create_sessions);
    assert!(user.tune_nodes);
    assert!(!user.load_plugins);
    assert!(!user.delete_plugins);
    assert!(!user.allowed_samples.is_empty());
    assert!(!user.allowed_nodes.is_empty());
    assert!(!user.allowed_plugins.is_empty());
    assert!(!user.access_all_sessions);
}

#[test]
fn test_empty_allowlist_denies_all() {
    let perms = Permissions::default();
    assert!(!perms.is_sample_allowed("demo/test.yml"));
    assert!(!perms.is_node_allowed("audio::gain"));
    assert!(!perms.is_plugin_allowed("plugin::wasm::gain"));
}

#[test]
fn test_wildcard_allows_all() {
    let perms = Permissions {
        allowed_samples: vec!["*".to_string()],
        allowed_nodes: vec!["*".to_string()],
        allowed_plugins: vec!["*".to_string()],
        ..Default::default()
    };
    assert!(perms.is_sample_allowed("demo/test.yml"));
    assert!(perms.is_sample_allowed("any/path/file.yml"));
    assert!(perms.is_node_allowed("audio::gain"));
    assert!(perms.is_node_allowed("anything::else"));
    assert!(perms.is_plugin_allowed("plugin::wasm::gain"));
    assert!(perms.is_plugin_allowed("plugin::native::anything"));
}

#[test]
fn test_session_ownership_filtering() {
    struct MockSession {
        id: String,
        created_by: Option<String>,
    }
    let sessions = [
        MockSession { id: "session1".to_string(), created_by: Some("user_alice".to_string()) },
        MockSession { id: "session2".to_string(), created_by: Some("user_bob".to_string()) },
        MockSession { id: "session3".to_string(), created_by: Some("user_alice".to_string()) },
        MockSession { id: "session4".to_string(), created_by: None },
    ];
    let user_perms = Permissions::user();
    assert!(!user_perms.access_all_sessions);

    let alice_sessions: Vec<_> =
        sessions.iter().filter(|s| user_perms.may_access_session(s.created_by.as_deref(), "user_alice")).collect();
    assert_eq!(alice_sessions.len(), 3);
    assert_eq!(alice_sessions[0].id, "session1");
    assert_eq!(alice_sessions[1].id, "session3");
    assert_eq!(alice_sessions[2].id, "session4");

    let bob_sessions: Vec<_> =
        sessions.iter().filter(|s| user_perms.may_access_session(s.created_by.as_deref(), "user_bob")).collect();
    assert_eq!(bob_sessions.len(), 2);
    assert_eq!(bob_sessions[0].id, "session2");
    assert_eq!(bob_sessions[1].id, "session4");

    let admin_perms = Permissions::admin();
    assert!(admin_perms.access_all_sessions);
    let admin_sessions: Vec<_> =
        sessions.iter().filter(|s| admin_perms.may_access_session(s.created_by.as_deref(), "admin")).collect();
    assert_eq!(admin_sessions.len(), 4);
}

#[test]
fn admin_role_admits_everything() {
    let admin = Permissions::admin();
    assert!(admin.load_plugins && admin.delete_plugins && admin.access_all_sessions);
    assert!(admin.is_sample_allowed("anything/at/all.yml"));
    assert!(admin.is_node_allowed("core::passthrough"));
    assert!(admin.is_plugin_allowed("plugin::native::x"));
}

#[test]
fn role_lookup_falls_back_to_default_role() {
    let config = PermissionsConfig::default();
    assert_eq!(config.default_role, "admin");
    let p = config.get_role("no-such-role");
    assert!(p.load_plugins);
    let u = config.get_role("user");
    assert!(!u.load_plugins);
    let empty = PermissionsConfig { default_role: "missing".to_string(), ..Default::default() };
    let none = empty.get_role("also-missing");
    assert!(!none.create_sessions);
    assert!(none.allowed_nodes.is_empty());
}

#[test]
fn resolve_role_name_prefers_header_then_env_then_default() {
    assert_eq!(resolve_role_name(Some("user"), Some("admin"), "viewer"), "user");
    assert_eq!(resolve_role_name(None, Some("admin"), "viewer"), "admin");
    assert_eq!(resolve_role_name(None, None, "viewer"), "viewer");
}
