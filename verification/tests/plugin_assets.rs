use skit::plugin_assets::{
    sanitize_filename, validate_filename, AssetContentType, PluginAssetRegistry, PluginAssetError,
    PluginAssetSpec, RegisteredAssetType, MAX_ASSET_SIZE_BYTES,
};

fn test_asset_type(extensions: &[&str]) -> RegisteredAssetType {
    RegisteredAssetType {
        type_id: "test".to_string(),
        plugin_id: "test-plugin".to_string(),
        node_kind: "plugin::native::test".to_string(),
        label: "Test".to_string(),
        extensions: extensions.iter().copied().map(String::from).collect(),
        max_size_bytes: 1024,
        content_type: AssetContentType::Binary,
        icon_hint: None,
        node_param: None,
        system_dir: "samples/test/system".to_string(),
        user_dir: "samples/test/user".to_string(),
    }
}

fn spec(type_id: &str, ext: &str, max: usize, system_dir: Option<&str>) -> PluginAssetSpec {
    PluginAssetSpec {
        type_id: type_id.to_string(),
        label: type_id.to_uppercase(),
        extensions: vec![ext.to_string()],
        max_size_bytes: max,
        content_type: AssetContentType::Binary,
        icon_hint: None,
        node_param: None,
        system_dir: system_dir.map(|s| s.to_string()),
    }
}

#[test]
fn sanitize_keeps_safe_chars() {
    assert_eq!(sanitize_filename("hello_world-1.slint"), "hello_world-1.slint");
}

#[test]
fn sanitize_replaces_dangerous_chars() {
    assert_eq!(sanitize_filename("../../etc/passwd"), ".._.._etc_passwd");
}

#[test]
fn sanitize_replaces_slashes() {
    assert_eq!(sanitize_filename("path/to\\file.txt"), "path_to_file.txt");
}

#[test]
fn sanitize_replaces_spaces_and_special() {
    assert_eq!(sanitize_filename("my file (1).txt"), "my_file__1_.txt");
}

#[test]
fn sanitize_rejects_dot() {
    assert_eq!(sanitize_filename("."), "_invalid_");
}

#[test]
fn sanitize_rejects_dotdot() {
    assert_eq!(sanitize_filename(".."), "_invalid_");
}

#[test]
fn sanitize_handles_empty_string() {
    assert_eq!(sanitize_filename(""), "_invalid_");
}

#[test]
fn sanitize_handles_null_bytes() {
    assert_eq!(sanitize_filename("file\0.txt"), "file_.txt");
}

#[test]
fn sanitize_handles_unicode() {
    assert_eq!(sanitize_filename("café.txt"), "caf_.txt");
}

#[test]
fn sanitize_preserves_hidden_file() {
    assert_eq!(sanitize_filename(".hidden.txt"), ".hidden.txt");
}

#[test]
fn sanitize_output_never_holds_a_separator() {
    for input in ["a/b", "\\\\server\\share", "../..", "x\u{2215}y", "/"] {
        let s = sanitize_filename(input);
        assert!(!s.contains('/') && !s.contains('\\'), "{input} -> {s}");
        assert!(s != "." && s != ".." && !s.is_empty());
    }
}

#[test]
fn validate_accepts_valid_extension() {
    let at = test_asset_type(&["slint", "txt"]);
    assert_eq!(validate_filename("test.slint", &at).unwrap(), "slint");
}

#[test]
fn validate_case_insensitive_extension() {
    let at = test_asset_type(&["slint"]);
    assert_eq!(validate_filename("test.SLINT", &at).unwrap(), "slint");
}

#[test]
fn validate_rejects_dot() {
    let at = test_asset_type(&["txt"]);
    assert!(validate_filename(".", &at).is_err());
}

#[test]
fn validate_rejects_dotdot() {
    let at = test_asset_type(&["txt"]);
    assert!(validate_filename("..", &at).is_err());
}

#[test]
fn validate_rejects_path_traversal() {
    let at = test_asset_type(&["txt"]);
    assert!(validate_filename("../../etc/passwd", &at).is_err());
}

#[test]
fn validate_rejects_slash() {
    let at = test_asset_type(&["txt"]);
    assert!(validate_filename("sub/file.txt", &at).is_err());
}

#[test]
fn validate_rejects_backslash() {
    let at = test_asset_type(&["txt"]);
    assert!(validate_filename("sub\\file.txt", &at).is_err());
}

#[test]
fn validate_rejects_no_extension() {
    let at = test_asset_type(&["txt"]);
    assert!(validate_filename("noextension", &at).is_err());
}

#[test]
fn validate_rejects_wrong_extension() {
    let at = test_asset_type(&["slint"]);
    assert!(validate_filename("test.exe", &at).is_err());
}

#[test]
fn validate_rejects_too_long_filename() {
    let at = test_asset_type(&["txt"]);
    let long_name = format!("{}.txt", "a".repeat(300));
    assert!(validate_filename(&long_name, &at).is_err());
}

#[test]
fn validate_rejects_empty() {
    let at = test_asset_type(&["txt"]);
    assert!(validate_filename("", &at).is_err());
}

#[test]
fn validate_reports_each_refusal() {
    let at = test_asset_type(&["txt", "md"]);
    let msg = |r: Result<String, PluginAssetError>| r.unwrap_err().to_string();
    assert_eq!(msg(validate_filename("", &at)), "Invalid filename: Filename cannot be empty");
    assert_eq!(msg(validate_filename("a..b.txt", &at)), "Invalid filename: Invalid characters in filename");
    assert_eq!(msg(validate_filename("plain", &at)), "Invalid filename: File must have an extension");
    assert_eq!(msg(validate_filename("x.exe", &at)), "Invalid format: Unsupported format: exe. Allowed: txt, md");
    assert_eq!(msg(validate_filename(&"b".repeat(256), &at)), "Invalid filename: Filename too long");
}

#[test]
fn plugin_asset_error_display_messages() {
    assert_eq!(PluginAssetError::IoError("boom".to_string()).to_string(), "IO error: boom");
    assert_eq!(PluginAssetError::InvalidFilename("bad".to_string()).to_string(), "Invalid filename: bad");
    assert_eq!(PluginAssetError::InvalidFormat("nope".to_string()).to_string(), "Invalid format: nope");
    assert_eq!(PluginAssetError::InvalidRequest("missing".to_string()).to_string(), "Invalid request: missing");
    assert_eq!(PluginAssetError::FileTooLarge(42).to_string(), "File too large (max: 42 bytes)");
    assert_eq!(PluginAssetError::FileExists("a.txt".to_string()).to_string(), "File exists: a.txt");
    assert_eq!(PluginAssetError::NotFound("missing".to_string()).to_string(), "Not found: missing");
    assert_eq!(PluginAssetError::Forbidden.to_string(), "Forbidden");
}

#[test]
fn plugin_asset_error_maps_to_expected_status_codes() {
    for (err, expected) in [
        (PluginAssetError::IoError("x".into()), 500u16),
        (PluginAssetError::InvalidFilename("x".into()), 400),
        (PluginAssetError::InvalidFormat("x".into()), 400),
        (PluginAssetError::InvalidRequest("x".into()), 400),
        (PluginAssetError::FileTooLarge(1), 413),
        (PluginAssetError::FileExists("a".into()), 409),
        (PluginAssetError::NotFound("a".into()), 404),
        (PluginAssetError::Forbidden, 403),
    ] {
        assert_eq!(err.response().0, expected);
    }
}

#[test]
fn register_rejects_empty_type_id() {
    let mut registry = PluginAssetRegistry::new();
    registry.register("test", "plugin::native::test", &vec![spec("", "txt", 1024, None)]);
    assert!(registry.all().is_empty());
}

#[test]
fn register_rejects_traversal_type_id() {
    let mut registry = PluginAssetRegistry::new();
    registry.register("test", "plugin::native::test", &vec![spec("../audio", "txt", 1024, None)]);
    assert!(registry.all().is_empty());
}

#[test]
fn register_rejects_absolute_system_dir() {
    let mut registry = PluginAssetRegistry::new();
    registry.register("test", "plugin::native::test", &vec![spec("test", "txt", 1024, Some("/etc/secrets"))]);
    assert!(registry.all().is_empty());
}

#[test]
fn register_rejects_dotdot_system_dir() {
    let mut registry = PluginAssetRegistry::new();
    registry.register("test", "plugin::native::test", &vec![spec("test", "txt", 1024, Some("../../etc"))]);
    assert!(registry.all().is_empty());
}

#[test]
fn register_accepts_valid_spec() {
    let mut registry = PluginAssetRegistry::new();
    let s = PluginAssetSpec {
        type_id: "slint".to_string(),
        label: "Slint Files".to_string(),
        extensions: vec!["slint".to_string()],
        max_size_bytes: 1_048_576,
        content_type: AssetContentType::Text,
        icon_hint: Some("code".to_string()),
        node_param: Some("slint_file".to_string()),
        system_dir: Some("samples/slint/system".to_string()),
    };
    registry.register("slint", "plugin::native::slint", &vec![s]);
    assert_eq!(registry.all().len(), 1);
}

#[test]
fn register_accepts_dotdot_substring_in_dirname() {
    let mut registry = PluginAssetRegistry::new();
    registry.register("test", "plugin::native::test", &vec![spec("test", "txt", 1024, Some("samples/my..assets/system"))]);
    assert_eq!(registry.all().len(), 1);
}

#[test]
fn unregister_removes_all_types_for_plugin() {
    let mut registry = PluginAssetRegistry::new();
    registry.register("myplugin", "plugin::native::myplugin", &vec![spec("alpha", "a", 1024, None), spec("beta", "b", 1024, None)]);
    assert_eq!(registry.all().len(), 2);
    registry.unregister_plugin("myplugin");
    assert!(registry.all().is_empty());
}

#[test]
fn unregister_leaves_other_plugins_intact() {
    let mut registry = PluginAssetRegistry::new();
    registry.register("plugin-a", "plugin::native::a", &vec![spec("a", "a", 1024, None)]);
    registry.register("plugin-b", "plugin::native::b", &vec![spec("b", "b", 1024, None)]);
    assert_eq!(registry.all().len(), 2);
    registry.unregister_plugin("plugin-a");
    let remaining = registry.all();
    assert_eq!(remaining.len(), 1);
    assert_eq!(remaining[0].plugin_id, "plugin-b");
}

#[test]
fn register_skips_collision_from_different_plugin() {
    let mut registry = PluginAssetRegistry::new();
    registry.register("plugin-a", "plugin::native::a", &vec![spec("shared", "txt", 1024, None)]);
    assert_eq!(registry.all().len(), 1);
    assert_eq!(registry.all()[0].plugin_id, "plugin-a");
    registry.register("plugin-b", "plugin::native::b", &vec![spec("shared", "txt", 1024, None)]);
    assert_eq!(registry.all().len(), 1);
    assert_eq!(registry.all()[0].plugin_id, "plugin-a");
}

#[test]
fn register_allows_same_plugin_reregistration() {
    let mut registry = PluginAssetRegistry::new();
    registry.register("plugin-a", "plugin::native::a", &vec![spec("mine", "txt", 1024, None)]);
    registry.register("plugin-a", "plugin::native::a", &vec![spec("mine", "txt", 1024, None)]);
    assert_eq!(registry.all().len(), 1);
}

#[test]
fn register_caps_max_size_bytes() {
    let mut registry = PluginAssetRegistry::new();
    registry.register("test", "plugin::native::test", &vec![spec("big", "bin", 1_000_000_000, None)]);
    let types = registry.all();
    assert_eq!(types.len(), 1);
    assert_eq!(types[0].max_size_bytes, MAX_ASSET_SIZE_BYTES);
}

#[test]
fn permission_patterns_track_register_and_unregister() {
    let mut registry = PluginAssetRegistry::new();
    assert!(registry.registered_permission_patterns().is_empty());
    registry.register("myplugin", "plugin::native::myplugin", &vec![spec("test", "txt", 1024, None)]);
    let patterns = registry.registered_permission_patterns();
    assert_eq!(patterns.len(), 1);
    assert_eq!(patterns[0].0, "samples/test/system/*");
    assert_eq!(patterns[0].1, "samples/test/user/*");
    registry.unregister_plugin("myplugin");
    assert!(registry.registered_permission_patterns().is_empty());
}

#[test]
fn permission_patterns_respect_custom_system_dir() {
    let mut registry = PluginAssetRegistry::new();
    registry.register("myplugin", "plugin::native::myplugin", &vec![spec("custom", "dat", 1024, Some("data/custom/system"))]);
    let patterns = registry.registered_permission_patterns();
    assert_eq!(patterns.len(), 1);
    assert_eq!(patterns[0].0, "data/custom/system/*");
    assert_eq!(patterns[0].1, "data/custom/user/*");
}

#[test]
fn single_component_system_dir_falls_back_to_default_user_dir() {
    let mut registry = PluginAssetRegistry::new();
    registry.register("myplugin", "plugin::native::myplugin", &vec![spec("quirky", "bin", 1024, Some("system"))]);
    let patterns = registry.registered_permission_patterns();
    assert_eq!(patterns.len(), 1);
    assert_eq!(patterns[0].0, "system/*");
    assert_eq!(patterns[0].1, "samples/quirky/user/*");
}

#[test]
fn register_then_unregister_restores_other_plugins_table() {
    let mut registry = PluginAssetRegistry::new();
    registry.register("plugin-a", "plugin::native::a", &vec![spec("a", "a", 1024, None)]);
    let before: Vec<String> = registry.all().iter().map(|t| t.type_id.clone()).collect();
    registry.register("plugin-b", "plugin::native::b", &vec![spec("b", "b", 1024, None), spec("a", "x", 1, None)]);
    registry.unregister_plugin("plugin-b");
    let after: Vec<String> = registry.all().iter().map(|t| t.type_id.clone()).collect();
    assert_eq!(before, after);
    assert_eq!(registry.get("a").expect("kept").extensions, vec!["a".to_string()]);
}

#[test]
fn register_counts_the_types_it_registered() {
    let mut registry = PluginAssetRegistry::new();
    let n = registry.register(
        "plugin-a",
        "plugin::native::a",
        &vec![spec("ok", "txt", 1024, None), spec("bad id", "txt", 1024, None), spec("up", "txt", 1024, Some("../x"))],
    );
    assert_eq!(n, 1);
    let m = registry.register("plugin-b", "plugin::native::b", &vec![spec("ok", "txt", 1024, None), spec("own", "txt", 1, None)]);
    assert_eq!(m, 1);
    assert_eq!(registry.register("plugin-a", "plugin::native::a", &vec![spec("ok", "txt", 1024, None)]), 1);
}

#[test]
fn sanitize_twice_is_sanitize_once() {
    for f in ["my file!.txt", "..", "", "ok-name_1.slint", "a/b\\c", "héllo"] {
        let once = sanitize_filename(f);
        assert_eq!(sanitize_filename(&once), once);
    }
}
