use skit::permissions::Permissions;
use skit::plugin_http::{
    bundle_dirs, check_declared_kind, check_gate, check_loaded_kind, choose_version, count_upload_chunk,
    find_registry_plugin, is_record_file, marketplace_plugin_id, marketplace_registry, placeholder_kind,
    record_matches_kind, signature_url_for, UploadForm, UPLOADS_DENIED, UPLOADS_DISABLED,
};
use skit::plugin_records::{ActivePluginRecord, PluginKind};
use skit::session_rules::PluginHttpError;

fn msg(e: PluginHttpError) -> (u16, String) {
    e.response()
}

fn record(id: &str, version: &str) -> ActivePluginRecord {
    ActivePluginRecord {
        plugin_id: id.to_string(),
        version: version.to_string(),
        node_kind: "whisper".to_string(),
        kind: PluginKind::Native,
        entrypoint: "/p/bundles/whisper/1.0.0/libwhisper.so".to_string(),
        installed_at_ms: 1,
        accelerator: "cpu".to_string(),
    }
}

#[test]
fn gates_check_configuration_then_permission() {
    assert_eq!(msg(check_gate(false, UPLOADS_DISABLED, true, UPLOADS_DENIED).unwrap_err()), (403, UPLOADS_DISABLED.to_string()));
    assert_eq!(msg(check_gate(true, UPLOADS_DISABLED, false, UPLOADS_DENIED).unwrap_err()), (403, UPLOADS_DENIED.to_string()));
    assert!(check_gate(true, UPLOADS_DISABLED, true, UPLOADS_DENIED).is_ok());
}

#[test]
fn upload_form_takes_each_field_once() {
    let mut form = UploadForm::new();
    assert_eq!(msg(form.uploaded_file().unwrap_err()).1, "Missing 'plugin' file field");
    assert_eq!(msg(form.on_kind("   ").unwrap_err()).1, "Plugin kind must not be empty");
    assert!(form.on_kind(" plugin::wasm::gain ").is_ok());
    assert_eq!(form.declared_kind.as_deref(), Some("plugin::wasm::gain"));
    assert_eq!(msg(form.on_kind("x").unwrap_err()).1, "Multiple 'kind' fields provided");
    assert_eq!(msg(form.on_plugin(None).unwrap_err()).1, "Uploaded plugin file must include a filename");
    assert!(form.on_plugin(Some("gain.wasm")).is_ok());
    assert_eq!(msg(form.on_plugin(Some("again.wasm")).unwrap_err()).1, "Multiple 'plugin' fields provided");
    assert_eq!(form.uploaded_file().unwrap(), "gain.wasm");
}

#[test]
fn upload_chunks_are_counted_against_the_limit() {
    assert_eq!(count_upload_chunk(10, 5, 20).unwrap(), 15);
    assert_eq!(count_upload_chunk(10, 10, 20).unwrap(), 20);
    assert_eq!(
        msg(count_upload_chunk(10, 11, 20).unwrap_err()).1,
        "Plugin upload exceeds configured max body size (20 bytes)"
    );
    assert!(count_upload_chunk(usize::MAX, 1, usize::MAX).is_ok());
}

#[test]
fn declared_kinds_match_file_type_and_allowlist() {
    assert_eq!(placeholder_kind("x.wasm"), Some("plugin::wasm::placeholder"));
    assert_eq!(placeholder_kind("libx.dylib"), Some("plugin::native::placeholder"));
    assert_eq!(placeholder_kind("x.txt"), None);
    let admin = Permissions::admin();
    assert!(check_declared_kind(&admin, Some("plugin::wasm::gain"), "gain.wasm").is_ok());
    assert_eq!(
        msg(check_declared_kind(&admin, Some("plugin::native::gain"), "gain.wasm").unwrap_err()),
        (400, "Declared plugin kind 'plugin::native::gain' does not match uploaded file type".to_string())
    );
    let restricted = Permissions { allowed_plugins: vec!["plugin::wasm::gain".to_string()], ..Default::default() };
    assert_eq!(
        msg(check_declared_kind(&restricted, None, "x.wasm").unwrap_err()),
        (400, "Plugin kind must be provided when allowed_plugins is restricted".to_string())
    );
    assert_eq!(
        msg(check_declared_kind(&restricted, Some("plugin::wasm::other"), "x.wasm").unwrap_err()),
        (403, "Permission denied: plugin 'plugin::wasm::other' not allowed".to_string())
    );
    assert!(check_loaded_kind(&restricted, "plugin::wasm::gain", Some("plugin::wasm::gain")).is_ok());
    assert_eq!(
        msg(check_loaded_kind(&admin, "plugin::wasm::a", Some("plugin::wasm::b")).unwrap_err()),
        (400, "Uploaded plugin kind 'plugin::wasm::a' does not match declared kind 'plugin::wasm::b'".to_string())
    );
}

#[test]
fn marketplace_requests_are_validated() {
    assert_eq!(marketplace_registry(" official ", true).unwrap(), "official");
    assert_eq!(marketplace_registry("  ", true).unwrap_err().message, "Registry is required");
    assert_eq!(marketplace_registry("x", false).unwrap_err().message, "Registry 'x' is not configured");
    assert_eq!(marketplace_plugin_id(" whisper ").unwrap(), "whisper");
    assert_eq!(marketplace_plugin_id("").unwrap_err().message, "Plugin id is required");
    let e = marketplace_plugin_id("../x").unwrap_err();
    assert_eq!((e.status, e.message.as_str()), (400, "plugin id must be a single path component"));
    let ids = vec!["a".to_string(), "b".to_string(), "a".to_string()];
    assert_eq!(find_registry_plugin(&ids, "a").unwrap(), 0);
    assert_eq!(find_registry_plugin(&ids, "z").unwrap_err().message, "Plugin 'z' not found in registry");
}

#[test]
fn version_choice_prefers_requested_then_latest_then_first() {
    let versions = vec!["1.0.0".to_string(), "1.1.0".to_string()];
    assert_eq!(choose_version("p", &versions, Some("1.1.0"), None).unwrap(), 1);
    assert_eq!(choose_version("p", &versions, Some("9.9.9"), None).unwrap(), 0);
    assert_eq!(choose_version("p", &versions, None, Some(" 1.1.0 ")).unwrap(), 1);
    assert_eq!(choose_version("p", &versions, Some("1.1.0"), Some("  ")).unwrap(), 1);
    let e = choose_version("p", &versions, None, Some("2.0.0")).unwrap_err();
    assert_eq!((e.status, e.message.as_str()), (404, "No versions available for plugin 'p'"));
    assert!(choose_version("p", &vec![], None, None).is_err());
    assert_eq!(signature_url_for("https://r/m.json", None), "https://r/m.json.minisig");
    assert_eq!(signature_url_for("https://r/m.json", Some("https://r/sig")), "https://r/sig");
}

#[test]
fn installed_records_and_bundles() {
    assert!(is_record_file("/p/active/whisper.json"));
    assert!(!is_record_file("/p/active/whisper.json.tmp"));
    let r = record("whisper", "1.0.0");
    assert!(record_matches_kind(&r, "plugin::native::whisper"));
    assert!(!record_matches_kind(&r, "plugin::wasm::whisper"));
    let (root, bundle, cache) = bundle_dirs("/p", &r).unwrap();
    assert_eq!((root.as_str(), bundle.as_str(), cache.as_str()), ("/p/bundles/whisper", "/p/bundles/whisper/1.0.0", "/p/cache/whisper"));
    assert_eq!(bundle_dirs("/p", &record("../x", "1")).unwrap_err().to_string(), "plugin id must be a single path component");
    assert_eq!(bundle_dirs("/p", &record("x", " 1")).unwrap_err().to_string(), "plugin version must not contain leading or trailing whitespace");
}
