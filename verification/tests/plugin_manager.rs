use skit::plugin_manager::{
    bundle_dir_to_clean, is_duplicate_kind_error, is_native_lib, is_wasm_file,
    validate_plugin_upload_target, LoadedPlugin, LoadedPlugins, PluginType,
};

fn plugin(kind: &str, path: &str) -> LoadedPlugin {
    LoadedPlugin {
        kind: kind.to_string(),
        original_kind: kind.rsplit("::").next().unwrap_or(kind).to_string(),
        file_path: path.to_string(),
        categories: vec!["audio".to_string()],
        loaded_at_ms: 7,
        plugin_type: PluginType::Native,
        version: None,
    }
}

#[test]
fn list_plugins_returns_empty_on_a_fresh_manager() {
    let mgr = LoadedPlugins::new();
    assert!(mgr.list_plugins().is_empty());
    assert!(!mgr.is_plugin_loaded("plugin::native::panicking"));
}

#[test]
fn unload_plugin_returns_not_loaded_error_for_unknown_kind() {
    let mut mgr = LoadedPlugins::new();
    let err = mgr.unload("plugin::native::nope").expect_err("unloading an unknown plugin must fail");
    assert!(err.contains("not currently loaded"), "unexpected error: {err}");
    assert_eq!(err, "Plugin 'plugin::native::nope' is not currently loaded");
}

#[test]
fn load_from_bytes_rejects_empty_file_name() {
    let err = validate_plugin_upload_target("/p/wasm", "/p/native", "").expect_err("empty name must fail");
    assert!(err.contains("must not be empty"));
}

#[test]
fn load_from_bytes_rejects_path_traversal_in_file_name() {
    let err = validate_plugin_upload_target("/p/wasm", "/p/native", "../escape.wasm")
        .expect_err("path-traversal must be rejected");
    assert!(err.contains("plain file name"), "got {err}");
}

#[test]
fn load_from_bytes_rejects_unsupported_extension() {
    let err = validate_plugin_upload_target("/p/wasm", "/p/native", "evil.txt")
        .expect_err("unknown extension must be rejected");
    assert!(err.contains("valid extension"), "got {err}");
}

#[test]
fn load_from_bytes_rejects_oversize_file_name() {
    let long = format!("{}.wasm", "a".repeat(300));
    let err = validate_plugin_upload_target("/p/wasm", "/p/native", &long).expect_err("oversize name must fail");
    assert!(err.contains("too long"), "got {err}");
}

#[test]
fn upload_target_rejects_unknown_extension() {
    let err = validate_plugin_upload_target("/p/wasm", "/p/native", "plugin.exe").expect_err("bad ext");
    assert!(err.contains("valid extension"), "got {err}");
}

#[test]
fn upload_targets_place_wasm_and_native_files() {
    let w = validate_plugin_upload_target("/p/wasm", "/p/native", " gain.wasm ").expect("wasm");
    assert_eq!(w.path, "/p/wasm/gain.wasm");
    assert_eq!(w.plugin_type, PluginType::Wasm);
    assert_eq!(w.bundle_dir, None);
    let n = validate_plugin_upload_target("/p/wasm", "/p/native", "libwhisper.so").expect("native");
    assert_eq!(n.path, "/p/native/whisper/libwhisper.so");
    assert_eq!(n.plugin_type, PluginType::Native);
    assert_eq!(n.bundle_dir.as_deref(), Some("/p/native/whisper"));
    let l = validate_plugin_upload_target("/p/wasm", "/p/native", "lib.so").expect("bare lib");
    assert_eq!(l.bundle_dir.as_deref(), Some("/p/native/lib.so"));
}

#[test]
fn loaded_table_registers_dedups_and_unloads() {
    let mut mgr = LoadedPlugins::new();
    assert!(mgr.check_kind_conflict("plugin::native::gain", "gain", false).is_ok());
    mgr.insert(plugin("plugin::native::gain", "/p/native/gain/libgain.so"));
    assert!(mgr.is_plugin_loaded("plugin::native::gain"));
    let dup = mgr.check_kind_conflict("plugin::native::gain", "gain", false).expect_err("dedup");
    assert!(is_duplicate_kind_error(&dup));
    assert_eq!(dup, "A plugin providing node 'gain' (registered as 'plugin::native::gain') is already loaded");
    let reg = mgr.check_kind_conflict("core::gain", "gain", true).expect_err("engine kind");
    assert!(is_duplicate_kind_error(&reg));
    let list = mgr.list_plugins();
    assert_eq!(list.len(), 1);
    assert_eq!(list[0].file_name, "libgain.so");
    assert_eq!(mgr.count_of_type(PluginType::Native), 1);
    assert_eq!(mgr.count_of_type(PluginType::Wasm), 0);
    let back = mgr.unload("plugin::native::gain").expect("loaded");
    assert_eq!(back.kind, "plugin::native::gain");
    assert!(mgr.list_plugins().is_empty());
}

#[test]
fn set_version_updates_only_the_named_plugin() {
    let mut mgr = LoadedPlugins::new();
    mgr.insert(plugin("plugin::native::a", "/p/native/a/liba.so"));
    mgr.insert(plugin("plugin::native::b", "/p/native/b/libb.so"));
    mgr.set_version("plugin::native::b", "1.2.3");
    mgr.set_version("plugin::native::zz", "9.9.9");
    let list = mgr.list_plugins();
    assert_eq!(list[0].version, None);
    assert_eq!(list[1].version.as_deref(), Some("1.2.3"));
}

#[test]
fn plugin_files_are_recognised_by_extension() {
    assert!(is_wasm_file("/p/wasm/gain.wasm"));
    assert!(!is_wasm_file("/p/wasm/gain.so"));
    assert!(is_native_lib("/p/native/libgain.so"));
    assert!(is_native_lib("/p/native/gain.dylib"));
    assert!(!is_native_lib("/p/native/gain.txt"));
}

#[test]
fn bundle_dir_cleanup_targets_only_native_subdirs() {
    assert_eq!(bundle_dir_to_clean("/p/native", "/p/native/gain/libgain.so").as_deref(), Some("/p/native/gain"));
    assert_eq!(bundle_dir_to_clean("/p/native", "/p/native/libgain.so"), None);
    assert_eq!(bundle_dir_to_clean("/p/native", "/elsewhere/libgain.so"), None);
}
