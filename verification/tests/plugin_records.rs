use skit::plugin_records::{active_dir, namespaced_kind, record_path, ActivePluginRecord, PluginKind};
use skit::profiling::{
    check_profile_params, heap_profile_headers, profile_headers, profiler_blocklist, ProfileFormat,
    ProfileParams,
};

fn record(kind: PluginKind, node_kind: &str) -> ActivePluginRecord {
    ActivePluginRecord {
        plugin_id: "whisper".to_string(),
        version: "1.0.0".to_string(),
        node_kind: node_kind.to_string(),
        kind,
        entrypoint: "libwhisper.so".to_string(),
        installed_at_ms: 0,
        accelerator: String::new(),
    }
}

#[test]
fn record_paths_live_in_the_active_dir() {
    assert_eq!(active_dir("/p"), "/p/active");
    assert_eq!(record_path("/p", "whisper").expect("valid id"), "/p/active/whisper.json");
    assert!(record_path("/p", "../escape").is_err());
    assert!(record_path("/p", "").is_err());
}

#[test]
fn namespaced_kinds_follow_the_plugin_kind() {
    assert_eq!(namespaced_kind(&record(PluginKind::Native, "whisper")), "plugin::native::whisper");
    assert_eq!(namespaced_kind(&record(PluginKind::Wasm, "gain")), "plugin::wasm::gain");
}

#[test]
fn profile_params_are_bounded() {
    let ok = ProfileParams::default();
    assert_eq!((ok.duration_secs, ok.format, ok.frequency), (30, ProfileFormat::Flamegraph, 99));
    assert!(check_profile_params(&ok).is_ok());
    assert_eq!(check_profile_params(&ProfileParams { duration_secs: 0, ..ok }), Err(400));
    assert_eq!(check_profile_params(&ProfileParams { duration_secs: 301, ..ok }), Err(400));
    assert!(check_profile_params(&ProfileParams { duration_secs: 300, frequency: 10000, ..ok }).is_ok());
    assert_eq!(check_profile_params(&ProfileParams { frequency: 0, ..ok }), Err(400));
    assert_eq!(check_profile_params(&ProfileParams { frequency: 10001, ..ok }), Err(400));
}

#[test]
fn profile_headers_by_format() {
    assert_eq!(profile_headers(ProfileFormat::Flamegraph), ("image/svg+xml", None));
    assert_eq!(
        profile_headers(ProfileFormat::Protobuf),
        ("application/octet-stream", Some("attachment; filename=\"profile.pb\""))
    );
    assert_eq!(heap_profile_headers(), ("application/octet-stream", "attachment; filename=\"heap.pb.gz\""));
    assert_eq!(profiler_blocklist(), vec!["libc", "libgcc", "pthread", "vdso", "libunwind", "backtrace"]);
}

#[test]
fn a_record_lies_directly_in_the_active_directory() {
    let p = record_path("/var/lib/skit/plugins", "gain").expect("valid id");
    assert_eq!(p, "/var/lib/skit/plugins/active/gain.json");
    let parent = std::path::Path::new(&p).parent().expect("has a parent");
    assert_eq!(parent.to_str(), Some(active_dir("/var/lib/skit/plugins").as_str()));
}
