use skit::plugin_paths::{ensure_under_base, resolve_under_base, validate_path_component};

#[test]
fn validate_path_component_rejects_unsafe_values() {
    for value in ["../x", "a/b", "/tmp", "", " ", "  x", "x  "] {
        assert!(validate_path_component("plugin id", value).is_err());
    }
}

#[test]
fn validate_path_component_accepts_simple_name() {
    assert!(validate_path_component("plugin id", "plugin-name").is_ok());
}

#[test]
fn validate_path_component_reports_each_refusal() {
    let msg = |v: &str| validate_path_component("plugin id", v).unwrap_err().to_string();
    assert_eq!(msg(""), "plugin id must not be empty");
    assert_eq!(msg(" x"), "plugin id must not contain leading or trailing whitespace");
    assert_eq!(msg("a b"), "plugin id must not contain whitespace");
    assert_eq!(msg("a\tb"), "plugin id must not contain whitespace");
    assert_eq!(msg("a/b"), "plugin id must be a single path component");
    assert_eq!(msg(".."), "plugin id must be a single path component");
}

#[test]
fn ensure_under_base_refuses_outside_dirs() {
    assert!(ensure_under_base("/srv/plugins", "/srv/plugins/gain", "plugin").is_ok());
    let err = ensure_under_base("/srv/plugins", "/srv/pluginsx/gain", "plugin").unwrap_err();
    assert_eq!(err.to_string(), "plugin dir /srv/pluginsx/gain is outside plugin directory /srv/plugins");
}

#[test]
fn resolve_under_base_attaches_missing_names() {
    let names = vec!["c".to_string(), "b".to_string()];
    let dir = resolve_under_base("/srv/plugins", "/srv/plugins/a", &names, "plugin").expect("under base");
    assert_eq!(dir, "/srv/plugins/a/b/c");
    let err = resolve_under_base("/srv/plugins", "/srv", &vec!["other".to_string()], "plugin").unwrap_err();
    assert_eq!(err.to_string(), "plugin dir /srv/other is outside plugin directory /srv/plugins");
}
