use skit::metrics_labels::{classify, normalize, resolve_attributes, MetricsAttributePolicy};
use vstd::hash_map::StringHashMap;

fn policy(allowed: &[&str]) -> MetricsAttributePolicy {
    MetricsAttributePolicy {
        allowed: allowed.iter().map(|s| (*s).to_string()).collect(),
        fallback: "other".to_string(),
    }
}

/// Declared attributes in the order a sorted map yields them.
fn declared(pairs: &[(&str, &str)]) -> Vec<(String, String)> {
    let mut v: Vec<(String, String)> = pairs.iter().map(|(k, v)| ((*k).to_string(), (*v).to_string())).collect();
    v.sort();
    v
}

fn service_policy(allowed: &[&str]) -> StringHashMap<MetricsAttributePolicy> {
    let mut map = StringHashMap::new();
    map.insert("service".to_string(), policy(allowed));
    map
}

#[test]
fn classify_allows_listed_values() {
    let p = policy(&["tts", "stt"]);
    assert_eq!(classify("tts", &p), "tts");
    assert_eq!(classify("stt", &p), "stt");
}

#[test]
fn classify_normalizes_case_and_whitespace() {
    let p = policy(&["tts"]);
    assert_eq!(classify("  TTS  ", &p), "tts");
}

#[test]
fn classify_unknown_and_empty_fall_back() {
    let p = policy(&["tts"]);
    assert_eq!(classify("kokoro", &p), "other");
    assert_eq!(classify("", &p), "other");
    assert_eq!(classify("   ", &p), "other");
}

#[test]
fn classify_passthrough_accepts_any_nonempty() {
    let p = policy(&[]);
    assert_eq!(classify("tenant-42", &p), "tenant-42");
    assert_eq!(classify("", &p), "other");
}

#[test]
fn resolve_emits_one_keyvalue_per_allowed_declared_attribute() {
    let resolved = resolve_attributes(Some(&declared(&[("service", "STT")])), &service_policy(&["tts", "stt"]));
    assert_eq!(resolved.len(), 1);
    assert_eq!(resolved[0].0.as_str(), "service");
    assert_eq!(resolved[0].1.as_str(), "stt");
}

#[test]
fn resolve_clamps_value_outside_allowlist_to_fallback() {
    let resolved = resolve_attributes(Some(&declared(&[("service", "kokoro")])), &service_policy(&["tts", "stt"]));
    assert_eq!(resolved[0].1.as_str(), "other");
}

#[test]
fn resolve_drops_keys_absent_from_policy() {
    let resolved =
        resolve_attributes(Some(&declared(&[("service", "tts"), ("tenant", "acme")])), &service_policy(&["tts"]));
    assert_eq!(resolved.len(), 1);
    assert_eq!(resolved[0].0.as_str(), "service");
}

#[test]
fn resolve_without_attributes_is_empty() {
    let resolved = resolve_attributes(None, &service_policy(&["tts"]));
    assert!(resolved.is_empty());
}

#[test]
fn resolve_with_empty_policy_emits_nothing() {
    let resolved = resolve_attributes(Some(&declared(&[("service", "tts")])), &StringHashMap::new());
    assert!(resolved.is_empty());
}

#[test]
fn resolve_matches_declared_key_case_insensitively() {
    let resolved = resolve_attributes(Some(&declared(&[("Service", "TTS")])), &service_policy(&["tts", "stt"]));
    assert_eq!(resolved.len(), 1);
    assert_eq!(resolved[0].0.as_str(), "service");
    assert_eq!(resolved[0].1.as_str(), "tts");
}

#[test]
fn resolve_collapses_keys_colliding_after_normalization() {
    let resolved = resolve_attributes(
        Some(&declared(&[("Service", "tts"), ("service", "stt")])),
        &service_policy(&["tts", "stt"]),
    );
    assert_eq!(resolved.len(), 1, "duplicate keys must collapse to one entry");
    assert_eq!(resolved[0].0.as_str(), "service");
    assert_eq!(resolved[0].1.as_str(), "stt");
}

#[test]
fn resolve_sorts_keys_and_bounds_every_value() {
    let mut pol = service_policy(&["tts", "stt"]);
    pol.insert("region".to_string(), policy(&[]));
    let resolved = resolve_attributes(
        Some(&declared(&[("service", "whisper"), ("region", " EU-West "), ("tenant", "x")])),
        &pol,
    );
    assert_eq!(
        resolved,
        vec![("region".to_string(), "eu-west".to_string()), ("service".to_string(), "other".to_string())]
    );
}

#[test]
fn normalize_trims_and_lowercases_ascii() {
    assert_eq!(normalize("  HeLLo \t"), "hello");
    assert_eq!(normalize("ÄB"), "Äb");
}
