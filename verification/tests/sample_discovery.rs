use skit::sample_discovery::{build_search_terms, Discovery};

fn kinds(list: &[&str]) -> Vec<String> {
    list.iter().map(|s| (*s).to_string()).collect()
}

#[test]
fn search_terms_include_authored_metadata() {
    let discovery = Discovery {
        group: Some("video-colorbars".to_string()),
        variant: Some("VA-API H.264".to_string()),
        canonical: false,
        category: Some("Video Encoding".to_string()),
        tags: vec!["video-encoding".to_string(), "hardware:vaapi".to_string()],
        keywords: vec!["test pattern".to_string(), "smpte".to_string()],
    };
    let terms = build_search_terms(
        "Video Color Bars (VA-API H.264)",
        "Encodes SMPTE color bars",
        &discovery,
        &kinds(&["video::vaapi::h264_encoder"]),
    );
    assert!(terms.contains(&"video encoding".to_string()));
    assert!(terms.contains(&"hardware:vaapi".to_string()));
    assert!(terms.contains(&"test pattern".to_string()));
    assert!(terms.contains(&"video vaapi h264 encoder".to_string()));
}

#[test]
fn search_terms_are_lowercased_and_deduped() {
    let discovery = Discovery {
        category: Some("Streaming".to_string()),
        tags: vec!["streaming".to_string()],
        ..Discovery::default()
    };
    let terms = build_search_terms("Streaming", "STREAMING", &discovery, &[]);
    assert_eq!(terms.iter().filter(|t| *t == "streaming").count(), 1);
    assert!(terms.iter().all(|t| t == &t.to_lowercase()));
}

#[test]
fn search_terms_skip_absent_optional_fields() {
    let discovery = Discovery::default();
    let terms = build_search_terms("Solo Sample", "", &discovery, &[]);
    assert_eq!(terms, vec!["solo sample".to_string()]);
}

#[test]
fn search_terms_keep_offer_order() {
    let discovery = Discovery {
        group: Some(" Group ".to_string()),
        variant: None,
        canonical: true,
        category: Some("Cat".to_string()),
        tags: vec!["T1".to_string(), "cat".to_string()],
        keywords: vec![],
    };
    let terms = build_search_terms("Name", "Desc", &discovery, &kinds(&["a::b_c"]));
    assert_eq!(terms, vec!["name", "desc", "cat", "group", "t1", "a b c"]);
}
