use skit::session_rules::AppError;
use skit::web_routes::{
    asset_headers, extract_multipart_boundary, inject_base_tag, missing_asset_serves_index,
    static_asset_path, temp_upload_name, websocket_origin_allowed, HeaderText,
};

#[test]
fn multipart_boundary_comes_from_the_content_type() {
    let b = extract_multipart_boundary(HeaderText::Text("multipart/form-data; boundary=XyZ123")).expect("boundary");
    assert_eq!(b, "XyZ123");
    match extract_multipart_boundary(HeaderText::Missing) {
        Err(AppError::BadRequest(m)) => assert_eq!(m, "Missing Content-Type header"),
        other => panic!("unexpected {other:?}"),
    }
    match extract_multipart_boundary(HeaderText::NotText) {
        Err(AppError::BadRequest(m)) => assert_eq!(m, "Invalid Content-Type header"),
        other => panic!("unexpected {other:?}"),
    }
    match extract_multipart_boundary(HeaderText::Text("application/json")) {
        Err(AppError::BadRequest(m)) => assert!(m.starts_with("Invalid multipart boundary: ")),
        other => panic!("unexpected {other:?}"),
    }
}

#[test]
fn temp_upload_names_are_fresh() {
    let a = temp_upload_name();
    let b = temp_upload_name();
    assert!(a.starts_with("streamkit-plugin-upload-"));
    assert!(a.len() > "streamkit-plugin-upload-".len());
    assert_ne!(a, b);
}

#[test]
fn temp_upload_names_carry_a_v4_uuid() {
    let a = temp_upload_name();
    assert_eq!(a.len(), 60);
    let u: Vec<char> = a["streamkit-plugin-upload-".len()..].chars().collect();
    assert_eq!(u.len(), 36);
    for (i, c) in u.iter().enumerate() {
        if i == 8 || i == 13 || i == 18 || i == 23 {
            assert_eq!(*c, '-');
        } else {
            assert!(c.is_ascii_digit() || ('a'..='f').contains(c));
        }
    }
    assert_eq!(u[14], '4');
    assert!(matches!(u[19], '8' | '9' | 'a' | 'b'));
}

#[test]
fn websocket_origins_follow_the_patterns() {
    let patterns = vec!["http://localhost:*".to_string()];
    assert!(websocket_origin_allowed(None, &patterns));
    assert!(websocket_origin_allowed(Some("http://localhost:3000"), &patterns));
    assert!(!websocket_origin_allowed(Some("https://evil.example"), &patterns));
}

#[test]
fn static_paths_and_headers() {
    assert_eq!(static_asset_path("/", None).as_deref(), Some("index.html"));
    assert_eq!(static_asset_path("/app/assets/x.js", Some("/app")).as_deref(), Some("assets/x.js"));
    assert_eq!(static_asset_path("/api/v1/x", None), None);
    assert!(missing_asset_serves_index("/sessions/abc"));
    assert!(!missing_asset_serves_index("/assets/missing.js"));
    let (mime, cache) = asset_headers("index.html");
    assert_eq!((mime.as_str(), cache), ("text/html", "no-cache"));
    let (mime, cache) = asset_headers("assets/app.js");
    assert_eq!((mime.as_str(), cache), ("text/javascript", "public, max-age=31536000, immutable"));
    let (mime, _) = asset_headers("LICENSE");
    assert_eq!(mime, "application/octet-stream");
}

#[test]
fn base_tag_is_injected_after_head() {
    let html = "<html><head><title>x</title></head></html>";
    assert_eq!(
        inject_base_tag(html, Some("/studio")),
        "<html><head>\n    <base href=\"/studio/\"><title>x</title></head></html>"
    );
    assert_eq!(inject_base_tag("<head>", None), "<head>\n    <base href=\"/\">");
    assert_eq!(inject_base_tag("<head>", Some("a\"b")), "<head>\n    <base href=\"/a&quot;b/\">");
}
