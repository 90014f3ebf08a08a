use skit::permissions::{Permissions, PermissionsConfig};
use skit::session_rules::{
    check_dynamic_pipeline_nodes, check_oneshot_node_kinds, check_oneshot_permission, check_session_creation,
    check_session_target, session_insert_refusal, validate_pipeline_nodes, visible_sessions, AppError,
    PluginHttpError,
};

fn pairs(v: &[(&str, &str)]) -> Vec<(String, String)> {
    v.iter().map(|(a, b)| (a.to_string(), b.to_string())).collect()
}

fn kinds(v: &[&str]) -> Vec<String> {
    v.iter().map(|s| s.to_string()).collect()
}

#[test]
fn session_creation_checks_in_order() {
    let config = PermissionsConfig { max_concurrent_sessions: Some(2), ..Default::default() };
    let user = Permissions::user();
    assert!(check_session_creation(&user, &config, Some("s"), false, 1).is_ok());
    let e = check_session_creation(&user, &config, Some("s"), true, 1).unwrap_err();
    assert_eq!((e.status, e.message.as_str()), (409, "Failed to create session: Session with name 's' already exists"));
    let e = check_session_creation(&user, &config, None, true, 2).unwrap_err();
    assert_eq!((e.status, e.message.as_str()), (429, "Maximum concurrent sessions limit reached"));
    let e = check_session_creation(&Permissions::default(), &config, None, false, 0).unwrap_err();
    assert_eq!((e.status, e.message.as_str()), (403, "Permission denied: cannot create sessions"));
    let e = session_insert_refusal("Maximum concurrent sessions limit reached");
    assert_eq!(e.status, 429);
    let e = session_insert_refusal("boom");
    assert_eq!((e.status, e.message.as_str()), (500, "Failed to create session: boom"));
}

#[test]
fn dynamic_pipelines_refuse_markers_and_disallowed_kinds() {
    let user = Permissions::user();
    let e = check_dynamic_pipeline_nodes(&user, &vec![]).unwrap_err();
    assert_eq!((e.status, e.message.as_str()), (400, "Pipeline is empty. Add some nodes before creating a session."));
    let e = check_dynamic_pipeline_nodes(&user, &pairs(&[("in", "streamkit::http_input")])).unwrap_err();
    assert_eq!(
        (e.status, e.message.as_str()),
        (400, "Node 'in' kind 'streamkit::http_input' is oneshot-only and cannot be used in dynamic sessions")
    );
    let admin = Permissions::admin();
    assert!(check_dynamic_pipeline_nodes(&admin, &pairs(&[("g", "audio::gain")])).is_ok());
    let none = Permissions::default();
    let e = check_dynamic_pipeline_nodes(&none, &pairs(&[("g", "audio::gain")])).unwrap_err();
    assert_eq!((e.status, e.message.as_str()), (403, "Permission denied: node 'g' kind 'audio::gain' not allowed"));
    let plugins_off = Permissions { allowed_nodes: vec!["*".to_string()], ..Default::default() };
    let e = check_dynamic_pipeline_nodes(&plugins_off, &pairs(&[("w", "plugin::wasm::x")])).unwrap_err();
    assert_eq!((e.status, e.message.as_str()), (403, "Permission denied: node 'w' plugin 'plugin::wasm::x' not allowed"));
}

#[test]
fn session_visibility_and_targets() {
    let user = Permissions::user();
    let creators = vec![Some("alice".to_string()), Some("bob".to_string()), None];
    assert_eq!(visible_sessions(&user, "alice", &creators), vec![0, 2]);
    assert_eq!(visible_sessions(&Permissions::admin(), "x", &creators), vec![0, 1, 2]);
    let e = check_session_target(&user, "alice", false, "Permission denied: cannot destroy sessions", "s1", None)
        .unwrap_err();
    assert_eq!((e.status, e.message.as_str()), (403, "Permission denied: cannot destroy sessions"));
    let e = check_session_target(&user, "alice", true, "denied", "s1", None).unwrap_err();
    assert_eq!((e.status, e.message.as_str()), (404, "Session 's1' not found"));
    let e = check_session_target(&user, "alice", true, "denied", "s1", Some(Some("bob".to_string()))).unwrap_err();
    assert_eq!((e.status, e.message.as_str()), (403, "Permission denied: you do not own this session"));
    assert!(check_session_target(&user, "alice", true, "denied", "s1", Some(Some("alice".to_string()))).is_ok());
}

#[test]
fn oneshot_pipeline_shape_and_permissions() {
    assert!(check_oneshot_permission(&Permissions::user()).is_ok());
    assert_eq!(check_oneshot_permission(&Permissions::default()).unwrap_err().status, 403);
    assert_eq!(
        validate_pipeline_nodes(&kinds(&["streamkit::http_input", "audio::gain", "streamkit::http_output"])).expect("ok"),
        (true, false, true)
    );
    let e = validate_pipeline_nodes(&kinds(&["streamkit::http_input"])).unwrap_err();
    assert_eq!(e.message, "Pipeline must contain one 'streamkit::http_output' node for oneshot processing");
    let e = validate_pipeline_nodes(&kinds(&["streamkit::http_output"])).unwrap_err();
    assert_eq!(e.message, "Generator-mode pipeline must contain at least one node besides 'streamkit::http_output'");
    assert_eq!(
        validate_pipeline_nodes(&kinds(&["video::colorbars", "streamkit::http_output"])).expect("generator"),
        (false, false, true)
    );
    let none = Permissions::default();
    assert!(check_oneshot_node_kinds(&none, &pairs(&[("o", "streamkit::http_output")])).is_ok());
    let e = check_oneshot_node_kinds(&none, &pairs(&[("g", "audio::gain")])).unwrap_err();
    assert_eq!(e.message, "Permission denied: node type 'audio::gain' not allowed (node 'g')");
}

#[test]
fn error_responses() {
    assert_eq!(AppError::Engine("x".to_string()).response(), (500, "Pipeline execution error: x".to_string()));
    assert_eq!(AppError::Multipart("x".to_string()).response(), (500, "Error receiving request data: x".to_string()));
    assert_eq!(AppError::Serde("x".to_string()).response(), (400, "Invalid YAML config format: x".to_string()));
    assert_eq!(AppError::PipelineCompilation("x".to_string()).response(), (400, "Invalid pipeline: x".to_string()));
    assert_eq!(AppError::BadRequest("x".to_string()).response(), (400, "x".to_string()));
    assert_eq!(AppError::Forbidden("x".to_string()).response(), (403, "x".to_string()));
    assert_eq!(PluginHttpError::Multipart("x".to_string()).response(), (400, "Invalid multipart payload: x".to_string()));
    assert_eq!(PluginHttpError::Manager("x".to_string()).response(), (422, "x".to_string()));
}
