use skit::http_inputs::ConnectionMode;
use skit::mcp_prompts::{
    build_debug_pipeline_content, build_design_pipeline_content, NodeStateSummary, NodeSummary, PinSummary,
    SessionConnectionSummary, SessionNodeSummary, StateDetail, DEBUG_CHECKLIST_TAIL, DESIGN_INTRO, DESIGN_RULES,
};
use skit::mcp_tools::{
    check_get_logs, check_node_definition_access, check_server_info, check_session_access, oneshot_command,
    parse_sample_resource_uri, parse_validation_mode, require, sample_resource_uri, select_samples,
    split_param_changes, visible_node_kinds, check_session_nodes, check_session_slot, PipelineMode, ToolError,
};
use skit::oneshot::{GenerateOneshotCommandArgs, OneshotInput};
use skit::permissions::{Permissions, PermissionsConfig};

fn text(e: ToolError) -> String {
    match e {
        ToolError::InvalidRequest(m) | ToolError::InvalidParams(m) | ToolError::Internal(m) => m,
    }
}

#[test]
fn session_access_checks_permission_existence_and_ownership() {
    let user = Permissions::user();
    let e = check_session_access(&user, "alice", false, "destroy_sessions", "s", None).unwrap_err();
    assert!(matches!(e, ToolError::InvalidRequest(_)));
    assert_eq!(text(e), "Permission denied: destroy_sessions required");
    let e = check_session_access(&user, "alice", true, "x", "s", None).unwrap_err();
    assert!(matches!(e, ToolError::InvalidParams(_)));
    assert_eq!(text(e), "Session 's' not found");
    let e = check_session_access(&user, "alice", true, "x", "s", Some(Some("bob".to_string()))).unwrap_err();
    assert_eq!(text(e), "Permission denied: you do not own this session");
    assert!(check_session_access(&user, "alice", true, "x", "s", Some(None)).is_ok());
    assert!(require(true, "no").is_ok());
    assert_eq!(text(require(false, "no").unwrap_err()), "no");
}

#[test]
fn node_kinds_are_filtered_by_both_allowlists() {
    let perms = Permissions {
        allowed_nodes: vec!["*".to_string()],
        allowed_plugins: vec!["plugin::wasm::*".to_string()],
        ..Default::default()
    };
    let kinds: Vec<String> =
        ["audio::gain", "plugin::native::x", "plugin::wasm::y"].iter().map(|s| s.to_string()).collect();
    assert_eq!(visible_node_kinds(&perms, &kinds), vec![0, 2]);
    assert!(check_node_definition_access(&perms, "audio::gain").is_ok());
    assert_eq!(
        text(check_node_definition_access(&perms, "plugin::native::x").unwrap_err()),
        "Permission denied: plugin 'plugin::native::x' is not allowed"
    );
    assert_eq!(
        text(check_node_definition_access(&Permissions::default(), "audio::gain").unwrap_err()),
        "Permission denied: node kind 'audio::gain' is not allowed"
    );
}

#[test]
fn modes_and_sample_selection() {
    assert_eq!(parse_validation_mode(None).unwrap(), None);
    assert_eq!(parse_validation_mode(Some("dynamic")).unwrap(), Some(PipelineMode::Dynamic));
    assert_eq!(parse_validation_mode(Some("oneshot")).unwrap(), Some(PipelineMode::Oneshot));
    assert_eq!(
        text(parse_validation_mode(Some("batch")).unwrap_err()),
        "Invalid mode 'batch'. Must be 'dynamic' or 'oneshot'."
    );
    let modes: Vec<String> = ["oneshot", "dynamic", "oneshot"].iter().map(|s| s.to_string()).collect();
    assert_eq!(select_samples(None, &modes).unwrap(), vec![0, 1, 2]);
    assert_eq!(select_samples(Some("oneshot"), &modes).unwrap(), vec![0, 2]);
    assert_eq!(
        text(select_samples(Some("x"), &modes).unwrap_err()),
        "Invalid mode 'x'. Must be 'oneshot' or 'dynamic'."
    );
}

#[test]
fn log_and_info_gates() {
    let admin = Permissions::admin();
    assert_eq!(check_get_logs(&admin, true, None).unwrap(), 100);
    assert_eq!(check_get_logs(&admin, true, Some(20)).unwrap(), 20);
    assert_eq!(check_get_logs(&admin, true, Some(5000)).unwrap(), 500);
    assert_eq!(
        text(check_get_logs(&admin, false, None).unwrap_err()),
        "File logging is not enabled. Set log.file_enable = true in server config."
    );
    assert_eq!(
        text(check_get_logs(&Permissions::user(), true, None).unwrap_err()),
        "Permission denied: access_all_sessions required"
    );
    assert!(check_server_info("user").is_ok());
    assert!(check_server_info("viewer").is_err());
}

#[test]
fn oneshot_command_formats() {
    let args = |format: Option<&str>| GenerateOneshotCommandArgs {
        yaml: "a: 1".to_string(),
        inputs: vec![OneshotInput { field: "media".to_string(), path: "/in.wav".to_string() }],
        output: "out.wav".to_string(),
        server_url: None,
        format: format.map(|f| f.to_string()),
    };
    let curl = oneshot_command(&args(None)).unwrap();
    assert!(curl.contains("curl -X POST 'http://localhost:4545/api/v1/process'"));
    let cli = oneshot_command(&args(Some("skit-cli"))).unwrap();
    assert!(cli.contains("streamkit-client oneshot"));
    assert_eq!(
        text(oneshot_command(&args(Some("wget"))).unwrap_err()),
        "Invalid format 'wget'. Must be 'curl' or 'skit-cli'."
    );
}

#[test]
fn param_changes_and_resource_uris() {
    let ids = vec!["a".to_string(), "b".to_string()];
    assert_eq!(split_param_changes(true, &ids), (ids.clone(), vec![]));
    assert_eq!(split_param_changes(false, &ids), (vec![], ids.clone()));
    assert_eq!(sample_resource_uri("oneshot/speech"), "streamkit://samples/oneshot/speech");
    assert_eq!(parse_sample_resource_uri("streamkit://samples/oneshot/speech").unwrap(), "oneshot/speech");
    assert_eq!(
        text(parse_sample_resource_uri("http://x").unwrap_err()),
        "Invalid resource URI 'http://x': expected streamkit://samples/{mode}/{id}"
    );
    assert_eq!(
        text(parse_sample_resource_uri("streamkit://samples/speech").unwrap_err()),
        "Malformed resource URI 'streamkit://samples/speech': expected streamkit://samples/{mode}/{id}"
    );
    assert_eq!(
        text(parse_sample_resource_uri("streamkit://samples/prod/x").unwrap_err()),
        "Unknown sample mode 'prod' in URI 'streamkit://samples/prod/x'"
    );
    assert_eq!(
        text(parse_sample_resource_uri("streamkit://samples/user/../x").unwrap_err()),
        "Invalid resource ID in URI 'streamkit://samples/user/../x'"
    );
}

fn def(kind: &str, cats: &[&str], desc: Option<&str>) -> NodeSummary {
    NodeSummary {
        kind: kind.to_string(),
        categories: cats.iter().map(|c| c.to_string()).collect(),
        description: desc.map(|d| d.to_string()),
        inputs: vec![],
        outputs: vec![],
        param_keys: vec![],
    }
}

#[test]
fn design_prompt_groups_nodes_by_sorted_first_category() {
    let mut gain = def("audio::gain", &["audio", "filters"], Some("Adjusts volume"));
    gain.inputs = vec![PinSummary { name: "in".to_string(), types: "[RawAudio]".to_string() }];
    gain.outputs = vec![PinSummary { name: "out".to_string(), types: "RawAudio".to_string() }];
    gain.param_keys = vec!["gain_db".to_string()];
    let defs = vec![def("video::x", &["video"], None), gain, def("misc::y", &[], None)];
    let content = build_design_pipeline_content(&defs, Some("make it loud"));
    let expected = format!(
        "{DESIGN_INTRO}### audio\n\n- **`audio::gain`** — Adjusts volume\n  - Inputs: `in` ([RawAudio])\n  - Outputs: `out` (RawAudio)\n  - Params: `gain_db`\n\n### uncategorized\n\n- **`misc::y`**\n\n### video\n\n- **`video::x`**\n\n{DESIGN_RULES}\n## User Request\n\nmake it loud\n"
    );
    assert_eq!(content, expected);
    assert!(build_design_pipeline_content(&vec![], None).ends_with("4. Call `create_session` to start the pipeline.\n"));
}

#[test]
fn debug_prompt_lists_states_connections_and_errors() {
    let nodes = vec![
        SessionNodeSummary {
            id: "a".to_string(),
            kind: "k::a".to_string(),
            state: Some(NodeStateSummary { text: "Running".to_string(), detail: StateDetail::Other }),
        },
        SessionNodeSummary {
            id: "b".to_string(),
            kind: "k::b".to_string(),
            state: Some(NodeStateSummary {
                text: "Failed { reason: \"boom\" }".to_string(),
                detail: StateDetail::Failed("boom".to_string()),
            }),
        },
        SessionNodeSummary { id: "c".to_string(), kind: "k::c".to_string(), state: None },
    ];
    let conns = vec![SessionConnectionSummary {
        from_node: "a".to_string(),
        from_pin: "out".to_string(),
        to_node: "b".to_string(),
        to_pin: "in".to_string(),
        mode: ConnectionMode::BestEffort,
    }];
    let content = build_debug_pipeline_content("s1", "{}", &nodes, &conns);
    let expected = format!(
        "You are debugging StreamKit session `s1`.\n\n## Current Pipeline State\n\n```json\n{{}}\n```\n\n## Node States\n\n- **`a`** (`k::a`): Running\n- **`b`** (`k::b`): Failed {{ reason: \"boom\" }} — error: boom\n- **`c`** (`k::c`): unknown\n\n## Connections\n\n- `a`.`out` → `b`.`in` (best_effort)\n\n## Diagnostic Checklist\n\n1. Are all nodes in a **running** state?\n2. **Errors detected** — review the error messages above and check node parameters.\n{DEBUG_CHECKLIST_TAIL}"
    );
    assert_eq!(content, expected);
}

#[test]
fn create_session_refusals_carry_the_tool_texts() {
    let perms = Permissions {
        allowed_nodes: vec!["audio::*".to_string(), "plugin::*".to_string()],
        allowed_plugins: vec!["plugin::wasm::*".to_string()],
        ..Default::default()
    };
    let e = check_session_nodes(&perms, &vec![]).unwrap_err();
    assert!(matches!(e, ToolError::InvalidParams(_)));
    assert_eq!(text(e), "Pipeline is empty. Add some nodes before creating a session.");
    let marker = vec![("in".to_string(), "streamkit::http_input".to_string())];
    let e = check_session_nodes(&perms, &marker).unwrap_err();
    assert!(matches!(e, ToolError::InvalidParams(_)));
    assert_eq!(text(e), "Node 'in' kind 'streamkit::http_input' is oneshot-only and cannot be used in dynamic sessions");
    let video = vec![("v".to_string(), "video::scale".to_string())];
    let e = check_session_nodes(&perms, &video).unwrap_err();
    assert!(matches!(e, ToolError::InvalidRequest(_)));
    assert_eq!(text(e), "Permission denied: node 'v' kind 'video::scale' not allowed");
    let native = vec![("p".to_string(), "plugin::native::x".to_string())];
    let e = check_session_nodes(&perms, &native).unwrap_err();
    assert!(matches!(e, ToolError::InvalidRequest(_)));
    assert_eq!(text(e), "Permission denied: node 'p' plugin 'plugin::native::x' not allowed");
    let ok = vec![("g".to_string(), "audio::gain".to_string()), ("w".to_string(), "plugin::wasm::y".to_string())];
    assert!(check_session_nodes(&perms, &ok).is_ok());

    let config = PermissionsConfig { max_concurrent_sessions: Some(2), ..Default::default() };
    let e = check_session_slot(&config, Some("main"), true, 0).unwrap_err();
    assert!(matches!(e, ToolError::InvalidRequest(_)));
    assert_eq!(text(e), "Session with name 'main' already exists");
    let e = check_session_slot(&config, None, true, 2).unwrap_err();
    assert_eq!(text(e), "Maximum concurrent sessions limit reached");
    assert!(check_session_slot(&config, Some("main"), false, 1).is_ok());
}
