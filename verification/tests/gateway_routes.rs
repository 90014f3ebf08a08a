use skit::gateway_routes::{
    moq_connection_outcome, next_route_wait, MoqNodeReply, MoqGateway, MseConnectError, MseGateway,
    MOQ_ROUTE_POLL_MS, MOQ_ROUTE_WAIT_MS,
};

#[test]
fn test_stream_registration() {
    let mut gateway = MseGateway::new();
    gateway.register_stream("/mse/test/video", "session-1", "video/webm", 10).expect("Failed to register stream");
    assert_eq!(gateway.route_count(), 1);
    let result = gateway.register_stream("/mse/test/video", "session-2", "video/webm", 10);
    assert!(result.is_err());
    assert_eq!(result.unwrap_err(), "MSE stream path '/mse/test/video' is already registered");
    assert_eq!(gateway.route_count(), 1);
}

#[test]
fn test_stream_unregistration() {
    let mut gateway = MseGateway::new();
    gateway.register_stream("/mse/test/video", "session-1", "video/webm", 10).expect("Failed to register stream");
    assert_eq!(gateway.route_count(), 1);
    assert!(gateway.unregister_stream("/mse/test/video"));
    assert_eq!(gateway.route_count(), 0);
    assert!(!gateway.unregister_stream("/mse/test/video"));
}

#[test]
fn test_connect_client() {
    let mut gateway = MseGateway::new();
    gateway
        .register_stream("/mse/test/video", "session-1", "video/webm; codecs=\"vp9,opus\"", 10)
        .expect("Failed to register stream");
    let (content_type, _guard) = gateway.connect_client("/mse/test/video").expect("Failed to connect client");
    assert_eq!(content_type, "video/webm; codecs=\"vp9,opus\"");
}

#[test]
fn test_connect_client_no_route() {
    let mut gateway = MseGateway::new();
    let result = gateway.connect_client("/mse/nonexistent");
    assert!(matches!(result, Err(MseConnectError::NotFound)));
    assert_eq!(MseConnectError::NotFound.to_string(), "No MSE stream registered for this path");
}

#[test]
fn test_connect_client_at_capacity() {
    let mut gateway = MseGateway::new();
    gateway.register_stream("/mse/test/video", "session-1", "video/webm", 2).expect("Failed to register stream");
    let _c1 = gateway.connect_client("/mse/test/video").expect("Client 1 should connect");
    let _c2 = gateway.connect_client("/mse/test/video").expect("Client 2 should connect");
    let result = gateway.connect_client("/mse/test/video");
    assert!(matches!(result, Err(MseConnectError::AtCapacity)));
    assert_eq!(MseConnectError::AtCapacity.to_string(), "MSE stream at maximum client capacity");
}

#[test]
fn released_client_frees_its_place() {
    let mut gateway = MseGateway::new();
    gateway.register_stream("/mse/a", "s", "video/webm", 1).expect("register");
    let (_, guard) = gateway.connect_client("/mse/a").expect("first");
    assert!(matches!(gateway.connect_client("/mse/a"), Err(MseConnectError::AtCapacity)));
    gateway.release_client(guard);
    assert!(gateway.connect_client("/mse/a").is_ok());
}

#[test]
fn stale_guard_does_not_touch_a_new_registration() {
    let mut gateway = MseGateway::new();
    gateway.register_stream("/mse/a", "s", "video/webm", 1).expect("register");
    let (_, old_guard) = gateway.connect_client("/mse/a").expect("first");
    assert!(gateway.unregister_stream("/mse/a"));
    gateway.register_stream("/mse/a", "s2", "video/webm", 1).expect("register again");
    let _new = gateway.connect_client("/mse/a").expect("new stream admits");
    gateway.release_client(old_guard);
    assert!(matches!(gateway.connect_client("/mse/a"), Err(MseConnectError::AtCapacity)));
}

#[test]
fn test_route_registration() {
    let mut gateway = MoqGateway::new();
    gateway.register_route("/moq/anon", "session-1").expect("Failed to register route");
    assert_eq!(gateway.route_count(), 1);
    let result = gateway.register_route("/moq/anon", "session-2");
    assert!(result.is_err());
    assert_eq!(result.unwrap_err(), "Path pattern '/moq/anon' is already registered");
    assert_eq!(gateway.route_count(), 1);
}

#[test]
fn test_route_unregistration() {
    let mut gateway = MoqGateway::new();
    gateway.register_route("/moq/test", "session-1").expect("Failed to register route");
    assert_eq!(gateway.route_count(), 1);
    assert!(gateway.unregister_route("/moq/test"));
    assert_eq!(gateway.route_count(), 0);
    assert!(!gateway.has_route("/moq/test"));
}

#[test]
fn test_list_routes() {
    let mut gateway = MoqGateway::new();
    gateway.register_route("/moq/path1", "session-1").unwrap();
    gateway.register_route("/moq/path2", "session-2").unwrap();
    let routes = gateway.list_routes();
    assert_eq!(routes.len(), 2);
    assert!(routes.iter().any(|(p, s)| p == "/moq/path1" && s == "session-1"));
    assert!(routes.iter().any(|(p, s)| p == "/moq/path2" && s == "session-2"));
}

#[test]
fn route_wait_gives_up_after_the_limit() {
    assert_eq!(next_route_wait(0), Some(MOQ_ROUTE_POLL_MS));
    assert_eq!(next_route_wait(MOQ_ROUTE_WAIT_MS - 1), Some(MOQ_ROUTE_WAIT_MS - 1 + MOQ_ROUTE_POLL_MS));
    assert_eq!(next_route_wait(MOQ_ROUTE_WAIT_MS), None);
}

#[test]
fn moq_outcomes_carry_the_node_reply() {
    assert!(moq_connection_outcome("/moq/x", Some(MoqNodeReply::Accepted)).is_ok());
    assert_eq!(moq_connection_outcome("/moq/x", None).unwrap_err(), "No route found for path '/moq/x'");
    assert_eq!(
        moq_connection_outcome("/moq/x", Some(MoqNodeReply::Rejected("busy".to_string()))).unwrap_err(),
        "busy"
    );
    assert_eq!(moq_connection_outcome("/moq/x", Some(MoqNodeReply::NoReply)).unwrap_err(), "Node did not respond");
    assert_eq!(moq_connection_outcome("/moq/x", Some(MoqNodeReply::Disconnected)).unwrap_err(), "Node disconnected");
}

#[test]
fn a_guard_from_a_removed_stream_leaves_its_successor_alone() {
    let mut gateway = MseGateway::new();
    assert!(!gateway.registrations_exhausted());
    gateway.register_stream("/mse/a", "s1", "video/webm", 1).expect("register");
    let (_, old_guard) = gateway.connect_client("/mse/a").expect("admit");
    assert!(gateway.unregister_stream("/mse/a"));
    gateway.register_stream("/mse/a", "s2", "video/webm", 1).expect("register again");
    let (_, _new_guard) = gateway.connect_client("/mse/a").expect("admit to the new stream");
    gateway.release_client(old_guard);
    assert!(matches!(gateway.connect_client("/mse/a"), Err(MseConnectError::AtCapacity)));
}
