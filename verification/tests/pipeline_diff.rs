use skit::http_inputs::{ConnectionMode, PipelineConnection};
use skit::pipeline_diff::{diff_pipeline, BatchOp, GraphNode};

fn n(id: &str, kind: &str, params: Option<&str>) -> GraphNode {
    GraphNode { id: id.to_string(), kind: kind.to_string(), params: params.map(|p| p.to_string()) }
}

fn c(from: &str, to: &str) -> PipelineConnection {
    PipelineConnection {
        from_node: from.to_string(),
        from_pin: "out".to_string(),
        to_node: to.to_string(),
        to_pin: "in".to_string(),
        mode: ConnectionMode::Reliable,
    }
}

fn describe(op: &BatchOp) -> String {
    match op {
        BatchOp::Disconnect { from_node, to_node, .. } => format!("disconnect {from_node}->{to_node}"),
        BatchOp::RemoveNode { node_id } => format!("remove {node_id}"),
        BatchOp::AddNode { node_id, kind, .. } => format!("add {node_id}:{kind}"),
        BatchOp::Connect { from_node, to_node, .. } => format!("connect {from_node}->{to_node}"),
    }
}

#[test]
fn diff_against_itself_is_empty() {
    let nodes = vec![n("a", "k::a", Some("{}")), n("b", "k::b", None)];
    let conns = vec![c("a", "b")];
    let d = diff_pipeline(&nodes, &conns, &nodes, &conns);
    assert!(d.operations.is_empty());
    assert!(d.params_changed.is_empty());
}

#[test]
fn diff_orders_disconnects_removals_additions_connections() {
    let current = vec![n("a", "k::a", None), n("b", "k::b", None), n("c", "k::c", None)];
    let current_conns = vec![c("a", "b"), c("b", "c")];
    let desired = vec![n("a", "k::a", None), n("b", "k::b2", None), n("d", "k::d", None)];
    let desired_conns = vec![c("a", "b"), c("b", "d")];
    let d = diff_pipeline(&current, &current_conns, &desired, &desired_conns);
    let ops: Vec<String> = d.operations.iter().map(describe).collect();
    assert_eq!(
        ops,
        vec![
            "disconnect a->b",
            "remove b",
            "remove c",
            "add b:k::b2",
            "add d:k::d",
            "connect a->b",
            "connect b->d",
        ]
    );
}

#[test]
fn diff_reports_changed_params_of_surviving_nodes() {
    let current = vec![n("a", "k::a", Some("{\"gain\":1}")), n("b", "k::b", Some("{}"))];
    let desired = vec![n("a", "k::a", Some("{\"gain\":2}")), n("b", "k::b", None)];
    let d = diff_pipeline(&current, &vec![], &desired, &vec![]);
    assert!(d.operations.is_empty());
    assert_eq!(d.params_changed, vec![("a".to_string(), "{\"gain\":2}".to_string())]);
}
