//! The batch of graph operations that turns a running pipeline into a
//! desired one: disconnects, then node removals, then additions, then
//! connections; plus the surviving nodes whose parameters changed.
use vstd::prelude::*;

use crate::http_inputs::{ConnectionMode, PipelineConnection};
use crate::text::str_equal;

verus! {

/// A node of a pipeline graph; `params` is the node's parameters as
/// canonical JSON text, when it has any.
#[derive(Debug, Clone)]
pub struct GraphNode {
    pub id: String,
    pub kind: String,
    pub params: Option<String>,
}

/// One graph operation of a batch.
#[derive(Debug, Clone)]
pub enum BatchOp {
    Disconnect { from_node: String, from_pin: String, to_node: String, to_pin: String },
    RemoveNode { node_id: String },
    AddNode { node_id: String, kind: String, params: Option<String> },
    Connect { from_node: String, from_pin: String, to_node: String, to_pin: String, mode: ConnectionMode },
}

/// What a batch operation is, as contracts see it.
pub enum BatchOpView {
    Disconnect { from_node: Seq<char>, from_pin: Seq<char>, to_node: Seq<char>, to_pin: Seq<char> },
    RemoveNode { node_id: Seq<char> },
    AddNode { node_id: Seq<char>, kind: Seq<char>, params: Option<Seq<char>> },
    Connect {
        from_node: Seq<char>,
        from_pin: Seq<char>,
        to_node: Seq<char>,
        to_pin: Seq<char>,
        mode: ConnectionMode,
    },
}

pub open spec fn opt_text(o: Option<String>) -> Option<Seq<char>> {
    match o {
        Some(s) => Some(s@),
        None => None,
    }
}

pub open spec fn op_view(op: BatchOp) -> BatchOpView {
    match op {
        BatchOp::Disconnect { from_node, from_pin, to_node, to_pin } => BatchOpView::Disconnect {
            from_node: from_node@,
            from_pin: from_pin@,
            to_node: to_node@,
            to_pin: to_pin@,
        },
        BatchOp::RemoveNode { node_id } => BatchOpView::RemoveNode { node_id: node_id@ },
        BatchOp::AddNode { node_id, kind, params } => BatchOpView::AddNode {
            node_id: node_id@,
            kind: kind@,
            params: opt_text(params),
        },
        BatchOp::Connect { from_node, from_pin, to_node, to_pin, mode } => BatchOpView::Connect {
            from_node: from_node@,
            from_pin: from_pin@,
            to_node: to_node@,
            to_pin: to_pin@,
            mode,
        },
    }
}

pub open spec fn op_views(v: Seq<BatchOp>) -> Seq<BatchOpView> {
    v.map_values(|op: BatchOp| op_view(op))
}

/// The position of the node with id `id` (the first, were ids repeated).
pub open spec fn node_index(nodes: Seq<GraphNode>, id: Seq<char>) -> Option<int> {
    if exists|i: int|
        0 <= i < nodes.len() && nodes[i].id@ == id && forall|j: int| 0 <= j < i ==> nodes[j].id@ != id {
        Some(
            choose|i: int|
                0 <= i < nodes.len() && nodes[i].id@ == id && forall|j: int| 0 <= j < i ==> nodes[j].id@ != id,
        )
    } else {
        None
    }
}

pub open spec fn has_node(nodes: Seq<GraphNode>, id: Seq<char>) -> bool {
    node_index(nodes, id) is Some
}

/// A node present in both graphs whose kind differs: it is removed and
/// added again.
pub open spec fn replaced(current: Seq<GraphNode>, desired: Seq<GraphNode>, id: Seq<char>) -> bool {
    match (node_index(current, id), node_index(desired, id)) {
        (Some(c), Some(d)) => current[c].kind@ != desired[d].kind@,
        _ => false,
    }
}

/// Two connections are the same when both ends, both pins and the mode
/// agree.
pub open spec fn same_conn(a: PipelineConnection, b: PipelineConnection) -> bool {
    &&& a.from_node@ == b.from_node@
    &&& a.from_pin@ == b.from_pin@
    &&& a.to_node@ == b.to_node@
    &&& a.to_pin@ == b.to_pin@
    &&& a.mode == b.mode
}

pub open spec fn has_conn(conns: Seq<PipelineConnection>, c: PipelineConnection) -> bool {
    exists|i: int| 0 <= i < conns.len() && same_conn(conns[i], c)
}

/// A current connection is disconnected when it is gone from the desired
/// graph or touches a replaced node, and both its ends survive (a removed
/// node takes its connections with it).
pub open spec fn disconnects(
    current: Seq<GraphNode>,
    desired: Seq<GraphNode>,
    desired_conns: Seq<PipelineConnection>,
    c: PipelineConnection,
) -> bool {
    &&& (!has_conn(desired_conns, c) || replaced(current, desired, c.from_node@) || replaced(
        current,
        desired,
        c.to_node@,
    ))
    &&& has_node(desired, c.from_node@)
    &&& has_node(desired, c.to_node@)
}

pub open spec fn removes(current: Seq<GraphNode>, desired: Seq<GraphNode>, n: GraphNode) -> bool {
    !has_node(desired, n.id@) || replaced(current, desired, n.id@)
}

pub open spec fn adds(current: Seq<GraphNode>, desired: Seq<GraphNode>, n: GraphNode) -> bool {
    !has_node(current, n.id@) || replaced(current, desired, n.id@)
}

pub open spec fn connects(
    current: Seq<GraphNode>,
    desired: Seq<GraphNode>,
    current_conns: Seq<PipelineConnection>,
    c: PipelineConnection,
) -> bool {
    !has_conn(current_conns, c) || replaced(current, desired, c.from_node@) || replaced(
        current,
        desired,
        c.to_node@,
    )
}

/// A surviving node of unchanged kind whose desired parameters differ from
/// its current ones, when it has desired parameters.
pub open spec fn params_change(current: Seq<GraphNode>, desired: Seq<GraphNode>, n: GraphNode) -> bool {
    &&& has_node(current, n.id@)
    &&& !replaced(current, desired, n.id@)
    &&& opt_text(n.params) != opt_text(current[node_index(current, n.id@)->0].params)
    &&& n.params is Some
}

pub open spec fn disconnect_op(c: PipelineConnection) -> BatchOpView {
    BatchOpView::Disconnect {
        from_node: c.from_node@,
        from_pin: c.from_pin@,
        to_node: c.to_node@,
        to_pin: c.to_pin@,
    }
}

pub open spec fn connect_op(c: PipelineConnection) -> BatchOpView {
    BatchOpView::Connect {
        from_node: c.from_node@,
        from_pin: c.from_pin@,
        to_node: c.to_node@,
        to_pin: c.to_pin@,
        mode: c.mode,
    }
}

/// The operations that reconcile `current` into `desired`, in the order
/// they are applied.
pub open spec fn diff_ops(
    current: Seq<GraphNode>,
    current_conns: Seq<PipelineConnection>,
    desired: Seq<GraphNode>,
    desired_conns: Seq<PipelineConnection>,
) -> Seq<BatchOpView> {
    current_conns.filter(|c: PipelineConnection| disconnects(current, desired, desired_conns, c)).map_values(
        |c: PipelineConnection| disconnect_op(c),
    ) + current.filter(|n: GraphNode| removes(current, desired, n)).map_values(
        |n: GraphNode| BatchOpView::RemoveNode { node_id: n.id@ },
    ) + desired.filter(|n: GraphNode| adds(current, desired, n)).map_values(
        |n: GraphNode| BatchOpView::AddNode { node_id: n.id@, kind: n.kind@, params: opt_text(n.params) },
    ) + desired_conns.filter(|c: PipelineConnection| connects(current, desired, current_conns, c)).map_values(
        |c: PipelineConnection| connect_op(c),
    )
}

/// The surviving nodes whose parameters change, with their new parameters.
pub open spec fn diff_params(current: Seq<GraphNode>, desired: Seq<GraphNode>) -> Seq<(Seq<char>, Seq<char>)> {
    desired.filter(|n: GraphNode| params_change(current, desired, n)).map_values(
        |n: GraphNode| (n.id@, n.params->0@),
    )
}

/// The outcome of a diff.
#[derive(Debug)]
pub struct PipelineDiff {
    pub operations: Vec<BatchOp>,
    pub params_changed: Vec<(String, String)>,
}

/// Node ids are unique, as in the pipeline's map of nodes.
pub open spec fn distinct_ids(nodes: Seq<GraphNode>) -> bool {
    forall|i: int, j: int|
        0 <= i < nodes.len() && 0 <= j < nodes.len() && i != j ==> #[trigger] nodes[i].id@
            != #[trigger] nodes[j].id@
}

proof fn lemma_node_index_of_member(nodes: Seq<GraphNode>, i: int)
    requires
        distinct_ids(nodes),
        0 <= i < nodes.len(),
    ensures
        node_index(nodes, nodes[i].id@) == Some(i),
{
    let id = nodes[i].id@;
    assert forall|j: int| 0 <= j < i implies nodes[j].id@ != id by {
        assert(nodes[j].id@ != nodes[i].id@);
    }
    let k = choose|k: int|
        0 <= k < nodes.len() && nodes[k].id@ == id && forall|j: int| 0 <= j < k ==> nodes[j].id@ != id;
    if k != i {
        assert(nodes[k].id@ != nodes[i].id@);
    }
}

/// Diffing a pipeline against itself yields no operation and no parameter
/// change.
pub proof fn law_diff_against_itself_is_empty(nodes: Seq<GraphNode>, conns: Seq<PipelineConnection>)
    requires
        distinct_ids(nodes),
    ensures
        diff_ops(nodes, conns, nodes, conns).len() == 0,
        diff_params(nodes, nodes).len() == 0,
{
    assert forall|id: Seq<char>| !replaced(nodes, nodes, id) by {}
    let pd = |c: PipelineConnection| disconnects(nodes, nodes, conns, c);
    let pr = |n: GraphNode| removes(nodes, nodes, n);
    let pa = |n: GraphNode| adds(nodes, nodes, n);
    let pc = |c: PipelineConnection| connects(nodes, nodes, conns, c);
    let pp = |n: GraphNode| params_change(nodes, nodes, n);
    assert forall|k: int| 0 <= k < conns.len() implies !pd(conns[k]) && !pc(conns[k]) by {
        assert(same_conn(conns[k], conns[k]));
        assert(has_conn(conns, conns[k]));
    }
    assert forall|k: int| 0 <= k < nodes.len() implies !pr(nodes[k]) && !pa(nodes[k]) && !pp(nodes[k]) by {
        lemma_node_index_of_member(nodes, k);
    }
    assert(conns.all(|x: PipelineConnection| !pd(x)));
    assert(conns.all(|x: PipelineConnection| !pc(x)));
    assert(nodes.all(|x: GraphNode| !pr(x)));
    assert(nodes.all(|x: GraphNode| !pa(x)));
    assert(nodes.all(|x: GraphNode| !pp(x)));
    conns.lemma_all_neg_filter_empty(pd);
    conns.lemma_all_neg_filter_empty(pc);
    nodes.lemma_all_neg_filter_empty(pr);
    nodes.lemma_all_neg_filter_empty(pa);
    nodes.lemma_all_neg_filter_empty(pp);
}

proof fn lemma_op_of_member<T>(s: Seq<T>, pred: spec_fn(T) -> bool, f: spec_fn(T) -> BatchOpView, i: int)
    requires
        0 <= i < s.len(),
        pred(s[i]),
    ensures
        s.filter(pred).map_values(f).contains(f(s[i])),
{
    s.lemma_filter_contains(pred, i);
    let fl = s.filter(pred);
    let k = choose|k: int| 0 <= k < fl.len() && fl[k] == s[i];
    assert(fl.map_values(f)[k] == f(s[i]));
}

proof fn lemma_in_parts(a: Seq<BatchOpView>, b: Seq<BatchOpView>, c: Seq<BatchOpView>, d: Seq<BatchOpView>, x: BatchOpView)
    requires
        a.contains(x) || b.contains(x) || c.contains(x) || d.contains(x),
    ensures
        (a + b + c + d).contains(x),
{
    let all = a + b + c + d;
    if a.contains(x) {
        let k = choose|k: int| 0 <= k < a.len() && a[k] == x;
        assert(all[k] == x);
    } else if b.contains(x) {
        let k = choose|k: int| 0 <= k < b.len() && b[k] == x;
        assert(all[a.len() + k] == x);
    } else if c.contains(x) {
        let k = choose|k: int| 0 <= k < c.len() && c[k] == x;
        assert(all[a.len() + b.len() + k] == x);
    } else {
        let k = choose|k: int| 0 <= k < d.len() && d[k] == x;
        assert(all[a.len() + b.len() + c.len() + k] == x);
    }
}

/// A desired node whose id the running pipeline lacks, or has with another
/// kind, is added with its kind and parameters.
pub proof fn law_diff_adds_new_nodes(
    current: Seq<GraphNode>,
    current_conns: Seq<PipelineConnection>,
    desired: Seq<GraphNode>,
    desired_conns: Seq<PipelineConnection>,
    i: int,
)
    requires
        distinct_ids(current),
        distinct_ids(desired),
        0 <= i < desired.len(),
        forall|j: int| 0 <= j < current.len() && #[trigger] current[j].id@ == desired[i].id@ ==> current[j].kind@ != desired[i].kind@,
    ensures
        diff_ops(current, current_conns, desired, desired_conns).contains(
            BatchOpView::AddNode { node_id: desired[i].id@, kind: desired[i].kind@, params: opt_text(desired[i].params) },
        ),
{
    lemma_node_index_of_member(desired, i);
    let pa = |n: GraphNode| adds(current, desired, n);
    let fa = |n: GraphNode| BatchOpView::AddNode { node_id: n.id@, kind: n.kind@, params: opt_text(n.params) };
    if node_index(current, desired[i].id@) is Some {
        let j = node_index(current, desired[i].id@)->0;
        assert(current[j].id@ == desired[i].id@);
    }
    assert(pa(desired[i]));
    lemma_op_of_member(desired, pa, fa, i);
    let pd = |c: PipelineConnection| disconnects(current, desired, desired_conns, c);
    let pr = |n: GraphNode| removes(current, desired, n);
    let pc = |c: PipelineConnection| connects(current, desired, current_conns, c);
    lemma_in_parts(
        current_conns.filter(pd).map_values(|c: PipelineConnection| disconnect_op(c)),
        current.filter(pr).map_values(|n: GraphNode| BatchOpView::RemoveNode { node_id: n.id@ }),
        desired.filter(pa).map_values(fa),
        desired_conns.filter(pc).map_values(|c: PipelineConnection| connect_op(c)),
        fa(desired[i]),
    );
}

/// A running node whose id the desired pipeline lacks, or has with another
/// kind, is removed.
pub proof fn law_diff_removes_dropped_nodes(
    current: Seq<GraphNode>,
    current_conns: Seq<PipelineConnection>,
    desired: Seq<GraphNode>,
    desired_conns: Seq<PipelineConnection>,
    j: int,
)
    requires
        distinct_ids(current),
        distinct_ids(desired),
        0 <= j < current.len(),
        forall|i: int| 0 <= i < desired.len() && #[trigger] desired[i].id@ == current[j].id@ ==> desired[i].kind@ != current[j].kind@,
    ensures
        diff_ops(current, current_conns, desired, desired_conns).contains(BatchOpView::RemoveNode { node_id: current[j].id@ }),
{
    lemma_node_index_of_member(current, j);
    let pr = |n: GraphNode| removes(current, desired, n);
    let fr = |n: GraphNode| BatchOpView::RemoveNode { node_id: n.id@ };
    if node_index(desired, current[j].id@) is Some {
        let i = node_index(desired, current[j].id@)->0;
        assert(desired[i].id@ == current[j].id@);
    }
    assert(pr(current[j]));
    lemma_op_of_member(current, pr, fr, j);
    let pd = |c: PipelineConnection| disconnects(current, desired, desired_conns, c);
    let pa = |n: GraphNode| adds(current, desired, n);
    let pc = |c: PipelineConnection| connects(current, desired, current_conns, c);
    lemma_in_parts(
        current_conns.filter(pd).map_values(|c: PipelineConnection| disconnect_op(c)),
        current.filter(pr).map_values(fr),
        desired.filter(pa).map_values(|n: GraphNode| BatchOpView::AddNode { node_id: n.id@, kind: n.kind@, params: opt_text(n.params) }),
        desired_conns.filter(pc).map_values(|c: PipelineConnection| connect_op(c)),
        fr(current[j]),
    );
}

/// A desired connection that the running pipeline lacks is connected.
pub proof fn law_diff_connects_new_connections(
    current: Seq<GraphNode>,
    current_conns: Seq<PipelineConnection>,
    desired: Seq<GraphNode>,
    desired_conns: Seq<PipelineConnection>,
    k: int,
)
    requires
        0 <= k < desired_conns.len(),
        forall|j: int| 0 <= j < current_conns.len() ==> !same_conn(#[trigger] current_conns[j], desired_conns[k]),
    ensures
        diff_ops(current, current_conns, desired, desired_conns).contains(connect_op(desired_conns[k])),
{
    let pc = |c: PipelineConnection| connects(current, desired, current_conns, c);
    let fc = |c: PipelineConnection| connect_op(c);
    assert(pc(desired_conns[k]));
    lemma_op_of_member(desired_conns, pc, fc, k);
    let pd = |c: PipelineConnection| disconnects(current, desired, desired_conns, c);
    let pr = |n: GraphNode| removes(current, desired, n);
    let pa = |n: GraphNode| adds(current, desired, n);
    lemma_in_parts(
        current_conns.filter(pd).map_values(|c: PipelineConnection| disconnect_op(c)),
        current.filter(pr).map_values(|n: GraphNode| BatchOpView::RemoveNode { node_id: n.id@ }),
        desired.filter(pa).map_values(|n: GraphNode| BatchOpView::AddNode { node_id: n.id@, kind: n.kind@, params: opt_text(n.params) }),
        desired_conns.filter(pc).map_values(fc),
        fc(desired_conns[k]),
    );
}

/// A running connection that the desired pipeline drops, between two nodes
/// that both stay, is disconnected.
pub proof fn law_diff_disconnects_dropped_connections(
    current: Seq<GraphNode>,
    current_conns: Seq<PipelineConnection>,
    desired: Seq<GraphNode>,
    desired_conns: Seq<PipelineConnection>,
    k: int,
    a: int,
    b: int,
)
    requires
        distinct_ids(desired),
        0 <= k < current_conns.len(),
        forall|j: int| 0 <= j < desired_conns.len() ==> !same_conn(#[trigger] desired_conns[j], current_conns[k]),
        0 <= a < desired.len(),
        0 <= b < desired.len(),
        desired[a].id@ == current_conns[k].from_node@,
        desired[b].id@ == current_conns[k].to_node@,
    ensures
        diff_ops(current, current_conns, desired, desired_conns).contains(disconnect_op(current_conns[k])),
{
    lemma_node_index_of_member(desired, a);
    lemma_node_index_of_member(desired, b);
    let pd = |c: PipelineConnection| disconnects(current, desired, desired_conns, c);
    let fd = |c: PipelineConnection| disconnect_op(c);
    assert(pd(current_conns[k]));
    lemma_op_of_member(current_conns, pd, fd, k);
    let pr = |n: GraphNode| removes(current, desired, n);
    let pa = |n: GraphNode| adds(current, desired, n);
    let pc = |c: PipelineConnection| connects(current, desired, current_conns, c);
    lemma_in_parts(
        current_conns.filter(pd).map_values(fd),
        current.filter(pr).map_values(|n: GraphNode| BatchOpView::RemoveNode { node_id: n.id@ }),
        desired.filter(pa).map_values(|n: GraphNode| BatchOpView::AddNode { node_id: n.id@, kind: n.kind@, params: opt_text(n.params) }),
        desired_conns.filter(pc).map_values(|c: PipelineConnection| connect_op(c)),
        fd(current_conns[k]),
    );
}

/// A node that stays with its kind, and whose desired parameters are given
/// and differ from its current ones (also when it has none now), has its
/// new parameters among the parameter changes.
pub proof fn law_changed_params_are_applied(current: Seq<GraphNode>, desired: Seq<GraphNode>, i: int, j: int)
    requires
        distinct_ids(current),
        distinct_ids(desired),
        0 <= i < desired.len(),
        0 <= j < current.len(),
        desired[i].id@ == current[j].id@,
        desired[i].kind@ == current[j].kind@,
        desired[i].params is Some,
        current[j].params is None || current[j].params->0@ != desired[i].params->0@,
    ensures
        diff_params(current, desired).contains((desired[i].id@, desired[i].params->0@)),
{
    lemma_node_index_of_member(current, j);
    lemma_node_index_of_member(desired, i);
    let pp = |n: GraphNode| params_change(current, desired, n);
    assert(pp(desired[i]));
    desired.lemma_filter_contains(pp, i);
    let f = desired.filter(pp);
    let k = choose|k: int| 0 <= k < f.len() && f[k] == desired[i];
    let m = f.map_values(|n: GraphNode| (n.id@, n.params->0@));
    assert(m[k] == (desired[i].id@, desired[i].params->0@));
}

/// Every parameter change is that of a node that stays with its kind and
/// whose desired parameters are given and differ from its current ones.
pub proof fn law_applied_params_are_changes(current: Seq<GraphNode>, desired: Seq<GraphNode>, k: int)
    requires
        distinct_ids(desired),
        0 <= k < diff_params(current, desired).len(),
    ensures
        exists|i: int, j: int|
            0 <= i < desired.len() && 0 <= j < current.len() && #[trigger] desired[i].id@ == #[trigger] current[j].id@
                && desired[i].kind@ == current[j].kind@ && desired[i].params is Some
                && (current[j].params is None || current[j].params->0@ != desired[i].params->0@)
                && diff_params(current, desired)[k] == (desired[i].id@, desired[i].params->0@),
{
    let pp = |n: GraphNode| params_change(current, desired, n);
    let f = desired.filter(pp);
    desired.lemma_filter_pred(pp, k);
    assert(f.contains(f[k]));
    desired.lemma_filter_contains_rev(pp, f[k]);
    let i = choose|i: int| 0 <= i < desired.len() && desired[i] == f[k];
    let j = node_index(current, desired[i].id@)->0;
    assert(0 <= j < current.len() && current[j].id@ == desired[i].id@);
    lemma_node_index_of_member(desired, i);
    assert(diff_params(current, desired)[k] == (desired[i].id@, desired[i].params->0@));
}

// ---------------------------------------------------------------------------
// Executable
// ---------------------------------------------------------------------------

fn find_node(nodes: &Vec<GraphNode>, id: &str) -> (r: Option<usize>)
    ensures
        match r {
            Some(i) => node_index(nodes@, id@) == Some(i as int) && i < nodes@.len(),
            None => node_index(nodes@, id@) is None,
        },
{
    for i in 0..nodes.len()
        invariant
            forall|j: int| 0 <= j < i ==> nodes@[j].id@ != id@,
    {
        if str_equal(nodes[i].id.as_str(), id) {
            proof {
                let k = choose|k: int|
                    0 <= k < nodes@.len() && nodes@[k].id@ == id@ && forall|j: int|
                        0 <= j < k ==> nodes@[j].id@ != id@;
                assert(0 <= i < nodes@.len() && nodes@[i as int].id@ == id@ && forall|j: int|
                    0 <= j < i ==> nodes@[j].id@ != id@);
                if k < i {
                    assert(nodes@[k].id@ != id@);
                } else if k > i {
                    assert(nodes@[i as int].id@ != id@);
                }
            }
            return Some(i);
        }
    }
    None
}

fn conn_equal(a: &PipelineConnection, b: &PipelineConnection) -> (r: bool)
    ensures
        r == same_conn(*a, *b),
{
    str_equal(a.from_node.as_str(), b.from_node.as_str()) && str_equal(a.from_pin.as_str(), b.from_pin.as_str())
        && str_equal(a.to_node.as_str(), b.to_node.as_str()) && str_equal(
        a.to_pin.as_str(),
        b.to_pin.as_str(),
    ) && a.mode == b.mode
}

fn contains_conn(conns: &Vec<PipelineConnection>, c: &PipelineConnection) -> (r: bool)
    ensures
        r == has_conn(conns@, *c),
{
    for i in 0..conns.len()
        invariant
            forall|j: int| 0 <= j < i ==> !same_conn(conns@[j], *c),
    {
        if conn_equal(&conns[i], c) {
            assert(same_conn(conns@[i as int], *c));
            return true;
        }
    }
    false
}

fn is_replaced(current: &Vec<GraphNode>, desired: &Vec<GraphNode>, id: &str) -> (r: bool)
    ensures
        r == replaced(current@, desired@, id@),
{
    match (find_node(current, id), find_node(desired, id)) {
        (Some(c), Some(d)) => !str_equal(current[c].kind.as_str(), desired[d].kind.as_str()),
        _ => false,
    }
}

fn opt_equal(a: &Option<String>, b: &Option<String>) -> (r: bool)
    ensures
        r == (opt_text(*a) == opt_text(*b)),
{
    match (a, b) {
        (Some(x), Some(y)) => str_equal(x.as_str(), y.as_str()),
        (None, None) => true,
        _ => false,
    }
}

proof fn lemma_filter_step<T>(s: Seq<T>, pred: spec_fn(T) -> bool, i: int)
    requires
        0 <= i < s.len(),
    ensures
        s.take(i + 1).filter(pred) == if pred(s[i]) {
            s.take(i).filter(pred).push(s[i])
        } else {
            s.take(i).filter(pred)
        },
{
    reveal_with_fuel(Seq::<_>::filter, 1);
    assert(s.take(i + 1).drop_last() =~= s.take(i));
    assert(s.take(i + 1).last() == s[i]);
}

/// Computes the batch that reconciles the current graph into the desired
/// one, and the parameter changes of the nodes that survive.
pub fn diff_pipeline(
    current_nodes: &Vec<GraphNode>,
    current_conns: &Vec<PipelineConnection>,
    desired_nodes: &Vec<GraphNode>,
    desired_conns: &Vec<PipelineConnection>,
) -> (r: PipelineDiff)
    ensures
        op_views(r.operations@) == diff_ops(current_nodes@, current_conns@, desired_nodes@, desired_conns@),
        r.params_changed@.map_values(|p: (String, String)| (p.0@, p.1@)) == diff_params(
            current_nodes@,
            desired_nodes@,
        ),
{
    let ghost cur = current_nodes@;
    let ghost des = desired_nodes@;
    let ghost pd = |c: PipelineConnection| disconnects(cur, des, desired_conns@, c);
    let ghost pr = |n: GraphNode| removes(cur, des, n);
    let ghost pa = |n: GraphNode| adds(cur, des, n);
    let ghost pc = |c: PipelineConnection| connects(cur, des, current_conns@, c);
    let ghost pp = |n: GraphNode| params_change(cur, des, n);
    let mut ops: Vec<BatchOp> = Vec::new();

    // 1. Disconnects.
    for i in 0..current_conns.len()
        invariant
            cur == current_nodes@,
            des == desired_nodes@,
            pd == (|c: PipelineConnection| disconnects(cur, des, desired_conns@, c)),
            op_views(ops@) == current_conns@.take(i as int).filter(pd).map_values(
                |c: PipelineConnection| disconnect_op(c),
            ),
    {
        proof {
            lemma_filter_step(current_conns@, pd, i as int);
        }
        let c = &current_conns[i];
        let keep = (!contains_conn(desired_conns, c) || is_replaced(current_nodes, desired_nodes, c.from_node.as_str())
            || is_replaced(current_nodes, desired_nodes, c.to_node.as_str())) && find_node(
            desired_nodes,
            c.from_node.as_str(),
        ).is_some() && find_node(desired_nodes, c.to_node.as_str()).is_some();
        if keep {
            let ghost before = ops@;
            ops.push(
                BatchOp::Disconnect {
                    from_node: c.from_node.clone(),
                    from_pin: c.from_pin.clone(),
                    to_node: c.to_node.clone(),
                    to_pin: c.to_pin.clone(),
                },
            );
            assert(op_views(ops@) =~= op_views(before).push(disconnect_op(*c)));
        }
        assert(pd(*c) == keep);
    }
    assert(current_conns@.take(current_conns.len() as int) =~= current_conns@);
    let ghost ops1 = op_views(ops@);

    // 2. Removals.
    for i in 0..current_nodes.len()
        invariant
            cur == current_nodes@,
            des == desired_nodes@,
            pr == (|n: GraphNode| removes(cur, des, n)),
            op_views(ops@) == ops1 + current_nodes@.take(i as int).filter(pr).map_values(
                |n: GraphNode| BatchOpView::RemoveNode { node_id: n.id@ },
            ),
    {
        proof {
            lemma_filter_step(current_nodes@, pr, i as int);
        }
        let n = &current_nodes[i];
        let keep = find_node(desired_nodes, n.id.as_str()).is_none() || is_replaced(
            current_nodes,
            desired_nodes,
            n.id.as_str(),
        );
        if keep {
            let ghost before = ops@;
            ops.push(BatchOp::RemoveNode { node_id: n.id.clone() });
            assert(op_views(ops@) =~= op_views(before).push(BatchOpView::RemoveNode { node_id: n.id@ }));
        }
        assert(pr(*n) == keep);
    }
    assert(current_nodes@.take(current_nodes.len() as int) =~= current_nodes@);
    let ghost ops2 = op_views(ops@);

    // 3. Additions.
    for i in 0..desired_nodes.len()
        invariant
            cur == current_nodes@,
            des == desired_nodes@,
            pa == (|n: GraphNode| adds(cur, des, n)),
            op_views(ops@) == ops2 + desired_nodes@.take(i as int).filter(pa).map_values(
                |n: GraphNode| BatchOpView::AddNode { node_id: n.id@, kind: n.kind@, params: opt_text(n.params) },
            ),
    {
        proof {
            lemma_filter_step(desired_nodes@, pa, i as int);
        }
        let n = &desired_nodes[i];
        let keep = find_node(current_nodes, n.id.as_str()).is_none() || is_replaced(
            current_nodes,
            desired_nodes,
            n.id.as_str(),
        );
        if keep {
            let ghost before = ops@;
            ops.push(BatchOp::AddNode { node_id: n.id.clone(), kind: n.kind.clone(), params: n.params.clone() });
            assert(op_views(ops@) =~= op_views(before).push(
                BatchOpView::AddNode { node_id: n.id@, kind: n.kind@, params: opt_text(n.params) },
            ));
        }
        assert(pa(*n) == keep);
    }
    assert(desired_nodes@.take(desired_nodes.len() as int) =~= desired_nodes@);
    let ghost ops3 = op_views(ops@);

    // 4. Connections.
    for i in 0..desired_conns.len()
        invariant
            cur == current_nodes@,
            des == desired_nodes@,
            pc == (|c: PipelineConnection| connects(cur, des, current_conns@, c)),
            op_views(ops@) == ops3 + desired_conns@.take(i as int).filter(pc).map_values(
                |c: PipelineConnection| connect_op(c),
            ),
    {
        proof {
            lemma_filter_step(desired_conns@, pc, i as int);
        }
        let c = &desired_conns[i];
        let keep = !contains_conn(current_conns, c) || is_replaced(current_nodes, desired_nodes, c.from_node.as_str())
            || is_replaced(current_nodes, desired_nodes, c.to_node.as_str());
        if keep {
            let ghost before = ops@;
            ops.push(
                BatchOp::Connect {
                    from_node: c.from_node.clone(),
                    from_pin: c.from_pin.clone(),
                    to_node: c.to_node.clone(),
                    to_pin: c.to_pin.clone(),
                    mode: c.mode,
                },
            );
            assert(op_views(ops@) =~= op_views(before).push(connect_op(*c)));
        }
        assert(pc(*c) == keep);
    }
    assert(desired_conns@.take(desired_conns.len() as int) =~= desired_conns@);

    // 5. Parameter changes.
    let mut params_changed: Vec<(String, String)> = Vec::new();
    for i in 0..desired_nodes.len()
        invariant
            cur == current_nodes@,
            des == desired_nodes@,
            pp == (|n: GraphNode| params_change(cur, des, n)),
            params_changed@.map_values(|p: (String, String)| (p.0@, p.1@)) == desired_nodes@.take(
                i as int,
            ).filter(pp).map_values(|n: GraphNode| (n.id@, n.params->0@)),
    {
        proof {
            lemma_filter_step(desired_nodes@, pp, i as int);
        }
        let n = &desired_nodes[i];
        let mut keep = false;
        if !is_replaced(current_nodes, desired_nodes, n.id.as_str()) {
            if let Some(ci) = find_node(current_nodes, n.id.as_str()) {
                if !opt_equal(&n.params, &current_nodes[ci].params) {
                    if let Some(p) = &n.params {
                        let ghost before = params_changed@;
                        params_changed.push((n.id.clone(), p.clone()));
                        assert(params_changed@.map_values(|p: (String, String)| (p.0@, p.1@)) =~= before.map_values(
                            |p: (String, String)| (p.0@, p.1@),
                        ).push((n.id@, n.params->0@)));
                        keep = true;
                    }
                }
            }
        }
        assert(pp(*n) == keep);
    }
    assert(desired_nodes@.take(desired_nodes.len() as int) =~= desired_nodes@);
    PipelineDiff { operations: ops, params_changed }
}

} // verus!
