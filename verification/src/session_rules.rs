//! The rules of the HTTP session and one-shot endpoints: who may create,
//! list, inspect or destroy a session, which pipelines a dynamic session or
//! a one-shot run accepts, which file paths must be checked before a
//! pipeline runs, and how errors are answered.
use vstd::prelude::*;

use crate::mcp_tools::{opt_seq, session_visible};
use crate::permissions::{allowlist_admits, texts, Permissions, PermissionsConfig};
use crate::text::{chars_of, extend_str, has_prefix, starts_with, str_equal, string_of, trim, trim_chars};

verus! {

/// A refused request: the HTTP status and the response body.
#[derive(Debug, Clone)]
pub struct HttpRefusal {
    pub status: u16,
    pub message: String,
}

pub open spec fn refusal_is(r: HttpRefusal, status: u16, message: Seq<char>) -> bool {
    r.status == status && r.message@ == message
}

fn refusal(status: u16, message: Vec<char>) -> (r: HttpRefusal)
    ensures
        r.status == status,
        r.message@ == message@,
{
    HttpRefusal { status, message: string_of(&message) }
}

// ---------------------------------------------------------------------------
// Sessions
// ---------------------------------------------------------------------------

/// Checks a request to create a session named `name` (if named), given
/// whether that name is taken and how many sessions run.
pub fn check_session_creation(
    perms: &Permissions,
    config: &PermissionsConfig,
    name: Option<&str>,
    name_taken: bool,
    current_count: usize,
) -> (r: Result<(), HttpRefusal>)
    ensures
        !perms.create_sessions ==> (r matches Err(e) && refusal_is(e, 403, "Permission denied: cannot create sessions"@)),
        perms.create_sessions && name is Some && name_taken ==> (r matches Err(e) && refusal_is(
            e,
            409,
            "Failed to create session: Session with name '"@ + name->0@ + "' already exists"@,
        )),
        perms.create_sessions && !(name is Some && name_taken) && !(match config.max_concurrent_sessions {
            None => true,
            Some(max) => current_count < max,
        }) ==> (r matches Err(e) && refusal_is(e, 429, "Maximum concurrent sessions limit reached"@)),
        perms.create_sessions && !(name is Some && name_taken) && (match config.max_concurrent_sessions {
            None => true,
            Some(max) => current_count < max,
        }) ==> r is Ok,
{
    if !perms.create_sessions {
        return Err(refusal(403, chars_of("Permission denied: cannot create sessions")));
    }
    if let Some(n) = name {
        if name_taken {
            let mut m = chars_of("Failed to create session: Session with name '");
            extend_str(&mut m, n);
            extend_str(&mut m, "' already exists");
            return Err(refusal(409, m));
        }
    }
    if !config.can_accept_session(current_count) {
        return Err(refusal(429, chars_of("Maximum concurrent sessions limit reached")));
    }
    Ok(())
}

/// The answer when adding a created session to the manager failed with
/// `message`: the session limit (429) or anything else (500).
pub fn session_insert_refusal(message: &str) -> (r: HttpRefusal)
    ensures
        message@ == "Maximum concurrent sessions limit reached"@ ==> refusal_is(r, 429, message@),
        message@ != "Maximum concurrent sessions limit reached"@ ==> refusal_is(
            r,
            500,
            "Failed to create session: "@ + message@,
        ),
{
    if str_equal(message, "Maximum concurrent sessions limit reached") {
        refusal(429, chars_of(message))
    } else {
        let mut m = chars_of("Failed to create session: ");
        extend_str(&mut m, message);
        refusal(500, m)
    }
}

pub open spec fn is_oneshot_marker(kind: Seq<char>) -> bool {
    kind == "streamkit::http_input"@ || kind == "streamkit::http_output"@
}

/// The first refusal of a dynamic session's nodes (id, kind), in order.
pub open spec fn dynamic_node_refusal(perms: Permissions, nodes: Seq<(Seq<char>, Seq<char>)>) -> Option<(u16, Seq<char>)>
    decreases nodes.len(),
{
    if nodes.len() == 0 {
        None
    } else {
        let (id, kind) = nodes[0];
        if is_oneshot_marker(kind) {
            Some((400u16, "Node '"@ + id + "' kind '"@ + kind + "' is oneshot-only and cannot be used in dynamic sessions"@))
        } else if !allowlist_admits(texts(perms.allowed_nodes@), kind) {
            Some((403u16, "Permission denied: node '"@ + id + "' kind '"@ + kind + "' not allowed"@))
        } else if has_prefix(kind, "plugin::"@) && !allowlist_admits(texts(perms.allowed_plugins@), kind) {
            Some((403u16, "Permission denied: node '"@ + id + "' plugin '"@ + kind + "' not allowed"@))
        } else {
            dynamic_node_refusal(perms, nodes.skip(1))
        }
    }
}

pub open spec fn pair_texts(v: Seq<(String, String)>) -> Seq<(Seq<char>, Seq<char>)> {
    v.map_values(|p: (String, String)| (p.0@, p.1@))
}

fn is_oneshot_marker_kind(kind: &str) -> (r: bool)
    ensures
        r == is_oneshot_marker(kind@),
{
    str_equal(kind, "streamkit::http_input") || str_equal(kind, "streamkit::http_output")
}

fn is_plugin_kind(kind: &str) -> (r: bool)
    ensures
        r == has_prefix(kind@, "plugin::"@),
{
    let k = chars_of(kind);
    let p = chars_of("plugin::");
    starts_with(&k, &p)
}

/// Checks the nodes `(id, kind)` of a dynamic session's pipeline: it has
/// some; the one-shot markers are refused; every kind must be allowed, and
/// a plugin kind must be an allowed plugin.
pub fn check_dynamic_pipeline_nodes(perms: &Permissions, nodes: &Vec<(String, String)>) -> (r: Result<(), HttpRefusal>)
    ensures
        nodes@.len() == 0 ==> (r matches Err(e) && refusal_is(
            e,
            400,
            "Pipeline is empty. Add some nodes before creating a session."@,
        )),
        nodes@.len() > 0 ==> match dynamic_node_refusal(*perms, pair_texts(nodes@)) {
            None => r is Ok,
            Some((status, message)) => r matches Err(e) && refusal_is(e, status, message),
        },
{
    if nodes.len() == 0 {
        return Err(refusal(400, chars_of("Pipeline is empty. Add some nodes before creating a session.")));
    }
    let ghost all = pair_texts(nodes@);
    assert(all.skip(0) =~= all);
    for i in 0..nodes.len()
        invariant
            all == pair_texts(nodes@),
            dynamic_node_refusal(*perms, all) == dynamic_node_refusal(*perms, all.skip(i as int)),
    {
        let ghost rest = all.skip(i as int);
        assert(rest[0] == (nodes@[i as int].0@, nodes@[i as int].1@));
        assert(rest.skip(1) =~= all.skip(i + 1));
        let id = nodes[i].0.as_str();
        let kind = nodes[i].1.as_str();
        if is_oneshot_marker_kind(kind) {
            let mut m = chars_of("Node '");
            extend_str(&mut m, id);
            extend_str(&mut m, "' kind '");
            extend_str(&mut m, kind);
            extend_str(&mut m, "' is oneshot-only and cannot be used in dynamic sessions");
            return Err(refusal(400, m));
        }
        if !perms.is_node_allowed(kind) {
            let mut m = chars_of("Permission denied: node '");
            extend_str(&mut m, id);
            extend_str(&mut m, "' kind '");
            extend_str(&mut m, kind);
            extend_str(&mut m, "' not allowed");
            return Err(refusal(403, m));
        }
        if is_plugin_kind(kind) && !perms.is_plugin_allowed(kind) {
            let mut m = chars_of("Permission denied: node '");
            extend_str(&mut m, id);
            extend_str(&mut m, "' plugin '");
            extend_str(&mut m, kind);
            extend_str(&mut m, "' not allowed");
            return Err(refusal(403, m));
        }
    }
    assert(all.skip(nodes.len() as int) =~= Seq::<(Seq<char>, Seq<char>)>::empty());
    Ok(())
}

/// The positions of the sessions (given by their recorded creators) that a
/// caller of `role` is shown.
pub fn visible_sessions(perms: &Permissions, role: &str, creators: &Vec<Option<String>>) -> (r: Vec<usize>)
    ensures
        forall|k: int| 0 <= k < r@.len() ==> (#[trigger] r@[k]) < creators@.len(),
        forall|a: int, b: int| 0 <= a < b < r@.len() ==> r@[a] < r@[b],
        forall|i: int|
            0 <= i < creators@.len() ==> (session_visible(*perms, role@, opt_seq(#[trigger] creators@[i]))
                <==> r@.contains(i as usize)),
{
    let mut r: Vec<usize> = Vec::new();
    for i in 0..creators.len()
        invariant
            forall|k: int| 0 <= k < r@.len() ==> (#[trigger] r@[k]) < i,
            forall|a: int, b: int| 0 <= a < b < r@.len() ==> r@[a] < r@[b],
            forall|j: int| 0 <= j < i ==> (session_visible(*perms, role@, opt_seq(#[trigger] creators@[j])) <==> r@.contains(j as usize)),
    {
        let visible = match &creators[i] {
            Some(c) => perms.may_access_session(Some(c.as_str()), role),
            None => perms.may_access_session(None, role),
        };
        let ghost before = r@;
        if visible {
            r.push(i);
            assert forall|j: int| 0 <= j < i + 1 implies (session_visible(*perms, role@, opt_seq(#[trigger] creators@[j])) <==> r@.contains(j as usize)) by {
                if j < i {
                    if before.contains(j as usize) {
                        let k = choose|k: int| 0 <= k < before.len() && before[k] == j as usize;
                        assert(r@[k] == j as usize);
                    }
                    if r@.contains(j as usize) {
                        let k = choose|k: int| 0 <= k < r@.len() && r@[k] == j as usize;
                        if k < before.len() {
                            assert(before[k] == j as usize);
                        }
                    }
                } else {
                    assert(r@[r@.len() - 1] == i);
                }
            }
        } else {
            assert(!r@.contains(i));
        }
    }
    r
}

/// Checks a request on one session: the permission (`granted`, refused
/// with `denied` and 403), then that the session exists (404), then that the
/// caller sees it (403). `session` is the creator recorded by the session
/// found, if one was.
pub fn check_session_target(
    perms: &Permissions,
    role: &str,
    granted: bool,
    denied: &str,
    session_id: &str,
    session: Option<Option<String>>,
) -> (r: Result<(), HttpRefusal>)
    ensures
        !granted ==> (r matches Err(e) && refusal_is(e, 403, denied@)),
        granted && session is None ==> (r matches Err(e) && refusal_is(
            e,
            404,
            "Session '"@ + session_id@ + "' not found"@,
        )),
        granted && session is Some && !session_visible(*perms, role@, opt_seq(session->0)) ==> (
        r matches Err(e) && refusal_is(e, 403, "Permission denied: you do not own this session"@)),
        granted && session is Some && session_visible(*perms, role@, opt_seq(session->0)) ==> r is Ok,
{
    if !granted {
        return Err(refusal(403, chars_of(denied)));
    }
    match session {
        None => {
            let mut m = chars_of("Session '");
            extend_str(&mut m, session_id);
            extend_str(&mut m, "' not found");
            Err(refusal(404, m))
        },
        Some(created_by) => {
            let visible = match &created_by {
                Some(c) => perms.may_access_session(Some(c.as_str()), role),
                None => perms.may_access_session(None, role),
            };
            if visible {
                Ok(())
            } else {
                Err(refusal(403, chars_of("Permission denied: you do not own this session")))
            }
        },
    }
}

// ---------------------------------------------------------------------------
// One-shot pipelines
// ---------------------------------------------------------------------------

/// Checks that a caller may run one-shot pipelines.
pub fn check_oneshot_permission(perms: &Permissions) -> (r: Result<(), HttpRefusal>)
    ensures
        perms.create_sessions ==> r is Ok,
        !perms.create_sessions ==> (r matches Err(e) && refusal_is(
            e,
            403,
            "Permission denied: cannot execute oneshot pipelines"@,
        )),
{
    if perms.create_sessions {
        Ok(())
    } else {
        Err(refusal(403, chars_of("Permission denied: cannot execute oneshot pipelines")))
    }
}

/// The shape of a one-shot pipeline: whether it has an HTTP input, a file
/// reader and an HTTP output.
pub open spec fn has_kind(kinds: Seq<Seq<char>>, kind: Seq<char>) -> bool {
    kinds.contains(kind)
}

pub open spec fn count_other_than_output(kinds: Seq<Seq<char>>) -> nat
    decreases kinds.len(),
{
    if kinds.len() == 0 {
        0
    } else {
        count_other_than_output(kinds.drop_last()) + if kinds.last() != "streamkit::http_output"@ {
            1nat
        } else {
            0nat
        }
    }
}

/// Checks that a one-shot pipeline (its node kinds) can run: it has an
/// HTTP output, and when it reads neither an HTTP input nor a file it has
/// some node that generates data. Gives whether it has an HTTP input, a
/// file reader and an HTTP output.
pub fn validate_pipeline_nodes(kinds: &Vec<String>) -> (r: Result<(bool, bool, bool), HttpRefusal>)
    ensures
        ({
            let ks = texts(kinds@);
            let input = has_kind(ks, "streamkit::http_input"@);
            let reader = has_kind(ks, "core::file_reader"@);
            let output = has_kind(ks, "streamkit::http_output"@);
            &&& !output ==> (r matches Err(e) && refusal_is(
                e,
                400,
                "Pipeline must contain one 'streamkit::http_output' node for oneshot processing"@,
            ))
            &&& output && !input && !reader && count_other_than_output(ks) == 0 ==> (r matches Err(e)
                && refusal_is(
                e,
                400,
                "Generator-mode pipeline must contain at least one node besides 'streamkit::http_output'"@,
            ))
            &&& output && (input || reader || count_other_than_output(ks) > 0) ==> r == Ok::<
                (bool, bool, bool),
                HttpRefusal,
            >((input, reader, output))
        }),
{
    let ghost ks = texts(kinds@);
    let mut input = false;
    let mut reader = false;
    let mut output = false;
    let mut others: usize = 0;
    for i in 0..kinds.len()
        invariant
            ks == texts(kinds@),
            input == has_kind(texts(kinds@.take(i as int)), "streamkit::http_input"@),
            reader == has_kind(texts(kinds@.take(i as int)), "core::file_reader"@),
            output == has_kind(texts(kinds@.take(i as int)), "streamkit::http_output"@),
            others == count_other_than_output(texts(kinds@.take(i as int))),
            others <= i,
    {
        let ghost prev = texts(kinds@.take(i as int));
        let ghost next = texts(kinds@.take(i + 1));
        assert(next =~= prev.push(kinds@[i as int]@));
        assert(next.drop_last() =~= prev);
        let k = kinds[i].as_str();
        let is_in = str_equal(k, "streamkit::http_input");
        let is_reader = str_equal(k, "core::file_reader");
        let is_out = str_equal(k, "streamkit::http_output");
        proof {
            assert(next[i as int] == kinds@[i as int]@);
            assert forall|x: Seq<char>| next.contains(x) <==> (prev.contains(x) || x == kinds@[i as int]@) by {
                if next.contains(x) {
                    let k2 = choose|k2: int| 0 <= k2 < next.len() && next[k2] == x;
                    if k2 < i {
                        assert(prev[k2] == x);
                    }
                }
                if prev.contains(x) {
                    let k2 = choose|k2: int| 0 <= k2 < prev.len() && prev[k2] == x;
                    assert(next[k2] == x);
                }
            }
        }
        input = input || is_in;
        reader = reader || is_reader;
        output = output || is_out;
        if !is_out {
            others = others + 1;
        }
    }
    assert(kinds@.take(kinds.len() as int) =~= kinds@);
    if !output {
        return Err(refusal(400, chars_of("Pipeline must contain one 'streamkit::http_output' node for oneshot processing")));
    }
    if !input && !reader && others == 0 {
        return Err(
            refusal(
                400,
                chars_of("Generator-mode pipeline must contain at least one node besides 'streamkit::http_output'"),
            ),
        );
    }
    Ok((input, reader, output))
}

/// The first refusal of a one-shot pipeline's nodes (id, kind), in order;
/// the one-shot markers are always allowed.
pub open spec fn oneshot_node_refusal(perms: Permissions, nodes: Seq<(Seq<char>, Seq<char>)>) -> Option<Seq<char>>
    decreases nodes.len(),
{
    if nodes.len() == 0 {
        None
    } else {
        let (id, kind) = nodes[0];
        if is_oneshot_marker(kind) {
            oneshot_node_refusal(perms, nodes.skip(1))
        } else if !allowlist_admits(texts(perms.allowed_nodes@), kind) {
            Some("Permission denied: node type '"@ + kind + "' not allowed (node '"@ + id + "')"@)
        } else if has_prefix(kind, "plugin::"@) && !allowlist_admits(texts(perms.allowed_plugins@), kind) {
            Some("Permission denied: plugin '"@ + kind + "' not allowed (node '"@ + id + "')"@)
        } else {
            oneshot_node_refusal(perms, nodes.skip(1))
        }
    }
}

/// Checks the nodes `(id, kind)` of a one-shot pipeline against the
/// caller's allowlists (403 on the first refused node).
pub fn check_oneshot_node_kinds(perms: &Permissions, nodes: &Vec<(String, String)>) -> (r: Result<(), HttpRefusal>)
    ensures
        match oneshot_node_refusal(*perms, pair_texts(nodes@)) {
            None => r is Ok,
            Some(message) => r matches Err(e) && refusal_is(e, 403, message),
        },
{
    let ghost all = pair_texts(nodes@);
    assert(all.skip(0) =~= all);
    for i in 0..nodes.len()
        invariant
            all == pair_texts(nodes@),
            oneshot_node_refusal(*perms, all) == oneshot_node_refusal(*perms, all.skip(i as int)),
    {
        let ghost rest = all.skip(i as int);
        assert(rest[0] == (nodes@[i as int].0@, nodes@[i as int].1@));
        assert(rest.skip(1) =~= all.skip(i + 1));
        let id = nodes[i].0.as_str();
        let kind = nodes[i].1.as_str();
        if !is_oneshot_marker_kind(kind) {
            if !perms.is_node_allowed(kind) {
                let mut m = chars_of("Permission denied: node type '");
                extend_str(&mut m, kind);
                extend_str(&mut m, "' not allowed (node '");
                extend_str(&mut m, id);
                extend_str(&mut m, "')");
                return Err(refusal(403, m));
            }
            if is_plugin_kind(kind) && !perms.is_plugin_allowed(kind) {
                let mut m = chars_of("Permission denied: plugin '");
                extend_str(&mut m, kind);
                extend_str(&mut m, "' not allowed (node '");
                extend_str(&mut m, id);
                extend_str(&mut m, "')");
                return Err(refusal(403, m));
            }
        }
    }
    assert(all.skip(nodes.len() as int) =~= Seq::<(Seq<char>, Seq<char>)>::empty());
    Ok(())
}

// ---------------------------------------------------------------------------
// File path checks
// ---------------------------------------------------------------------------

/// A path parameter of a node: absent, not a string, or a string.
#[derive(Debug, Clone)]
pub enum PathParam {
    Absent,
    NotText,
    Text(String),
}

/// What the path checks read of a node: its id, its kind, whether it has
/// parameters, and its `path` and `script_path` parameters.
#[derive(Debug, Clone)]
pub struct NodePaths {
    pub id: String,
    pub kind: String,
    pub has_params: bool,
    pub path: PathParam,
    pub script_path: PathParam,
}

/// Which check a path needs: one read by a file reader or a script, or one
/// written by a file writer.
#[derive(Debug, Clone, Copy, PartialEq, Eq, Structural)]
pub enum PathUse {
    Read,
    Write,
    Script,
}

/// One step of the path checks, in the order they are made: check a path,
/// or refuse the pipeline (400) with a message.
#[derive(Debug, Clone)]
pub enum PathStep {
    Check { node_id: String, path: String, usage: PathUse },
    Refuse(String),
}

pub enum PathStepView {
    Check { node_id: Seq<char>, path: Seq<char>, usage: PathUse },
    Refuse(Seq<char>),
}

pub open spec fn step_view(s: PathStep) -> PathStepView {
    match s {
        PathStep::Check { node_id, path, usage } => PathStepView::Check {
            node_id: node_id@,
            path: path@,
            usage,
        },
        PathStep::Refuse(m) => PathStepView::Refuse(m@),
    }
}

pub open spec fn reader_steps(nodes: Seq<NodePaths>) -> Seq<PathStepView>
    decreases nodes.len(),
{
    if nodes.len() == 0 {
        Seq::empty()
    } else {
        let n = nodes.last();
        reader_steps(nodes.drop_last()) + if n.kind@ == "core::file_reader"@ && n.has_params && n.path is Text {
            seq![PathStepView::Check { node_id: n.id@, path: n.path->Text_0@, usage: PathUse::Read }]
        } else {
            Seq::empty()
        }
    }
}

/// The writer checks; a writer without a string `path` refuses the
/// pipeline, and nothing after it is checked.
pub open spec fn writer_steps(nodes: Seq<NodePaths>) -> Seq<PathStepView>
    decreases nodes.len(),
{
    if nodes.len() == 0 {
        Seq::empty()
    } else {
        let n = nodes[0];
        if n.kind@ != "core::file_writer"@ {
            writer_steps(nodes.skip(1))
        } else if !n.has_params {
            seq![PathStepView::Refuse("Invalid file_writer params in node '"@ + n.id@ + "': expected params.path"@)]
        } else if !(n.path is Text) {
            seq![
                PathStepView::Refuse(
                    "Invalid file_writer params in node '"@ + n.id@ + "': expected params.path to be a string"@,
                ),
            ]
        } else {
            seq![PathStepView::Check { node_id: n.id@, path: n.path->Text_0@, usage: PathUse::Write }]
                + writer_steps(nodes.skip(1))
        }
    }
}

pub open spec fn script_steps(nodes: Seq<NodePaths>) -> Seq<PathStepView>
    decreases nodes.len(),
{
    if nodes.len() == 0 {
        Seq::empty()
    } else {
        let n = nodes.last();
        script_steps(nodes.drop_last()) + if n.kind@ == "core::script"@ && n.has_params && n.script_path is Text
            && trim(n.script_path->Text_0@).len() > 0 {
            seq![PathStepView::Check { node_id: n.id@, path: n.script_path->Text_0@, usage: PathUse::Script }]
        } else {
            Seq::empty()
        }
    }
}

pub open spec fn ends_in_refusal(s: Seq<PathStepView>) -> bool {
    s.len() > 0 && s.last() is Refuse
}

/// The path checks of a pipeline, in order: file readers, then file writers,
/// then scripts; a refusal ends them.
pub open spec fn path_steps(nodes: Seq<NodePaths>) -> Seq<PathStepView> {
    let w = writer_steps(nodes);
    if ends_in_refusal(w) {
        reader_steps(nodes) + w
    } else {
        reader_steps(nodes) + w + script_steps(nodes)
    }
}

/// The message of a failed check of `path_error` for the node.
pub open spec fn path_check_message(usage: PathUse, node_id: Seq<char>, path_error: Seq<char>) -> Seq<char> {
    match usage {
        PathUse::Read => "Invalid file path in node '"@ + node_id + "': "@ + path_error,
        PathUse::Write => "Invalid write path in node '"@ + node_id + "': "@ + path_error,
        PathUse::Script => "Invalid script_path in node '"@ + node_id + "': "@ + path_error,
    }
}

/// The message of a failed path check.
pub fn path_check_error(usage: PathUse, node_id: &str, path_error: &str) -> (r: String)
    ensures
        r@ == path_check_message(usage, node_id@, path_error@),
{
    let mut m = match usage {
        PathUse::Read => chars_of("Invalid file path in node '"),
        PathUse::Write => chars_of("Invalid write path in node '"),
        PathUse::Script => chars_of("Invalid script_path in node '"),
    };
    extend_str(&mut m, node_id);
    extend_str(&mut m, "': ");
    extend_str(&mut m, path_error);
    string_of(&m)
}

pub open spec fn step_views(v: Seq<PathStep>) -> Seq<PathStepView> {
    v.map_values(|s: PathStep| step_view(s))
}

/// The path checks a pipeline needs before it runs, in order.
pub fn path_check_steps(nodes: &Vec<NodePaths>) -> (r: Vec<PathStep>)
    ensures
        step_views(r@) == path_steps(nodes@),
{
    let mut steps: Vec<PathStep> = Vec::new();
    for i in 0..nodes.len()
        invariant
            step_views(steps@) == reader_steps(nodes@.take(i as int)),
    {
        assert(nodes@.take(i + 1).drop_last() =~= nodes@.take(i as int));
        assert(nodes@.take(i + 1).last() == nodes@[i as int]);
        let n = &nodes[i];
        let ghost before = step_views(steps@);
        if str_equal(n.kind.as_str(), "core::file_reader") && n.has_params {
            if let PathParam::Text(p) = &n.path {
                steps.push(PathStep::Check { node_id: n.id.clone(), path: p.clone(), usage: PathUse::Read });
                assert(step_views(steps@) =~= before + seq![
                    PathStepView::Check { node_id: n.id@, path: p@, usage: PathUse::Read },
                ]);
            } else {
                assert(step_views(steps@) =~= before + Seq::<PathStepView>::empty());
            }
        } else {
            assert(step_views(steps@) =~= before + Seq::<PathStepView>::empty());
        }
    }
    assert(nodes@.take(nodes.len() as int) =~= nodes@);
    let ghost readers = step_views(steps@);
    // Writers, stopping at the first refusal.
    assert(nodes@.skip(0) =~= nodes@);
    let mut i: usize = 0;
    let mut refused = false;
    while i < nodes.len() && !refused
        invariant
            i <= nodes.len(),
            readers == reader_steps(nodes@),
            !refused ==> step_views(steps@) + writer_steps(nodes@.skip(i as int)) == readers + writer_steps(nodes@),
            !refused ==> ends_in_refusal(writer_steps(nodes@)) == ends_in_refusal(writer_steps(nodes@.skip(i as int))),
            refused ==> step_views(steps@) == readers + writer_steps(nodes@) && ends_in_refusal(writer_steps(nodes@)),
        decreases nodes.len() - i,
    {
        let ghost rest = nodes@.skip(i as int);
        assert(rest[0] == nodes@[i as int]);
        assert(rest.skip(1) =~= nodes@.skip(i + 1));
        let n = &nodes[i];
        let ghost before = step_views(steps@);
        if str_equal(n.kind.as_str(), "core::file_writer") {
            if !n.has_params {
                let mut m = chars_of("Invalid file_writer params in node '");
                extend_str(&mut m, n.id.as_str());
                extend_str(&mut m, "': expected params.path");
                steps.push(PathStep::Refuse(string_of(&m)));
                refused = true;
            } else {
                match &n.path {
                    PathParam::Text(p) => {
                        steps.push(PathStep::Check { node_id: n.id.clone(), path: p.clone(), usage: PathUse::Write });
                        assert(step_views(steps@) =~= before + seq![
                            PathStepView::Check { node_id: n.id@, path: p@, usage: PathUse::Write },
                        ]);
                        proof {
                            let head = seq![PathStepView::Check { node_id: n.id@, path: p@, usage: PathUse::Write }];
                            let w1 = writer_steps(nodes@.skip(i + 1));
                            assert(writer_steps(rest) == head + w1);
                            if w1.len() > 0 {
                                assert((head + w1).last() == w1.last());
                            }
                            assert(before + (head + w1) =~= (before + head) + w1);
                        }
                    },
                    _ => {
                        let mut m = chars_of("Invalid file_writer params in node '");
                        extend_str(&mut m, n.id.as_str());
                        extend_str(&mut m, "': expected params.path to be a string");
                        steps.push(PathStep::Refuse(string_of(&m)));
                        refused = true;
                    },
                }
            }
            proof {
                if refused {
                    lemma_writer_refusal_ends(nodes@, i as int);
                    assert(step_views(steps@) =~= before + writer_steps(rest));
                }
            }
        }
        i = i + 1;
    }
    if refused {
        return steps;
    }
    assert(nodes@.skip(nodes.len() as int) =~= Seq::<NodePaths>::empty());
    assert(step_views(steps@) =~= readers + writer_steps(nodes@));
    let ghost mid = step_views(steps@);
    for i in 0..nodes.len()
        invariant
            step_views(steps@) == mid + script_steps(nodes@.take(i as int)),
    {
        assert(nodes@.take(i + 1).drop_last() =~= nodes@.take(i as int));
        assert(nodes@.take(i + 1).last() == nodes@[i as int]);
        let n = &nodes[i];
        let ghost before = step_views(steps@);
        let mut pushed = false;
        if str_equal(n.kind.as_str(), "core::script") && n.has_params {
            if let PathParam::Text(p) = &n.script_path {
                let pv = chars_of(p.as_str());
                let t = trim_chars(&pv);
                if t.len() > 0 {
                    steps.push(PathStep::Check { node_id: n.id.clone(), path: p.clone(), usage: PathUse::Script });
                    assert(step_views(steps@) =~= before + seq![
                        PathStepView::Check { node_id: n.id@, path: p@, usage: PathUse::Script },
                    ]);
                    pushed = true;
                }
            }
        }
        if !pushed {
            assert(step_views(steps@) =~= before + Seq::<PathStepView>::empty());
        }
        assert(step_views(steps@) =~= mid + script_steps(nodes@.take(i + 1)));
    }
    assert(nodes@.take(nodes.len() as int) =~= nodes@);
    steps
}

proof fn lemma_writer_refusal_ends(nodes: Seq<NodePaths>, i: int)
    requires
        0 <= i < nodes.len(),
        nodes[i].kind@ == "core::file_writer"@,
        !nodes[i].has_params || !(nodes[i].path is Text),
    ensures
        ends_in_refusal(writer_steps(nodes.skip(i))),
{
    assert(nodes.skip(i)[0] == nodes[i]);
}

// ---------------------------------------------------------------------------
// Error responses
// ---------------------------------------------------------------------------

/// An error of the one-shot endpoint; the outside errors are carried as
/// their messages.
#[derive(Debug, Clone)]
pub enum AppError {
    Engine(String),
    Multipart(String),
    Serde(String),
    PipelineCompilation(String),
    BadRequest(String),
    Forbidden(String),
}

pub open spec fn app_error_response(e: AppError) -> (u16, Seq<char>) {
    match e {
        AppError::Engine(m) => (500u16, "Pipeline execution error: "@ + m@),
        AppError::Multipart(m) => (500u16, "Error receiving request data: "@ + m@),
        AppError::Serde(m) => (400u16, "Invalid YAML config format: "@ + m@),
        AppError::PipelineCompilation(m) => (400u16, "Invalid pipeline: "@ + m@),
        AppError::BadRequest(m) => (400u16, m@),
        AppError::Forbidden(m) => (403u16, m@),
    }
}

impl AppError {
    /// The status and body this error is answered with.
    pub fn response(&self) -> (r: (u16, String))
        ensures
            r.0 == app_error_response(*self).0,
            r.1@ == app_error_response(*self).1,
    {
        match self {
            AppError::Engine(m) => {
                let mut t = chars_of("Pipeline execution error: ");
                extend_str(&mut t, m.as_str());
                (500, string_of(&t))
            },
            AppError::Multipart(m) => {
                let mut t = chars_of("Error receiving request data: ");
                extend_str(&mut t, m.as_str());
                (500, string_of(&t))
            },
            AppError::Serde(m) => {
                let mut t = chars_of("Invalid YAML config format: ");
                extend_str(&mut t, m.as_str());
                (400, string_of(&t))
            },
            AppError::PipelineCompilation(m) => {
                let mut t = chars_of("Invalid pipeline: ");
                extend_str(&mut t, m.as_str());
                (400, string_of(&t))
            },
            AppError::BadRequest(m) => (400, m.clone()),
            AppError::Forbidden(m) => (403, m.clone()),
        }
    }
}

/// An error of the plugin endpoints; the outside errors are carried as
/// their messages.
#[derive(Debug, Clone)]
pub enum PluginHttpError {
    BadRequest(String),
    Forbidden(String),
    Multipart(String),
    Manager(String),
}

pub open spec fn plugin_error_response(e: PluginHttpError) -> (u16, Seq<char>) {
    match e {
        PluginHttpError::BadRequest(m) => (400u16, m@),
        PluginHttpError::Forbidden(m) => (403u16, m@),
        PluginHttpError::Multipart(m) => (400u16, "Invalid multipart payload: "@ + m@),
        PluginHttpError::Manager(m) => (422u16, m@),
    }
}

impl PluginHttpError {
    /// The status and body this error is answered with.
    pub fn response(&self) -> (r: (u16, String))
        ensures
            r.0 == plugin_error_response(*self).0,
            r.1@ == plugin_error_response(*self).1,
    {
        match self {
            PluginHttpError::BadRequest(m) => (400, m.clone()),
            PluginHttpError::Forbidden(m) => (403, m.clone()),
            PluginHttpError::Multipart(m) => {
                let mut t = chars_of("Invalid multipart payload: ");
                extend_str(&mut t, m.as_str());
                (400, string_of(&t))
            },
            PluginHttpError::Manager(m) => (422, m.clone()),
        }
    }
}

} // verus!
