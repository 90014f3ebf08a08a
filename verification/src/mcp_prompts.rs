//! The text of the MCP prompts: `design_pipeline`, which lists the node
//! kinds a caller may use grouped by category, and `debug_pipeline`, which
//! summarises a running session's nodes and connections.
use vstd::prelude::*;

use crate::http_inputs::ConnectionMode;
use crate::metrics_labels::{lemma_text_lt_irreflexive, lemma_text_lt_transitive, lemma_text_lt_trichotomy, text_less, text_lt};
use crate::text::{chars_of, extend_chars, extend_str, join_chars, join_with, string_of};

verus! {

// ---------------------------------------------------------------------------
// design_pipeline
// ---------------------------------------------------------------------------

/// A pin of a node definition: its name and its types as displayed.
#[derive(Debug, Clone)]
pub struct PinSummary {
    pub name: String,
    pub types: String,
}

/// What the design prompt shows of a node definition.
#[derive(Debug, Clone)]
pub struct NodeSummary {
    pub kind: String,
    pub categories: Vec<String>,
    pub description: Option<String>,
    pub inputs: Vec<PinSummary>,
    pub outputs: Vec<PinSummary>,
    /// The property names of the parameter schema, in schema order.
    pub param_keys: Vec<String>,
}

pub const DESIGN_INTRO: &'static str = "You are helping design a StreamKit pipeline. StreamKit pipelines are defined in YAML with two sections: `nodes` and `connections`.\n\n## YAML Format\n\n```yaml\nnodes:\n  <node_id>:\n    kind: <node_kind>\n    params:  # optional, node-specific\n      <key>: <value>\nconnections:\n  - from_node: <id>\n    from_pin: <pin_name>\n    to_node: <id>\n    to_pin: <pin_name>\n    mode: reliable  # or best_effort\n```\n\n## Available Nodes (by category)\n\n";

pub const DESIGN_RULES: &'static str = "## Connection Rules\n\n- Pins have types (RawAudio, RawVideo, EncodedAudio, EncodedVideo, Text, Transcription, Binary, Any, Passthrough, Custom) — only matching types can connect. `Any` accepts all types; `Passthrough` adapts to the connected input type.\n- Pin cardinality: `One` (single connection), `Broadcast` (fan-out to many), `Dynamic` (runtime-created pin family, e.g. mixer inputs).\n- Connection modes: `reliable` (backpressure — sender blocks if receiver is slow), `best_effort` (drop packets if the receiver can't keep up).\n\n## Pipeline Modes\n\n- **dynamic**: Real-time, hot-reconfigurable pipeline. Nodes run continuously and the graph can be mutated at runtime.\n- **oneshot**: Stateless batch/request-response pipeline. Processes a single request and exits. Uses synthetic `streamkit::http_input` / `streamkit::http_output` nodes.\n\n## Workflow\n\n1. Design the YAML based on user requirements.\n2. Call the `validate_pipeline` tool to check for errors before creating a session.\n3. Fix any issues reported by validation.\n4. Call `create_session` to start the pipeline.\n";

/// The category a definition is listed under: its first, or
/// `uncategorized`.
pub open spec fn category_of(d: NodeSummary) -> Seq<char> {
    if d.categories@.len() > 0 {
        d.categories@[0]@
    } else {
        "uncategorized"@
    }
}

pub open spec fn pin_text(p: PinSummary) -> Seq<char> {
    "`"@ + p.name@ + "` ("@ + p.types@ + ")"@
}

pub open spec fn pins_line(label: Seq<char>, pins: Seq<PinSummary>) -> Seq<char> {
    if pins.len() == 0 {
        Seq::empty()
    } else {
        "  - "@ + label + ": "@ + join_with(pins.map_values(|p: PinSummary| pin_text(p)), ", "@) + "\n"@
    }
}

pub open spec fn params_line(keys: Seq<String>) -> Seq<char> {
    if keys.len() == 0 {
        Seq::empty()
    } else {
        "  - Params: "@ + join_with(keys.map_values(|k: String| "`"@ + k@ + "`"@), ", "@) + "\n"@
    }
}

/// The lines of one definition.
pub open spec fn definition_text(d: NodeSummary) -> Seq<char> {
    "- **`"@ + d.kind@ + "`**"@ + match d.description {
        Some(desc) => " — "@ + desc@,
        None => Seq::empty(),
    } + "\n"@ + pins_line("Inputs"@, d.inputs@) + pins_line("Outputs"@, d.outputs@) + params_line(
        d.param_keys@,
    )
}

/// The lines of the definitions of category `c`, in definition order.
pub open spec fn category_definitions(defs: Seq<NodeSummary>, c: Seq<char>) -> Seq<char>
    decreases defs.len(),
{
    if defs.len() == 0 {
        Seq::empty()
    } else {
        category_definitions(defs.drop_last(), c) + if category_of(defs.last()) == c {
            definition_text(defs.last())
        } else {
            Seq::empty()
        }
    }
}

/// The sections of the listed categories, in the order given.
pub open spec fn category_sections(cats: Seq<Seq<char>>, defs: Seq<NodeSummary>) -> Seq<char>
    decreases cats.len(),
{
    if cats.len() == 0 {
        Seq::empty()
    } else {
        category_sections(cats.drop_last(), defs) + "### "@ + cats.last() + "\n\n"@ + category_definitions(
            defs,
            cats.last(),
        ) + "\n"@
    }
}

/// `cats` lists each category of `defs` once, in ascending order.
pub open spec fn sorted_categories(cats: Seq<Seq<char>>, defs: Seq<NodeSummary>) -> bool {
    &&& forall|i: int, j: int| 0 <= i < j < cats.len() ==> text_lt(#[trigger] cats[i], #[trigger] cats[j])
    &&& forall|c: Seq<char>| #[trigger] cats.contains(c) <==> exists|k: int| 0 <= k < defs.len() && #[trigger] category_of(defs[k]) == c
}

proof fn lemma_sorted_texts_unique(a: Seq<Seq<char>>, b: Seq<Seq<char>>)
    requires
        forall|i: int, j: int| 0 <= i < j < a.len() ==> text_lt(#[trigger] a[i], #[trigger] a[j]),
        forall|i: int, j: int| 0 <= i < j < b.len() ==> text_lt(#[trigger] b[i], #[trigger] b[j]),
        forall|x: Seq<char>| #[trigger] a.contains(x) <==> b.contains(x),
    ensures
        a == b,
    decreases a.len(),
{
    if a.len() == 0 {
        if b.len() > 0 {
            assert(b.contains(b[0]));
            assert(a.contains(b[0]));
        }
        assert(a =~= b);
    } else {
        assert(a.contains(a[0]));
        assert(b.len() > 0);
        assert(b.contains(b[0]));
        assert(a.contains(b[0]));
        assert(b.contains(a[0]));
        let ka = choose|k: int| 0 <= k < a.len() && a[k] == b[0];
        let kb = choose|k: int| 0 <= k < b.len() && b[k] == a[0];
        if a[0] != b[0] {
            assert(ka > 0 && kb > 0);
            assert(text_lt(a[0], a[ka]));
            assert(text_lt(b[0], b[kb]));
            lemma_text_lt_trichotomy(a[0], b[0]);
        }
        let a1 = a.skip(1);
        let b1 = b.skip(1);
        assert forall|x: Seq<char>| #[trigger] a1.contains(x) <==> b1.contains(x) by {
            if a1.contains(x) {
                let k = choose|k: int| 0 <= k < a1.len() && a1[k] == x;
                assert(a[k + 1] == x);
                assert(text_lt(a[0], a[k + 1]));
                lemma_text_lt_irreflexive(x);
                assert(a.contains(x));
                let m = choose|m: int| 0 <= m < b.len() && b[m] == x;
                assert(m != 0);
                assert(b1[m - 1] == x);
            }
            if b1.contains(x) {
                let k = choose|k: int| 0 <= k < b1.len() && b1[k] == x;
                assert(b[k + 1] == x);
                assert(text_lt(b[0], b[k + 1]));
                lemma_text_lt_irreflexive(x);
                assert(b.contains(x));
                assert(a.contains(x));
                let m = choose|m: int| 0 <= m < a.len() && a[m] == x;
                assert(m != 0);
                assert(a1[m - 1] == x);
            }
        }
        assert forall|i: int, j: int| 0 <= i < j < a1.len() implies text_lt(#[trigger] a1[i], #[trigger] a1[j]) by {
            assert(a1[i] == a[i + 1] && a1[j] == a[j + 1]);
        }
        assert forall|i: int, j: int| 0 <= i < j < b1.len() implies text_lt(#[trigger] b1[i], #[trigger] b1[j]) by {
            assert(b1[i] == b[i + 1] && b1[j] == b[j + 1]);
        }
        lemma_sorted_texts_unique(a1, b1);
        assert(a =~= seq![a[0]] + a1);
        assert(b =~= seq![b[0]] + b1);
    }
}

/// The categories of a set of definitions have exactly one ascending
/// listing, so the design prompt is determined by its inputs.
pub proof fn law_category_order_unique(a: Seq<Seq<char>>, b: Seq<Seq<char>>, defs: Seq<NodeSummary>)
    requires
        sorted_categories(a, defs),
        sorted_categories(b, defs),
    ensures
        a == b,
{
    lemma_sorted_texts_unique(a, b);
}

/// The `design_pipeline` prompt for the definitions listed under `cats`.
pub open spec fn design_text(cats: Seq<Seq<char>>, defs: Seq<NodeSummary>, description: Option<Seq<char>>) -> Seq<char> {
    DESIGN_INTRO@ + category_sections(cats, defs) + DESIGN_RULES@ + match description {
        Some(d) => "\n## User Request\n\n"@ + d + "\n"@,
        None => Seq::empty(),
    }
}

pub open spec fn vec_texts(v: Seq<Vec<char>>) -> Seq<Seq<char>> {
    v.map_values(|x: Vec<char>| x@)
}

fn category_text(d: &NodeSummary) -> (r: Vec<char>)
    ensures
        r@ == category_of(*d),
{
    if d.categories.len() > 0 {
        chars_of(d.categories[0].as_str())
    } else {
        chars_of("uncategorized")
    }
}

fn insert_sorted(cats: &mut Vec<Vec<char>>, c: Vec<char>)
    requires
        forall|i: int, j: int| 0 <= i < j < old(cats)@.len() ==> text_lt(#[trigger] old(cats)@[i]@, #[trigger] old(cats)@[j]@),
    ensures
        forall|i: int, j: int| 0 <= i < j < final(cats)@.len() ==> text_lt(#[trigger] final(cats)@[i]@, #[trigger] final(cats)@[j]@),
        forall|x: Seq<char>| #[trigger] vec_texts(final(cats)@).contains(x) <==> (vec_texts(old(cats)@).contains(x) || x == c@),
{
    let ghost old_v = cats@;
    let mut p: usize = 0;
    while p < cats.len() && text_less(&cats[p], &c)
        invariant
            p <= cats.len(),
            cats@ == old_v,
            forall|i: int, j: int| 0 <= i < j < cats@.len() ==> text_lt(#[trigger] cats@[i]@, #[trigger] cats@[j]@),
            forall|k: int| 0 <= k < p ==> text_lt(#[trigger] cats@[k]@, c@),
        decreases cats.len() - p,
    {
        p = p + 1;
    }
    proof {
        if p < cats.len() {
            lemma_text_lt_trichotomy(cats@[p as int]@, c@);
        }
    }
    if p < cats.len() && !text_less(&c, &cats[p]) {
        // Already present at position p.
        assert(cats@[p as int]@ == c@);
        assert forall|x: Seq<char>| #[trigger] vec_texts(cats@).contains(x) <==> (vec_texts(old_v).contains(x) || x == c@) by {
            if x == c@ {
                assert(vec_texts(cats@)[p as int] == x);
            }
        }
        return;
    }
    let ghost cv = c@;
    assert(p < old_v.len() ==> text_lt(cv, old_v[p as int]@));
    cats.insert(p, c);
    proof {
        let nv = cats@;
        assert(nv.len() == old_v.len() + 1);
        assert forall|i: int, j: int| 0 <= i < j < nv.len() implies text_lt(#[trigger] nv[i]@, #[trigger] nv[j]@) by {
            if j < p {
                assert(nv[i] == old_v[i] && nv[j] == old_v[j]);
            } else if j == p {
                assert(nv[i] == old_v[i]);
            } else if i == p {
                assert(nv[j] == old_v[j - 1]);
                if j - 1 > p {
                    assert(text_lt(old_v[p as int]@, old_v[j - 1]@));
                    lemma_text_lt_transitive(cv, old_v[p as int]@, old_v[j - 1]@);
                }
            } else if i < p {
                assert(nv[i] == old_v[i] && nv[j] == old_v[j - 1]);
                if j - 1 >= p {
                    if j - 1 > p {
                        assert(text_lt(old_v[p as int]@, old_v[j - 1]@));
                        lemma_text_lt_transitive(cv, old_v[p as int]@, old_v[j - 1]@);
                    }
                    assert(text_lt(cv, old_v[j - 1]@));
                    assert(text_lt(old_v[i]@, cv));
                    lemma_text_lt_transitive(old_v[i]@, cv, old_v[j - 1]@);
                }
            } else {
                assert(nv[i] == old_v[i - 1] && nv[j] == old_v[j - 1]);
            }
        }
        assert forall|x: Seq<char>| #[trigger] vec_texts(nv).contains(x) <==> (vec_texts(old_v).contains(x) || x == cv) by {
            if vec_texts(nv).contains(x) {
                let k = choose|k: int| 0 <= k < nv.len() && vec_texts(nv)[k] == x;
                if k < p {
                    assert(vec_texts(old_v)[k] == x);
                } else if k > p {
                    assert(vec_texts(old_v)[k - 1] == x);
                }
            }
            if vec_texts(old_v).contains(x) {
                let k = choose|k: int| 0 <= k < old_v.len() && vec_texts(old_v)[k] == x;
                if k < p {
                    assert(vec_texts(nv)[k] == x);
                } else {
                    assert(vec_texts(nv)[k + 1] == x);
                }
            }
            if x == cv {
                assert(vec_texts(nv)[p as int] == x);
            }
        }
    }
}

fn categories_in_order(defs: &Vec<NodeSummary>) -> (r: Vec<Vec<char>>)
    ensures
        sorted_categories(vec_texts(r@), defs@),
{
    let mut cats: Vec<Vec<char>> = Vec::new();
    for i in 0..defs.len()
        invariant
            forall|a: int, b: int| 0 <= a < b < cats@.len() ==> text_lt(#[trigger] cats@[a]@, #[trigger] cats@[b]@),
            forall|c: Seq<char>| #[trigger] vec_texts(cats@).contains(c) <==> exists|k: int|
                0 <= k < i && #[trigger] category_of(defs@[k]) == c,
    {
        let c = category_text(&defs[i]);
        let ghost cv = c@;
        insert_sorted(&mut cats, c);
        assert forall|x: Seq<char>| #[trigger] vec_texts(cats@).contains(x) <==> exists|k: int|
            0 <= k < i + 1 && #[trigger] category_of(defs@[k]) == x by {
            if x == cv {
                assert(category_of(defs@[i as int]) == x);
            }
            if exists|k: int| 0 <= k < i + 1 && #[trigger] category_of(defs@[k]) == x {
                let k = choose|k: int| 0 <= k < i + 1 && #[trigger] category_of(defs@[k]) == x;
                if k < i {
                    assert(exists|k2: int| 0 <= k2 < i && #[trigger] category_of(defs@[k2]) == x);
                }
            }
        }
    }
    let ghost cs = vec_texts(cats@);
    assert forall|a: int, b: int| 0 <= a < b < cs.len() implies text_lt(#[trigger] cs[a], #[trigger] cs[b]) by {
        assert(cs[a] == cats@[a]@ && cs[b] == cats@[b]@);
    }
    cats
}

fn push_pins_line(out: &mut Vec<char>, label: &str, pins: &Vec<PinSummary>)
    ensures
        final(out)@ == old(out)@ + pins_line(label@, pins@),
{
    if pins.len() == 0 {
        assert(old(out)@ + Seq::<char>::empty() =~= old(out)@);
        return;
    }
    let mut parts: Vec<Vec<char>> = Vec::new();
    for i in 0..pins.len()
        invariant
            parts@.map_values(|p: Vec<char>| p@) == pins@.take(i as int).map_values(|p: PinSummary| pin_text(p)),
    {
        let mut t = chars_of("`");
        extend_str(&mut t, pins[i].name.as_str());
        extend_str(&mut t, "` (");
        extend_str(&mut t, pins[i].types.as_str());
        extend_str(&mut t, ")");
        let ghost before = parts@.map_values(|p: Vec<char>| p@);
        let ghost tv = t@;
        parts.push(t);
        assert(parts@.map_values(|p: Vec<char>| p@) =~= before.push(tv));
        assert(pins@.take(i + 1).map_values(|p: PinSummary| pin_text(p)) =~= pins@.take(i as int).map_values(
            |p: PinSummary| pin_text(p),
        ).push(pin_text(pins@[i as int])));
    }
    assert(pins@.take(pins.len() as int) =~= pins@);
    let sep = chars_of(", ");
    let joined = join_chars(&parts, &sep);
    let ghost start = out@;
    extend_str(out, "  - ");
    extend_str(out, label);
    extend_str(out, ": ");
    extend_chars(out, &joined);
    extend_str(out, "\n");
    assert(out@ =~= start + pins_line(label@, pins@));
}

fn push_params_line(out: &mut Vec<char>, keys: &Vec<String>)
    ensures
        final(out)@ == old(out)@ + params_line(keys@),
{
    if keys.len() == 0 {
        assert(old(out)@ + Seq::<char>::empty() =~= old(out)@);
        return;
    }
    let mut parts: Vec<Vec<char>> = Vec::new();
    for i in 0..keys.len()
        invariant
            parts@.map_values(|p: Vec<char>| p@) == keys@.take(i as int).map_values(|k: String| "`"@ + k@ + "`"@),
    {
        let mut t = chars_of("`");
        extend_str(&mut t, keys[i].as_str());
        extend_str(&mut t, "`");
        let ghost before = parts@.map_values(|p: Vec<char>| p@);
        let ghost tv = t@;
        parts.push(t);
        assert(parts@.map_values(|p: Vec<char>| p@) =~= before.push(tv));
        assert(keys@.take(i + 1).map_values(|k: String| "`"@ + k@ + "`"@) =~= keys@.take(i as int).map_values(
            |k: String| "`"@ + k@ + "`"@,
        ).push("`"@ + keys@[i as int]@ + "`"@));
    }
    assert(keys@.take(keys.len() as int) =~= keys@);
    let sep = chars_of(", ");
    let joined = join_chars(&parts, &sep);
    let ghost start = out@;
    extend_str(out, "  - Params: ");
    extend_chars(out, &joined);
    extend_str(out, "\n");
    assert(out@ =~= start + params_line(keys@));
}

fn push_definition(out: &mut Vec<char>, d: &NodeSummary)
    ensures
        final(out)@ == old(out)@ + definition_text(*d),
{
    let ghost start = out@;
    extend_str(out, "- **`");
    extend_str(out, d.kind.as_str());
    extend_str(out, "`**");
    let ghost a = out@;
    match &d.description {
        Some(desc) => {
            extend_str(out, " — ");
            extend_str(out, desc.as_str());
        },
        None => {},
    }
    let ghost b = out@;
    extend_str(out, "\n");
    push_pins_line(out, "Inputs", &d.inputs);
    push_pins_line(out, "Outputs", &d.outputs);
    push_params_line(out, &d.param_keys);
    proof {
        match &d.description {
            Some(desc) => {
                assert(b =~= a + (" — "@ + desc@));
            },
            None => {
                assert(b =~= a + Seq::<char>::empty());
            },
        }
    }
    assert(out@ =~= start + definition_text(*d));
}

fn chars_equal_vec(a: &Vec<char>, b: &Vec<char>) -> (r: bool)
    ensures
        r == (a@ == b@),
{
    crate::text::chars_equal(a, b)
}

/// Builds the `design_pipeline` prompt for the definitions a caller may use
/// and the caller's optional description of the pipeline wanted.
pub fn build_design_pipeline_content(defs: &Vec<NodeSummary>, description: Option<&str>) -> (r: String)
    ensures
        exists|cats: Seq<Seq<char>>|
            sorted_categories(cats, defs@) && r@ == design_text(
                cats,
                defs@,
                match description {
                    Some(d) => Some(d@),
                    None => None,
                },
            ),
{
    let cats = categories_in_order(defs);
    let ghost cs = vec_texts(cats@);
    let mut out: Vec<char> = Vec::new();
    extend_str(&mut out, DESIGN_INTRO);
    let ghost intro = out@;
    for ci in 0..cats.len()
        invariant
            cs == vec_texts(cats@),
            out@ == intro + category_sections(cs.take(ci as int), defs@),
    {
        let ghost before = out@;
        extend_str(&mut out, "### ");
        extend_chars(&mut out, &cats[ci]);
        extend_str(&mut out, "\n\n");
        let ghost head = out@;
        for di in 0..defs.len()
            invariant
                ci < cats@.len(),
                out@ == head + category_definitions(defs@.take(di as int), cats@[ci as int]@),
        {
            let c = category_text(&defs[di]);
            assert(defs@.take(di + 1).drop_last() =~= defs@.take(di as int));
            let ghost mid = out@;
            if chars_equal_vec(&c, &cats[ci]) {
                push_definition(&mut out, &defs[di]);
                assert(out@ =~= head + category_definitions(defs@.take(di + 1), cats@[ci as int]@));
            } else {
                assert(out@ =~= head + category_definitions(defs@.take(di + 1), cats@[ci as int]@));
            }
        }
        assert(defs@.take(defs.len() as int) =~= defs@);
        extend_str(&mut out, "\n");
        assert(cs.take(ci + 1).drop_last() =~= cs.take(ci as int));
        assert(cs.take(ci + 1).last() == cats@[ci as int]@);
        assert(out@ =~= intro + category_sections(cs.take(ci + 1), defs@));
    }
    assert(cs.take(cats.len() as int) =~= cs);
    let ghost body = out@;
    extend_str(&mut out, DESIGN_RULES);
    match description {
        Some(d) => {
            extend_str(&mut out, "\n## User Request\n\n");
            extend_str(&mut out, d);
            extend_str(&mut out, "\n");
        },
        None => {},
    }
    let ghost desc_v = match description {
        Some(d) => Some(d@),
        None => None,
    };
    assert(out@ =~= design_text(cs, defs@, desc_v));
    string_of(&out)
}

// ---------------------------------------------------------------------------
// debug_pipeline
// ---------------------------------------------------------------------------

/// What the state of a node adds to its line.
#[derive(Debug, Clone)]
pub enum StateDetail {
    Failed(String),
    Recovering(String),
    Degraded(String),
    Other,
}

/// A node's reported state: its debug rendering and its detail.
#[derive(Debug, Clone)]
pub struct NodeStateSummary {
    pub text: String,
    pub detail: StateDetail,
}

/// A node of the session's pipeline.
#[derive(Debug, Clone)]
pub struct SessionNodeSummary {
    pub id: String,
    pub kind: String,
    pub state: Option<NodeStateSummary>,
}

/// A connection of the session's pipeline.
#[derive(Debug, Clone)]
pub struct SessionConnectionSummary {
    pub from_node: String,
    pub from_pin: String,
    pub to_node: String,
    pub to_pin: String,
    pub mode: ConnectionMode,
}

pub const DEBUG_CHECKLIST_HEAD: &'static str = "\n## Diagnostic Checklist\n\n1. Are all nodes in a **running** state?\n";

pub const DEBUG_ERRORS_FOUND: &'static str = "2. **Errors detected** — review the error messages above and check node parameters.\n";

pub const DEBUG_NO_ERRORS: &'static str = "2. No errors reported so far.\n";

pub const DEBUG_CHECKLIST_TAIL: &'static str = "3. Are all connections type-compatible? (Check that output pin types match the connected input pin's accepted types.)\n4. Are all required node parameters set correctly?\n5. Are connection modes appropriate? (`reliable` for lossless processing, `best_effort` for real-time streaming where drops are acceptable.)\n\n## Available Tools for Fixing Issues\n\n- `validate_batch` — dry-run a set of graph mutations (add/remove nodes, connect/disconnect) without applying them.\n- `apply_batch` — atomically apply validated mutations to the running session.\n- `tune_node` — send a control message to a specific node (e.g. UpdateParams to change parameters at runtime).\n- `validate_pipeline` — re-validate the pipeline YAML to catch structural issues.\n- `get_pipeline` — fetch the latest pipeline state (node states may change over time).\n- `destroy_session` — tear down the session if it is unrecoverable.\n";

pub open spec fn detail_text(d: StateDetail) -> Seq<char> {
    match d {
        StateDetail::Failed(reason) => " — error: "@ + reason@,
        StateDetail::Recovering(reason) => " — recovering: "@ + reason@,
        StateDetail::Degraded(reason) => " — degraded: "@ + reason@,
        StateDetail::Other => Seq::empty(),
    }
}

pub open spec fn node_state_line(n: SessionNodeSummary) -> Seq<char> {
    "- **`"@ + n.id@ + "`** (`"@ + n.kind@ + "`): "@ + match n.state {
        Some(s) => s.text@ + detail_text(s.detail),
        None => "unknown"@,
    } + "\n"@
}

pub open spec fn node_state_lines(nodes: Seq<SessionNodeSummary>) -> Seq<char>
    decreases nodes.len(),
{
    if nodes.len() == 0 {
        Seq::empty()
    } else {
        node_state_lines(nodes.drop_last()) + node_state_line(nodes.last())
    }
}

pub open spec fn mode_text(m: ConnectionMode) -> Seq<char> {
    match m {
        ConnectionMode::Reliable => "reliable"@,
        ConnectionMode::BestEffort => "best_effort"@,
    }
}

pub open spec fn connection_line(c: SessionConnectionSummary) -> Seq<char> {
    "- `"@ + c.from_node@ + "`.`"@ + c.from_pin@ + "` → `"@ + c.to_node@ + "`.`"@ + c.to_pin@ + "` ("@
        + mode_text(c.mode) + ")\n"@
}

pub open spec fn connection_lines(conns: Seq<SessionConnectionSummary>) -> Seq<char>
    decreases conns.len(),
{
    if conns.len() == 0 {
        Seq::empty()
    } else {
        connection_lines(conns.drop_last()) + connection_line(conns.last())
    }
}

/// Whether a node reports a failure.
pub open spec fn is_failed(n: SessionNodeSummary) -> bool {
    n.state matches Some(s) && s.detail is Failed
}

/// Whether some node reports a failure.
pub open spec fn has_failure(nodes: Seq<SessionNodeSummary>) -> bool {
    exists|i: int| 0 <= i < nodes.len() && #[trigger] is_failed(nodes[i])
}

/// The `debug_pipeline` prompt for a session, given its pipeline as JSON.
pub open spec fn debug_text(
    session_id: Seq<char>,
    pipeline_json: Seq<char>,
    nodes: Seq<SessionNodeSummary>,
    conns: Seq<SessionConnectionSummary>,
) -> Seq<char> {
    "You are debugging StreamKit session `"@ + session_id + "`.\n\n## Current Pipeline State\n\n```json\n"@
        + pipeline_json + "\n```\n\n## Node States\n\n"@ + node_state_lines(nodes) + if conns.len() == 0 {
        Seq::empty()
    } else {
        "\n## Connections\n\n"@ + connection_lines(conns)
    } + DEBUG_CHECKLIST_HEAD@ + if has_failure(nodes) {
        DEBUG_ERRORS_FOUND@
    } else {
        DEBUG_NO_ERRORS@
    } + DEBUG_CHECKLIST_TAIL@
}

fn push_node_state(out: &mut Vec<char>, n: &SessionNodeSummary) -> (failed: bool)
    ensures
        final(out)@ == old(out)@ + node_state_line(*n),
        failed == is_failed(*n),
{
    let ghost start = out@;
    extend_str(out, "- **`");
    extend_str(out, n.id.as_str());
    extend_str(out, "`** (`");
    extend_str(out, n.kind.as_str());
    extend_str(out, "`): ");
    let ghost a = out@;
    let mut failed = false;
    match &n.state {
        None => {
            extend_str(out, "unknown");
        },
        Some(s) => {
            extend_str(out, s.text.as_str());
            match &s.detail {
                StateDetail::Failed(reason) => {
                    failed = true;
                    extend_str(out, " — error: ");
                    extend_str(out, reason.as_str());
                },
                StateDetail::Recovering(reason) => {
                    extend_str(out, " — recovering: ");
                    extend_str(out, reason.as_str());
                },
                StateDetail::Degraded(reason) => {
                    extend_str(out, " — degraded: ");
                    extend_str(out, reason.as_str());
                },
                StateDetail::Other => {},
            }
        },
    }
    let ghost b = out@;
    extend_str(out, "\n");
    proof {
        match &n.state {
            Some(s) => {
                assert(b =~= a + (s.text@ + detail_text(s.detail)));
            },
            None => {},
        }
    }
    assert(out@ =~= start + node_state_line(*n));
    failed
}

fn push_connection(out: &mut Vec<char>, c: &SessionConnectionSummary)
    ensures
        final(out)@ == old(out)@ + connection_line(*c),
{
    let ghost start = out@;
    extend_str(out, "- `");
    extend_str(out, c.from_node.as_str());
    extend_str(out, "`.`");
    extend_str(out, c.from_pin.as_str());
    extend_str(out, "` → `");
    extend_str(out, c.to_node.as_str());
    extend_str(out, "`.`");
    extend_str(out, c.to_pin.as_str());
    extend_str(out, "` (");
    match c.mode {
        ConnectionMode::Reliable => extend_str(out, "reliable"),
        ConnectionMode::BestEffort => extend_str(out, "best_effort"),
    }
    extend_str(out, ")\n");
    assert(out@ =~= start + connection_line(*c));
}

/// Builds the `debug_pipeline` prompt for a session, from the session's
/// pipeline rendered as JSON and a summary of its nodes and connections.
pub fn build_debug_pipeline_content(
    session_id: &str,
    pipeline_json: &str,
    nodes: &Vec<SessionNodeSummary>,
    conns: &Vec<SessionConnectionSummary>,
) -> (r: String)
    ensures
        r@ == debug_text(session_id@, pipeline_json@, nodes@, conns@),
{
    let mut out: Vec<char> = Vec::new();
    extend_str(&mut out, "You are debugging StreamKit session `");
    extend_str(&mut out, session_id);
    extend_str(&mut out, "`.\n\n## Current Pipeline State\n\n```json\n");
    extend_str(&mut out, pipeline_json);
    extend_str(&mut out, "\n```\n\n## Node States\n\n");
    let ghost head = out@;
    let mut has_errors = false;
    for i in 0..nodes.len()
        invariant
            out@ == head + node_state_lines(nodes@.take(i as int)),
            has_errors == has_failure(nodes@.take(i as int)),
    {
        assert(nodes@.take(i + 1).drop_last() =~= nodes@.take(i as int));
        assert(nodes@.take(i + 1).last() == nodes@[i as int]);
        let f = push_node_state(&mut out, &nodes[i]);
        proof {
            let t1 = nodes@.take(i + 1);
            if f {
                assert(t1[i as int] == nodes@[i as int]);
            }
            if has_errors {
                let k = choose|k: int| 0 <= k < i && #[trigger] is_failed(nodes@.take(i as int)[k]);
                assert(t1[k] == nodes@.take(i as int)[k]);
            }
            if has_failure(t1) {
                let k = choose|k: int| 0 <= k < t1.len() && #[trigger] is_failed(t1[k]);
                if k < i {
                    assert(nodes@.take(i as int)[k] == t1[k]);
                }
            }
        }
        has_errors = has_errors || f;
    }
    assert(nodes@.take(nodes.len() as int) =~= nodes@);
    let ghost after_nodes = out@;
    if conns.len() > 0 {
        extend_str(&mut out, "\n## Connections\n\n");
        let ghost chead = out@;
        for i in 0..conns.len()
            invariant
                out@ == chead + connection_lines(conns@.take(i as int)),
        {
            assert(conns@.take(i + 1).drop_last() =~= conns@.take(i as int));
            assert(conns@.take(i + 1).last() == conns@[i as int]);
            push_connection(&mut out, &conns[i]);
        }
        assert(conns@.take(conns.len() as int) =~= conns@);
    }
    let ghost after_conns = out@;
    extend_str(&mut out, DEBUG_CHECKLIST_HEAD);
    if has_errors {
        extend_str(&mut out, DEBUG_ERRORS_FOUND);
    } else {
        extend_str(&mut out, DEBUG_NO_ERRORS);
    }
    extend_str(&mut out, DEBUG_CHECKLIST_TAIL);
    proof {
        if conns.len() == 0 {
            assert(after_conns =~= after_nodes + Seq::<char>::empty());
        }
    }
    assert(out@ =~= debug_text(session_id@, pipeline_json@, nodes@, conns@));
    string_of(&out)
}

} // verus!
