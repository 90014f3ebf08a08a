//! Which multipart fields of a one-shot request feed which `http_input`
//! nodes of a pipeline. Each node declares its fields (a `fields` list, a
//! single `field`, or nothing, in which case a default applies); each field
//! is read from the node's output pin of the same name, or from the one pin
//! the pipeline references; a field name may be bound only once.
use vstd::prelude::*;

use crate::text::{chars_of, str_equal, string_of, trim, trim_chars, extend_str};

verus! {

/// The node kind that receives multipart fields.
pub const HTTP_INPUT_KIND: &'static str = "streamkit::http_input";

/// The field bound when a pipeline has a single `http_input` node that names
/// none.
pub const DEFAULT_MEDIA_FIELD: &'static str = "media";

/// The `name` of an object entry of `fields`.
#[derive(Debug, Clone)]
pub enum FieldName {
    Missing,
    NotText,
    Text(String),
}

/// One entry of a node's `fields` list.
#[derive(Debug, Clone)]
pub enum FieldEntry {
    /// A bare string: a required field of that name.
    Text(String),
    /// An object with a `name` and an optional boolean `required`.
    Object { name: FieldName, required: Option<bool> },
    /// Anything else.
    Other,
}

/// The `fields` parameter of a node.
#[derive(Debug, Clone)]
pub enum FieldsParam {
    Absent,
    NotArray,
    Entries(Vec<FieldEntry>),
}

/// What the binding logic reads of an `http_input` node's parameters:
/// `fields`, `field` when it is a string, and `required` when it is a
/// boolean.
#[derive(Debug, Clone)]
pub struct HttpInputParams {
    pub fields: FieldsParam,
    pub field: Option<String>,
    pub required: Option<bool>,
}

/// A node of the pipeline, in the pipeline's order.
#[derive(Debug, Clone)]
pub struct PipelineNodeInfo {
    pub id: String,
    pub kind: String,
    pub params: Option<HttpInputParams>,
}

/// How a connection delivers packets: with backpressure, or dropping
/// packets when the receiver cannot keep up.
#[derive(Debug, Clone, Copy, PartialEq, Eq, Structural)]
pub enum ConnectionMode {
    Reliable,
    BestEffort,
}

/// A connection of the pipeline, from an output pin to an input pin.
#[derive(Debug, Clone)]
pub struct PipelineConnection {
    pub from_node: String,
    pub from_pin: String,
    pub to_node: String,
    pub to_pin: String,
    pub mode: ConnectionMode,
}

/// A multipart field bound to an output pin of an `http_input` node.
#[derive(Debug, Clone)]
pub struct HttpInputBinding {
    pub node_id: String,
    pub field_name: String,
    pub output_pin: String,
    pub required: bool,
}

pub open spec fn binding_view(b: HttpInputBinding) -> (Seq<char>, Seq<char>, Seq<char>, bool) {
    (b.node_id@, b.field_name@, b.output_pin@, b.required)
}

pub open spec fn binding_views(v: Seq<HttpInputBinding>) -> Seq<(Seq<char>, Seq<char>, Seq<char>, bool)> {
    v.map_values(|b: HttpInputBinding| binding_view(b))
}

pub open spec fn is_http_input(kind: Seq<char>) -> bool {
    kind == "streamkit::http_input"@
}

/// The number of `http_input` nodes.
pub open spec fn http_input_count(nodes: Seq<PipelineNodeInfo>) -> nat
    decreases nodes.len(),
{
    if nodes.len() == 0 {
        0
    } else {
        http_input_count(nodes.drop_last()) + if is_http_input(nodes.last().kind@) {
            1nat
        } else {
            0nat
        }
    }
}

/// The output pins of node `id` that the pipeline's connections reference,
/// in connection order (with repeats).
pub open spec fn conn_pins(conns: Seq<PipelineConnection>, id: Seq<char>) -> Seq<Seq<char>>
    decreases conns.len(),
{
    if conns.len() == 0 {
        Seq::empty()
    } else if conns.last().from_node@ == id {
        conn_pins(conns.drop_last(), id).push(conns.last().from_pin@)
    } else {
        conn_pins(conns.drop_last(), id)
    }
}

/// The pin, when the node's referenced pins are all one pin.
pub open spec fn single_pin(pins: Seq<Seq<char>>) -> Option<Seq<char>> {
    if pins.len() > 0 && forall|k: int| 0 <= k < pins.len() ==> #[trigger] pins[k] == pins[0] {
        Some(pins[0])
    } else {
        None
    }
}

/// The pin a field is read from: the pin of its own name when the pipeline
/// references it; else, for a node without a `fields` list whose
/// connections use one pin only, that pin (older pipelines use `out`); else
/// the field's name.
pub open spec fn output_pin_for(name: Seq<char>, pins: Seq<Seq<char>>, has_fields: bool) -> Seq<char> {
    if pins.contains(name) {
        name
    } else if !has_fields && single_pin(pins) is Some {
        single_pin(pins)->0
    } else {
        name
    }
}

pub open spec fn opt_or_true(b: Option<bool>) -> bool {
    match b {
        Some(v) => v,
        None => true,
    }
}

/// The field one entry of `fields` declares, or why it is refused.
pub open spec fn entry_field(e: FieldEntry) -> Result<(Seq<char>, bool), Seq<char>> {
    match e {
        FieldEntry::Text(s) => Ok((s@, true)),
        FieldEntry::Object { name, required } => match name {
            FieldName::Missing => Err("fields entries must include 'name'"@),
            FieldName::NotText => Err("fields.name must be a string"@),
            FieldName::Text(n) => if trim(n@).len() == 0 {
                Err("fields.name must not be empty"@)
            } else {
                Ok((trim(n@), opt_or_true(required)))
            },
        },
        FieldEntry::Other => Err("fields entries must be strings or objects"@),
    }
}

/// The fields a `fields` list declares, in order, or the first refusal.
pub open spec fn entries_fields(es: Seq<FieldEntry>) -> Result<Seq<(Seq<char>, bool)>, Seq<char>>
    decreases es.len(),
{
    if es.len() == 0 {
        Ok(Seq::empty())
    } else {
        match entry_field(es[0]) {
            Err(m) => Err(m),
            Ok(f) => match entries_fields(es.skip(1)) {
                Err(m) => Err(m),
                Ok(rest) => Ok(seq![f] + rest),
            },
        }
    }
}

/// Whether an entry of a `fields` list says `required: false`.
pub open spec fn says_optional(e: FieldEntry) -> bool {
    e matches FieldEntry::Object { required, .. } && required == Some(false)
}

/// The name an entry of a `fields` list declares: a plain name as written,
/// an object's name trimmed.
pub open spec fn declared_name(e: FieldEntry) -> Option<Seq<char>> {
    match e {
        FieldEntry::Text(t) => Some(t@),
        FieldEntry::Object { name: FieldName::Text(n), .. } => Some(trim(n@)),
        _ => None,
    }
}

/// A `fields` list that is accepted declares one field per entry, in
/// order, named by the entry (a plain name as written, an object's name
/// trimmed); a field is optional exactly when its entry is an object with
/// `required: false`, so a plain name or an object without a boolean
/// `required` is required.
pub proof fn law_fields_required_unless_false(es: Seq<FieldEntry>)
    requires
        entries_fields(es) is Ok,
    ensures
        entries_fields(es)->Ok_0.len() == es.len(),
        forall|k: int| 0 <= k < es.len() ==> (#[trigger] entries_fields(es)->Ok_0[k]).1 == !says_optional(es[k]),
        forall|k: int| 0 <= k < es.len() ==> Some((#[trigger] entries_fields(es)->Ok_0[k]).0) == declared_name(es[k]),
    decreases es.len(),
{
    if es.len() > 0 {
        let rest = es.skip(1);
        law_fields_required_unless_false(rest);
        let list = entries_fields(es)->Ok_0;
        let f = entry_field(es[0])->Ok_0;
        assert(list == seq![f] + entries_fields(rest)->Ok_0);
        assert forall|k: int| 0 <= k < es.len() implies (#[trigger] list[k]).1 == !says_optional(es[k]) by {
            if k > 0 {
                assert(list[k] == entries_fields(rest)->Ok_0[k - 1]);
                assert(es[k] == rest[k - 1]);
            }
        }
        assert forall|k: int| 0 <= k < es.len() implies Some((#[trigger] list[k]).0) == declared_name(es[k]) by {
            if k > 0 {
                assert(list[k] == entries_fields(rest)->Ok_0[k - 1]);
                assert(es[k] == rest[k - 1]);
            }
        }
    }
}

/// The fields of a node without a `fields` list: its `field` (trimmed, when
/// not blank), else `media` for the only `http_input` node, else the node's
/// id; the only node also accepts an optional `media` field besides.
pub open spec fn implicit_fields(
    id: Seq<char>,
    single: Option<Seq<char>>,
    required: bool,
    media_default: bool,
) -> Seq<(Seq<char>, bool)> {
    let name = match single {
        Some(s) => s,
        None => if media_default {
            "media"@
        } else {
            id
        },
    };
    if media_default && name != "media"@ {
        seq![(name, required), ("media"@, false)]
    } else {
        seq![(name, required)]
    }
}

pub open spec fn single_field_of(field: Option<String>) -> Option<Seq<char>> {
    match field {
        Some(f) => if trim(f@).len() > 0 {
            Some(trim(f@))
        } else {
            None
        },
        None => None,
    }
}

/// The fields of a node, with whether it had a `fields` list, or why the
/// node is refused.
pub open spec fn node_fields(
    id: Seq<char>,
    params: Option<HttpInputParams>,
    media_default: bool,
) -> Result<(Seq<(Seq<char>, bool)>, bool), Seq<char>> {
    match params {
        None => Ok((implicit_fields(id, None, true, media_default), false)),
        Some(p) => match p.fields {
            FieldsParam::NotArray => Err(
                "streamkit::http_input.params.fields must be an array of strings or objects"@,
            ),
            FieldsParam::Entries(es) => match entries_fields(es@) {
                Err(m) => Err(m),
                Ok(list) => if list.len() == 0 {
                    Err("streamkit::http_input.params.fields must include at least one field"@)
                } else {
                    Ok((list, true))
                },
            },
            FieldsParam::Absent => match p.field {
                Some(f) => Ok(
                    (
                        implicit_fields(id, single_field_of(p.field), opt_or_true(p.required), media_default),
                        false,
                    ),
                ),
                None => Ok((implicit_fields(id, None, true, media_default), false)),
            },
        },
    }
}

pub open spec fn field_names(list: Seq<(Seq<char>, bool)>) -> Seq<Seq<char>> {
    list.map_values(|f: (Seq<char>, bool)| f.0)
}

/// The first name of `names` that was already taken, by `seen` or by an
/// earlier name of `names`.
pub open spec fn first_taken(seen: Seq<Seq<char>>, names: Seq<Seq<char>>) -> Option<Seq<char>>
    decreases names.len(),
{
    if names.len() == 0 {
        None
    } else if seen.contains(names[0]) {
        Some(names[0])
    } else {
        first_taken(seen.push(names[0]), names.skip(1))
    }
}

pub open spec fn duplicate_message(name: Seq<char>) -> Seq<char> {
    "Duplicate multipart field name '"@ + name + "' across http_input nodes"@
}

/// The bindings of a node's fields.
pub open spec fn node_bindings(
    id: Seq<char>,
    list: Seq<(Seq<char>, bool)>,
    pins: Seq<Seq<char>>,
    has_fields: bool,
) -> Seq<(Seq<char>, Seq<char>, Seq<char>, bool)> {
    list.map_values(|f: (Seq<char>, bool)| (id, f.0, output_pin_for(f.0, pins, has_fields), f.1))
}

/// The bindings of the `http_input` nodes among `nodes`, given the field
/// names `seen` bound before them, or the first refusal.
pub open spec fn bindings_from(
    seen: Seq<Seq<char>>,
    nodes: Seq<PipelineNodeInfo>,
    conns: Seq<PipelineConnection>,
    media_default: bool,
) -> Result<Seq<(Seq<char>, Seq<char>, Seq<char>, bool)>, Seq<char>>
    decreases nodes.len(),
{
    if nodes.len() == 0 {
        Ok(Seq::empty())
    } else if !is_http_input(nodes[0].kind@) {
        bindings_from(seen, nodes.skip(1), conns, media_default)
    } else {
        let n = nodes[0];
        match node_fields(n.id@, n.params, media_default) {
            Err(m) => Err(m),
            Ok((list, has_fields)) => match first_taken(seen, field_names(list)) {
                Some(d) => Err(duplicate_message(d)),
                None => match bindings_from(seen + field_names(list), nodes.skip(1), conns, media_default) {
                    Err(m) => Err(m),
                    Ok(rest) => Ok(node_bindings(n.id@, list, conn_pins(conns, n.id@), has_fields) + rest),
                },
            },
        }
    }
}

/// The entries of a node's `fields` list, when it has one.
pub open spec fn fields_entries(n: PipelineNodeInfo) -> Option<Seq<FieldEntry>> {
    match n.params {
        Some(p) => match p.fields {
            FieldsParam::Entries(es) => Some(es@),
            _ => None,
        },
        None => None,
    }
}

proof fn lemma_bindings_cover_entries(
    seen: Seq<Seq<char>>,
    nodes: Seq<PipelineNodeInfo>,
    conns: Seq<PipelineConnection>,
    media_default: bool,
    i: int,
    es: Seq<FieldEntry>,
    k: int,
)
    requires
        bindings_from(seen, nodes, conns, media_default) is Ok,
        0 <= i < nodes.len(),
        is_http_input(nodes[i].kind@),
        fields_entries(nodes[i]) == Some(es),
        0 <= k < es.len(),
    ensures
        exists|m: int|
            0 <= m < bindings_from(seen, nodes, conns, media_default)->Ok_0.len() && ({
                let b = #[trigger] bindings_from(seen, nodes, conns, media_default)->Ok_0[m];
                b.0 == nodes[i].id@ && Some(b.1) == declared_name(es[k]) && b.2 == b.1 && b.3 == !says_optional(es[k])
            }),
    decreases nodes.len(),
{
    let bs = bindings_from(seen, nodes, conns, media_default)->Ok_0;
    let n = nodes[0];
    if !is_http_input(n.kind@) {
        lemma_bindings_cover_entries(seen, nodes.skip(1), conns, media_default, i - 1, es, k);
        assert(nodes.skip(1)[i - 1] == nodes[i]);
    } else {
        let (list, has_fields) = node_fields(n.id@, n.params, media_default)->Ok_0;
        let nb = node_bindings(n.id@, list, conn_pins(conns, n.id@), has_fields);
        let rest_seen = seen + field_names(list);
        let rest = bindings_from(rest_seen, nodes.skip(1), conns, media_default)->Ok_0;
        assert(bs == nb + rest);
        if i == 0 {
            law_fields_required_unless_false(es);
            assert(list == entries_fields(es)->Ok_0);
            assert(bs[k] == nb[k]);
            assert(nb[k] == (n.id@, list[k].0, output_pin_for(list[k].0, conn_pins(conns, n.id@), has_fields), list[k].1));
        } else {
            assert(nodes.skip(1)[i - 1] == nodes[i]);
            lemma_bindings_cover_entries(rest_seen, nodes.skip(1), conns, media_default, i - 1, es, k);
            let m = choose|m: int|
                0 <= m < rest.len() && ({
                    let b = #[trigger] rest[m];
                    b.0 == nodes[i].id@ && Some(b.1) == declared_name(es[k]) && b.2 == b.1 && b.3 == !says_optional(es[k])
                });
            assert(bs[nb.len() + m] == rest[m]);
        }
    }
}

/// When a pipeline's bindings are produced, every entry of the `fields`
/// list of an `http_input` node is bound for that node under the name it
/// declares, read from the output pin of that name, and the binding is
/// required unless the entry is an object with `required: false`.
pub proof fn law_bound_fields_follow_entries(
    nodes: Seq<PipelineNodeInfo>,
    conns: Seq<PipelineConnection>,
    i: int,
    es: Seq<FieldEntry>,
    k: int,
)
    requires
        http_input_bindings(nodes, conns) is Ok,
        0 <= i < nodes.len(),
        is_http_input(nodes[i].kind@),
        fields_entries(nodes[i]) == Some(es),
        0 <= k < es.len(),
    ensures
        exists|m: int|
            0 <= m < http_input_bindings(nodes, conns)->Ok_0.len() && ({
                let b = #[trigger] http_input_bindings(nodes, conns)->Ok_0[m];
                b.0 == nodes[i].id@ && Some(b.1) == declared_name(es[k]) && b.2 == b.1 && b.3 == !says_optional(es[k])
            }),
{
    lemma_bindings_cover_entries(Seq::empty(), nodes, conns, http_input_count(nodes) == 1, i, es, k);
}

/// The bindings of a pipeline's `http_input` nodes, in node order.
pub open spec fn http_input_bindings(
    nodes: Seq<PipelineNodeInfo>,
    conns: Seq<PipelineConnection>,
) -> Result<Seq<(Seq<char>, Seq<char>, Seq<char>, bool)>, Seq<char>> {
    bindings_from(Seq::empty(), nodes, conns, http_input_count(nodes) == 1)
}

pub open spec fn prepend<T>(acc: Seq<T>, r: Result<Seq<T>, Seq<char>>) -> Result<Seq<T>, Seq<char>> {
    match r {
        Ok(s) => Ok(acc + s),
        Err(m) => Err(m),
    }
}

pub open spec fn bound_names(bs: Seq<(Seq<char>, Seq<char>, Seq<char>, bool)>) -> Seq<Seq<char>> {
    bs.map_values(|b: (Seq<char>, Seq<char>, Seq<char>, bool)| b.1)
}

proof fn lemma_first_taken_none(seen: Seq<Seq<char>>, names: Seq<Seq<char>>)
    requires
        seen.no_duplicates(),
        first_taken(seen, names) is None,
    ensures
        (seen + names).no_duplicates(),
    decreases names.len(),
{
    if names.len() > 0 {
        let s1 = seen.push(names[0]);
        assert forall|a: int, b: int| 0 <= a < b < s1.len() implies s1[a] != s1[b] by {
            if b == seen.len() {
                assert(s1[a] == seen[a]);
            }
        }
        lemma_first_taken_none(s1, names.skip(1));
        assert(seen + names =~= s1 + names.skip(1));
    } else {
        assert(seen + names =~= seen);
    }
}

proof fn lemma_bindings_distinct(
    seen: Seq<Seq<char>>,
    nodes: Seq<PipelineNodeInfo>,
    conns: Seq<PipelineConnection>,
    media_default: bool,
)
    requires
        seen.no_duplicates(),
    ensures
        bindings_from(seen, nodes, conns, media_default) matches Ok(bs) ==> (seen + bound_names(
            bs,
        )).no_duplicates(),
    decreases nodes.len(),
{
    if nodes.len() > 0 {
        let n = nodes[0];
        if !is_http_input(n.kind@) {
            lemma_bindings_distinct(seen, nodes.skip(1), conns, media_default);
        } else {
            match node_fields(n.id@, n.params, media_default) {
                Err(_) => {},
                Ok((list, has_fields)) => {
                    if first_taken(seen, field_names(list)) is None {
                        lemma_first_taken_none(seen, field_names(list));
                        let seen1 = seen + field_names(list);
                        lemma_bindings_distinct(seen1, nodes.skip(1), conns, media_default);
                        match bindings_from(seen1, nodes.skip(1), conns, media_default) {
                            Err(_) => {},
                            Ok(rest) => {
                                let nb = node_bindings(n.id@, list, conn_pins(conns, n.id@), has_fields);
                                assert(bound_names(nb) =~= field_names(list));
                                assert(bound_names(nb + rest) =~= bound_names(nb) + bound_names(rest));
                                assert(seen + bound_names(nb + rest) =~= seen1 + bound_names(rest));
                            },
                        }
                    }
                },
            }
        }
    }
}

/// A multipart field name is bound at most once across all `http_input`
/// nodes of a pipeline.
pub proof fn law_http_input_field_bound_once(nodes: Seq<PipelineNodeInfo>, conns: Seq<PipelineConnection>)
    ensures
        http_input_bindings(nodes, conns) matches Ok(bs) ==> bound_names(bs).no_duplicates(),
{
    lemma_bindings_distinct(Seq::empty(), nodes, conns, http_input_count(nodes) == 1);
    match http_input_bindings(nodes, conns) {
        Ok(bs) => {
            assert(Seq::<Seq<char>>::empty() + bound_names(bs) =~= bound_names(bs));
        },
        Err(_) => {},
    }
}

// ---------------------------------------------------------------------------
// Executable
// ---------------------------------------------------------------------------

fn is_http_input_kind(kind: &str) -> (r: bool)
    ensures
        r == is_http_input(kind@),
{
    str_equal(kind, "streamkit::http_input")
}

fn count_http_inputs(nodes: &Vec<PipelineNodeInfo>) -> (r: usize)
    ensures
        r == http_input_count(nodes@),
{
    let mut n: usize = 0;
    for i in 0..nodes.len()
        invariant
            n == http_input_count(nodes@.take(i as int)),
            n <= i,
    {
        assert(nodes@.take(i + 1).drop_last() =~= nodes@.take(i as int));
        if is_http_input_kind(nodes[i].kind.as_str()) {
            n = n + 1;
        }
    }
    assert(nodes@.take(nodes.len() as int) =~= nodes@);
    n
}

fn pins_of(conns: &Vec<PipelineConnection>, id: &str) -> (r: Vec<String>)
    ensures
        r@.map_values(|s: String| s@) == conn_pins(conns@, id@),
{
    let mut r: Vec<String> = Vec::new();
    for i in 0..conns.len()
        invariant
            r@.map_values(|s: String| s@) == conn_pins(conns@.take(i as int), id@),
    {
        assert(conns@.take(i + 1).drop_last() =~= conns@.take(i as int));
        if str_equal(conns[i].from_node.as_str(), id) {
            let ghost before = r@;
            r.push(conns[i].from_pin.clone());
            assert(r@.map_values(|s: String| s@) =~= before.map_values(|s: String| s@).push(
                conns@[i as int].from_pin@,
            ));
        }
    }
    assert(conns@.take(conns.len() as int) =~= conns@);
    r
}

fn contains_text(v: &Vec<String>, t: &str) -> (r: bool)
    ensures
        r == v@.map_values(|s: String| s@).contains(t@),
{
    for i in 0..v.len()
        invariant
            forall|j: int| 0 <= j < i ==> v@[j]@ != t@,
    {
        if str_equal(v[i].as_str(), t) {
            assert(v@.map_values(|s: String| s@)[i as int] == t@);
            return true;
        }
    }
    false
}

fn single_pin_of(pins: &Vec<String>) -> (r: Option<String>)
    ensures
        match single_pin(pins@.map_values(|s: String| s@)) {
            Some(p) => r matches Some(q) && q@ == p,
            None => r is None,
        },
{
    let ghost ps = pins@.map_values(|s: String| s@);
    if pins.len() == 0 {
        return None;
    }
    for i in 0..pins.len()
        invariant
            pins@.len() > 0,
            ps == pins@.map_values(|s: String| s@),
            forall|k: int| 0 <= k < i ==> #[trigger] ps[k] == ps[0],
    {
        if !str_equal(pins[i].as_str(), pins[0].as_str()) {
            assert(ps[i as int] != ps[0]);
            return None;
        }
    }
    Some(pins[0].clone())
}

fn output_pin(name: &String, pins: &Vec<String>, has_fields: bool) -> (r: String)
    ensures
        r@ == output_pin_for(name@, pins@.map_values(|s: String| s@), has_fields),
{
    if contains_text(pins, name.as_str()) {
        return name.clone();
    }
    if !has_fields {
        if let Some(p) = single_pin_of(pins) {
            return p;
        }
    }
    name.clone()
}

fn trimmed(s: &str) -> (r: String)
    ensures
        r@ == trim(s@),
{
    let v = chars_of(s);
    let t = trim_chars(&v);
    string_of(&t)
}

fn entry_field_exec(e: &FieldEntry) -> (r: Result<(String, bool), String>)
    ensures
        match entry_field(*e) {
            Ok(f) => r matches Ok(g) && g.0@ == f.0 && g.1 == f.1,
            Err(m) => r matches Err(n) && n@ == m,
        },
{
    match e {
        FieldEntry::Text(s) => Ok((s.clone(), true)),
        FieldEntry::Object { name, required } => match name {
            FieldName::Missing => Err("fields entries must include 'name'".to_owned()),
            FieldName::NotText => Err("fields.name must be a string".to_owned()),
            FieldName::Text(n) => {
                let t = trimmed(n.as_str());
                if t.as_str().unicode_len() == 0 {
                    Err("fields.name must not be empty".to_owned())
                } else {
                    let req = match required {
                        Some(b) => *b,
                        None => true,
                    };
                    Ok((t, req))
                }
            },
        },
        FieldEntry::Other => Err("fields entries must be strings or objects".to_owned()),
    }
}

pub open spec fn field_views(v: Seq<(String, bool)>) -> Seq<(Seq<char>, bool)> {
    v.map_values(|f: (String, bool)| (f.0@, f.1))
}

fn entries_fields_exec(es: &Vec<FieldEntry>) -> (r: Result<Vec<(String, bool)>, String>)
    ensures
        match entries_fields(es@) {
            Ok(list) => r matches Ok(v) && field_views(v@) == list,
            Err(m) => r matches Err(n) && n@ == m,
        },
{
    let mut out: Vec<(String, bool)> = Vec::new();
    assert(es@.skip(0) =~= es@);
    for i in 0..es.len()
        invariant
            entries_fields(es@) == prepend(field_views(out@), entries_fields(es@.skip(i as int))),
    {
        let ghost tail = es@.skip(i as int);
        assert(tail[0] == es@[i as int]);
        assert(tail.skip(1) =~= es@.skip(i + 1));
        match entry_field_exec(&es[i]) {
            Err(m) => {
                return Err(m);
            },
            Ok(f) => {
                let ghost before = field_views(out@);
                out.push(f);
                assert(field_views(out@) =~= before + seq![(f.0@, f.1)]);
                proof {
                    match entries_fields(es@.skip(i + 1)) {
                        Ok(rest) => {
                            assert(before + (seq![(f.0@, f.1)] + rest) =~= field_views(out@) + rest);
                        },
                        Err(_) => {},
                    }
                }
            },
        }
    }
    assert(es@.skip(es.len() as int) =~= Seq::<FieldEntry>::empty());
    assert(field_views(out@) + Seq::<(Seq<char>, bool)>::empty() =~= field_views(out@));
    Ok(out)
}

fn implicit_fields_exec(
    id: &String,
    single: Option<String>,
    required: bool,
    media_default: bool,
) -> (r: Vec<(String, bool)>)
    ensures
        field_views(r@) == implicit_fields(
            id@,
            match single {
                Some(s) => Some(s@),
                None => None,
            },
            required,
            media_default,
        ),
{
    let name = match single {
        Some(s) => s,
        None => if media_default {
            "media".to_owned()
        } else {
            id.clone()
        },
    };
    let mut r: Vec<(String, bool)> = Vec::new();
    let is_media = str_equal(name.as_str(), "media");
    let ghost n = name@;
    r.push((name, required));
    if media_default && !is_media {
        r.push(("media".to_owned(), false));
        assert(field_views(r@) =~= seq![(n, required), ("media"@, false)]);
    } else {
        assert(field_views(r@) =~= seq![(n, required)]);
    }
    r
}

fn node_fields_exec(node: &PipelineNodeInfo, media_default: bool) -> (r: Result<
    (Vec<(String, bool)>, bool),
    String,
>)
    ensures
        match node_fields(node.id@, node.params, media_default) {
            Ok((list, has_fields)) => r matches Ok((v, h)) && field_views(v@) == list && h
                == has_fields,
            Err(m) => r matches Err(n) && n@ == m,
        },
{
    let mut has_fields_param = false;
    let mut has_single_field_param = false;
    let mut single_field: Option<String> = None;
    let mut single_required = true;
    let mut list: Vec<(String, bool)> = Vec::new();
    match &node.params {
        None => {},
        Some(p) => match &p.fields {
            FieldsParam::NotArray => {
                return Err(
                    "streamkit::http_input.params.fields must be an array of strings or objects".to_owned(),
                );
            },
            FieldsParam::Entries(es) => {
                has_fields_param = true;
                match entries_fields_exec(es) {
                    Err(m) => {
                        return Err(m);
                    },
                    Ok(v) => {
                        list = v;
                    },
                }
            },
            FieldsParam::Absent => {
                if let Some(f) = &p.field {
                    has_single_field_param = true;
                    let t = trimmed(f.as_str());
                    if t.as_str().unicode_len() > 0 {
                        single_field = Some(t);
                    }
                    if let Some(b) = p.required {
                        single_required = b;
                    }
                }
            },
        },
    }
    if has_fields_param && has_single_field_param {
        return Err("streamkit::http_input: use either 'field' or 'fields', not both".to_owned());
    }
    if has_fields_param && list.len() == 0 {
        return Err("streamkit::http_input.params.fields must include at least one field".to_owned());
    }
    if has_fields_param {
        return Ok((list, true));
    }
    let fields = implicit_fields_exec(&node.id, single_field, single_required, media_default);
    Ok((fields, false))
}

/// No two nodes of a pipeline share an id: a pipeline keys its nodes by id.
pub open spec fn node_ids_distinct(nodes: Seq<PipelineNodeInfo>) -> bool {
    forall|i: int, j: int| 0 <= i < nodes.len() && 0 <= j < nodes.len() && i != j ==> #[trigger] nodes[i].id@ != #[trigger] nodes[j].id@
}

/// The bindings of the fields of the `http_input` nodes of a pipeline, in
/// node order; refused with a message when a node's parameters are
/// malformed or a field name is bound twice.
pub fn determine_http_input_bindings(
    nodes: &Vec<PipelineNodeInfo>,
    connections: &Vec<PipelineConnection>,
) -> (r: Result<Vec<HttpInputBinding>, String>)
    requires
        node_ids_distinct(nodes@),
    ensures
        match http_input_bindings(nodes@, connections@) {
            Ok(bs) => r matches Ok(v) && binding_views(v@) == bs,
            Err(m) => r matches Err(e) && e@ == m,
        },
{
    let media_default = count_http_inputs(nodes) == 1;
    let mut out: Vec<HttpInputBinding> = Vec::new();
    let mut seen: Vec<String> = Vec::new();
    assert(nodes@.skip(0) =~= nodes@);
    assert(seen@.map_values(|s: String| s@) =~= Seq::<Seq<char>>::empty());
    assert(binding_views(out@) =~= Seq::empty());
    for i in 0..nodes.len()
        invariant
            media_default == (http_input_count(nodes@) == 1),
            http_input_bindings(nodes@, connections@) == prepend(
                binding_views(out@),
                bindings_from(seen@.map_values(|s: String| s@), nodes@.skip(i as int), connections@, media_default),
            ),
    {
        let ghost tail = nodes@.skip(i as int);
        assert(tail[0] == nodes@[i as int]);
        assert(tail.skip(1) =~= nodes@.skip(i + 1));
        let node = &nodes[i];
        if is_http_input_kind(node.kind.as_str()) {
            let (list, has_fields) = match node_fields_exec(node, media_default) {
                Err(m) => {
                    return Err(m);
                },
                Ok(x) => x,
            };
            let pins = pins_of(connections, node.id.as_str());
            let ghost seen0 = seen@.map_values(|s: String| s@);
            let ghost out0 = binding_views(out@);
            let ghost lv = field_views(list@);
            let ghost names = field_names(lv);
            let ghost pv = pins@.map_values(|s: String| s@);
            assert(names.skip(0) =~= names);
            for k in 0..list.len()
                invariant
                    i < nodes@.len(),
                    nodes@.skip(i as int)[0] == *node,
                    nodes@.skip(i as int).skip(1) == nodes@.skip(i + 1),
                    is_http_input(node.kind@),
                    node_fields(node.id@, node.params, media_default) == Ok::<(Seq<(Seq<char>, bool)>, bool), Seq<char>>((lv, has_fields)),
                    http_input_bindings(nodes@, connections@) == prepend(
                        out0,
                        bindings_from(seen0, nodes@.skip(i as int), connections@, media_default),
                    ),
                    lv == field_views(list@),
                    names == field_names(lv),
                    pv == pins@.map_values(|s: String| s@),
                    pv == conn_pins(connections@, node.id@),
                    seen@.map_values(|s: String| s@) == seen0 + names.take(k as int),
                    binding_views(out@) == out0 + node_bindings(node.id@, lv, pv, has_fields).take(k as int),
                    first_taken(seen0, names) == first_taken(seen0 + names.take(k as int), names.skip(k as int)),
            {
                let ghost sk = seen0 + names.take(k as int);
                assert(names.skip(k as int)[0] == names[k as int]);
                assert(names.skip(k as int).skip(1) =~= names.skip(k + 1));
                assert(names.take(k + 1) =~= names.take(k as int).push(names[k as int]));
                assert(sk.push(names[k as int]) =~= seen0 + names.take(k + 1));
                let name = &list[k].0;
                if contains_text(&seen, name.as_str()) {
                    let mut m: Vec<char> = Vec::new();
                    extend_str(&mut m, "Duplicate multipart field name '");
                    extend_str(&mut m, name.as_str());
                    extend_str(&mut m, "' across http_input nodes");
                    proof {
                        assert(first_taken(seen0, names) == Some(names[k as int]));
                    }
                    return Err(string_of(&m));
                }
                let pin = output_pin(name, &pins, has_fields);
                let ghost before = binding_views(out@);
                out.push(HttpInputBinding {
                    node_id: node.id.clone(),
                    field_name: name.clone(),
                    output_pin: pin,
                    required: list[k].1,
                });
                assert(node_bindings(node.id@, lv, pv, has_fields).take(k + 1) =~= node_bindings(
                    node.id@,
                    lv,
                    pv,
                    has_fields,
                ).take(k as int).push(node_bindings(node.id@, lv, pv, has_fields)[k as int]));
                assert(binding_views(out@) =~= before.push(node_bindings(node.id@, lv, pv, has_fields)[k as int]));
                let ghost sb = seen@;
                seen.push(name.clone());
                assert(seen@.map_values(|s: String| s@) =~= sb.map_values(|s: String| s@).push(names[k as int]));
            }
            proof {
                assert(names.take(names.len() as int) =~= names);
                assert(names.skip(names.len() as int) =~= Seq::<Seq<char>>::empty());
                let nb = node_bindings(node.id@, lv, pv, has_fields);
                assert(nb.take(nb.len() as int) =~= nb);
                match bindings_from(seen0 + names, nodes@.skip(i + 1), connections@, media_default) {
                    Ok(rest) => {
                        assert(out0 + (nb + rest) =~= (out0 + nb) + rest);
                    },
                    Err(_) => {},
                }
            }
        }
    }
    assert(nodes@.skip(nodes.len() as int) =~= Seq::<PipelineNodeInfo>::empty());
    assert(binding_views(out@) + Seq::<(Seq<char>, Seq<char>, Seq<char>, bool)>::empty() =~= binding_views(out@));
    Ok(out)
}

} // verus!
