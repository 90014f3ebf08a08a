//! Bounded metric attributes: a pipeline declares key/value attributes and
//! the operator's policy decides which keys are kept and which values pass,
//! so a user-submitted pipeline can never inflate metric cardinality.
use vstd::hash_map::StringHashMap;
use vstd::prelude::*;

use crate::permissions::texts;
use crate::text::{ascii_lower, chars_equal, chars_of, string_of, to_ascii_lower, trim, trim_chars};

verus! {

/// Label keys emitted by the engine's node and pipeline instruments.
pub const STATUS_KEY: &'static str = "status";
pub const NODE_ID_KEY: &'static str = "node_id";
pub const NODE_KIND_KEY: &'static str = "node_kind";
pub const STATE_KEY: &'static str = "state";
pub const PIN_NAME_KEY: &'static str = "pin_name";

/// Label keys of the HTTP request metrics.
pub const HTTP_METHOD_KEY: &'static str = "http.method";
pub const HTTP_ROUTE_KEY: &'static str = "http.route";
pub const HTTP_STATUS_CODE_KEY: &'static str = "http.status_code";

/// How one attribute key is bounded: an allowlist of values (empty:
/// any non-empty value passes) and the value used otherwise.
#[derive(Debug)]
pub struct MetricsAttributePolicy {
    pub allowed: Vec<String>,
    pub fallback: String,
}

impl MetricsAttributePolicy {
    /// A policy without allowlist lets any non-empty value through.
    pub fn is_passthrough(&self) -> (r: bool)
        ensures
            r == (self.allowed@.len() == 0),
    {
        self.allowed.len() == 0
    }
}

/// Trimmed and ASCII lower-cased.
pub open spec fn normalized(s: Seq<char>) -> Seq<char> {
    ascii_lower(trim(s))
}

/// Canonical normalization for attribute values and policy entries.
pub fn normalize(value: &str) -> (r: String)
    ensures
        r@ == normalized(value@),
{
    let v = chars_of(value);
    let t = trim_chars(&v);
    let l = to_ascii_lower(&t);
    string_of(&l)
}

/// The value a declared value is recorded as under `policy`.
pub open spec fn classified(value: Seq<char>, allowed: Seq<Seq<char>>, fallback: Seq<char>) -> Seq<
    char,
> {
    let v = normalized(value);
    if v.len() == 0 {
        fallback
    } else if allowed.len() == 0 || allowed.contains(v) {
        v
    } else {
        fallback
    }
}

/// A classified value is one of the allowlist or the fallback; without an
/// allowlist it is the non-empty normalized value or the fallback.
pub proof fn law_classified_is_bounded(value: Seq<char>, allowed: Seq<Seq<char>>, fallback: Seq<char>)
    ensures
        allowed.len() > 0 ==> allowed.contains(classified(value, allowed, fallback)) || classified(
            value,
            allowed,
            fallback,
        ) == fallback,
        allowed.len() == 0 ==> classified(value, allowed, fallback) == fallback || (classified(
            value,
            allowed,
            fallback,
        ) == normalized(value) && normalized(value).len() > 0),
{
}

fn contains_text(list: &Vec<String>, v: &Vec<char>) -> (r: bool)
    ensures
        r == texts(list@).contains(v@),
{
    for i in 0..list.len()
        invariant
            forall|j: int| 0 <= j < i ==> texts(list@)[j] != v@,
    {
        let e = chars_of(list[i].as_str());
        if chars_equal(&e, v) {
            assert(texts(list@)[i as int] == v@);
            return true;
        }
    }
    false
}

/// Constrains a declared value by its policy: empty values and values
/// outside a non-empty allowlist become the fallback.
pub fn classify(value: &str, policy: &MetricsAttributePolicy) -> (r: String)
    ensures
        r@ == classified(value@, texts(policy.allowed@), policy.fallback@),
{
    let v = normalize(value);
    let vc = chars_of(v.as_str());
    if vc.len() == 0 {
        return policy.fallback.clone();
    }
    if policy.is_passthrough() || contains_text(&policy.allowed, &vc) {
        v
    } else {
        policy.fallback.clone()
    }
}

// ---------------------------------------------------------------------------
// Ordering of keys
// ---------------------------------------------------------------------------

/// Lexicographic order by code point, which is how `String`s compare.
pub open spec fn text_lt(a: Seq<char>, b: Seq<char>) -> bool
    decreases a.len(),
{
    if a.len() == 0 {
        b.len() > 0
    } else if b.len() == 0 {
        false
    } else if a[0] != b[0] {
        a[0] < b[0]
    } else {
        text_lt(a.drop_first(), b.drop_first())
    }
}

pub proof fn lemma_text_lt_irreflexive(a: Seq<char>)
    ensures
        !text_lt(a, a),
    decreases a.len(),
{
    if a.len() > 0 {
        lemma_text_lt_irreflexive(a.drop_first());
    }
}

pub proof fn lemma_text_lt_trichotomy(a: Seq<char>, b: Seq<char>)
    ensures
        text_lt(a, b) || text_lt(b, a) || a == b,
        !(text_lt(a, b) && text_lt(b, a)),
    decreases a.len(),
{
    if a.len() > 0 && b.len() > 0 {
        if a[0] == b[0] {
            lemma_text_lt_trichotomy(a.drop_first(), b.drop_first());
            if a.drop_first() == b.drop_first() {
                assert forall|i: int| 0 <= i < a.len() implies a[i] == b[i] by {
                    if i > 0 {
                        assert(a[i] == a.drop_first()[i - 1]);
                        assert(b[i] == b.drop_first()[i - 1]);
                    }
                }
                assert(a =~= b);
            }
        }
    } else if a.len() == 0 && b.len() == 0 {
        assert(a =~= b);
    }
}

pub proof fn lemma_text_lt_transitive(a: Seq<char>, b: Seq<char>, c: Seq<char>)
    requires
        text_lt(a, b),
        text_lt(b, c),
    ensures
        text_lt(a, c),
    decreases a.len(),
{
    if a.len() > 0 && b.len() > 0 && c.len() > 0 {
        if a[0] == b[0] && b[0] == c[0] {
            lemma_text_lt_transitive(a.drop_first(), b.drop_first(), c.drop_first());
        }
    }
}

pub fn text_less(a: &Vec<char>, b: &Vec<char>) -> (r: bool)
    ensures
        r == text_lt(a@, b@),
{
    let mut i: usize = 0;
    assert(a@.skip(0) =~= a@);
    assert(b@.skip(0) =~= b@);
    while i < a.len() && i < b.len() && a[i] == b[i]
        invariant
            i <= a.len(),
            i <= b.len(),
            forall|j: int| 0 <= j < i ==> a@[j] == b@[j],
            text_lt(a@, b@) == text_lt(a@.skip(i as int), b@.skip(i as int)),
        decreases a.len() - i,
    {
        assert(a@.skip(i as int).drop_first() =~= a@.skip(i + 1));
        assert(b@.skip(i as int).drop_first() =~= b@.skip(i + 1));
        i = i + 1;
    }
    if i == a.len() {
        i < b.len()
    } else if i == b.len() {
        false
    } else {
        assert(a@.skip(i as int)[0] == a@[i as int]);
        assert(b@.skip(i as int)[0] == b@[i as int]);
        a[i] < b[i]
    }
}

// ---------------------------------------------------------------------------
// Resolution
// ---------------------------------------------------------------------------

/// Keys strictly increasing.
pub open spec fn sorted_keys(entries: Seq<(Seq<char>, Seq<char>)>) -> bool {
    forall|i: int, j: int|
        0 <= i < j < entries.len() ==> text_lt(#[trigger] entries[i].0, #[trigger] entries[j].0)
}

pub open spec fn entry_texts(v: Seq<(String, String)>) -> Seq<(Seq<char>, Seq<char>)> {
    v.map_values(|p: (String, String)| (p.0@, p.1@))
}

pub open spec fn as_map(entries: Seq<(Seq<char>, Seq<char>)>) -> Map<Seq<char>, Seq<char>>
    decreases entries.len(),
{
    if entries.len() == 0 {
        Map::empty()
    } else {
        as_map(entries.drop_last()).insert(entries.last().0, entries.last().1)
    }
}

pub open spec fn policy_texts(policy: Map<Seq<char>, MetricsAttributePolicy>) -> Map<
    Seq<char>,
    (Seq<Seq<char>>, Seq<char>),
> {
    Map::new(
        |k: Seq<char>| policy.contains_key(k),
        |k: Seq<char>| (texts(policy[k].allowed@), policy[k].fallback@),
    )
}

/// The resolved attributes: each declared key, normalized, that the policy
/// governs, with its value classified; among declared keys that normalize
/// alike, the later one wins.
pub open spec fn resolved(
    declared: Seq<(Seq<char>, Seq<char>)>,
    policy: Map<Seq<char>, (Seq<Seq<char>>, Seq<char>)>,
) -> Map<Seq<char>, Seq<char>>
    decreases declared.len(),
{
    if declared.len() == 0 {
        Map::empty()
    } else {
        let before = resolved(declared.drop_last(), policy);
        let (k, v) = declared.last();
        let key = normalized(k);
        if policy.contains_key(key) {
            before.insert(key, classified(v, policy[key].0, policy[key].1))
        } else {
            before
        }
    }
}

proof fn lemma_as_map_sorted_update(
    entries: Seq<(Seq<char>, Seq<char>)>,
    p: int,
    key: Seq<char>,
    value: Seq<char>,
)
    requires
        sorted_keys(entries),
        0 <= p < entries.len(),
        entries[p].0 == key,
    ensures
        as_map(entries.update(p, (key, value))) == as_map(entries).insert(key, value),
    decreases entries.len(),
{
    let n = entries.len();
    let u = entries.update(p, (key, value));
    if p == n - 1 {
        assert(u.drop_last() =~= entries.drop_last());
        assert forall|i: int| 0 <= i < entries.drop_last().len() implies #[trigger] entries.drop_last()[i].0 != key by {
            assert(entries.drop_last()[i] == entries[i]);
            assert(text_lt(entries[i].0, entries[p].0));
            lemma_text_lt_irreflexive(key);
        }
        lemma_as_map_lacks(entries.drop_last(), key);
        assert(as_map(entries).insert(key, value) =~= as_map(entries.drop_last()).insert(key, value));
    } else {
        let rest = entries.drop_last();
        assert(sorted_keys(rest));
        lemma_as_map_sorted_update(rest, p, key, value);
        assert(u.drop_last() =~= rest.update(p, (key, value)));
        assert(text_lt(entries[p].0, entries[n - 1].0));
        lemma_text_lt_irreflexive(key);
        assert(entries.last().0 != key);
        assert(as_map(u) =~= as_map(entries).insert(key, value));
    }
}

proof fn lemma_as_map_lacks(entries: Seq<(Seq<char>, Seq<char>)>, key: Seq<char>)
    requires
        forall|i: int| 0 <= i < entries.len() ==> #[trigger] entries[i].0 != key,
    ensures
        !as_map(entries).contains_key(key),
    decreases entries.len(),
{
    if entries.len() > 0 {
        lemma_as_map_lacks(entries.drop_last(), key);
    }
}

proof fn lemma_as_map_insert_at(
    entries: Seq<(Seq<char>, Seq<char>)>,
    p: int,
    key: Seq<char>,
    value: Seq<char>,
)
    requires
        0 <= p <= entries.len(),
        forall|i: int| 0 <= i < entries.len() ==> #[trigger] entries[i].0 != key,
    ensures
        as_map(entries.insert(p, (key, value))) == as_map(entries).insert(key, value),
    decreases entries.len(),
{
    let n = entries.len();
    let u = entries.insert(p, (key, value));
    if p == n {
        assert(u.drop_last() =~= entries);
        assert(as_map(u) =~= as_map(entries).insert(key, value));
    } else {
        let rest = entries.drop_last();
        lemma_as_map_insert_at(rest, p, key, value);
        assert(u.drop_last() =~= rest.insert(p, (key, value)));
        assert(u.last() == entries.last());
        assert(entries.last().0 != key);
        assert(as_map(u) =~= as_map(entries).insert(key, value));
    }
}

fn upsert(entries: &mut Vec<(String, String)>, key: String, value: String)
    requires
        sorted_keys(entry_texts(old(entries)@)),
    ensures
        sorted_keys(entry_texts(final(entries)@)),
        as_map(entry_texts(final(entries)@)) == as_map(entry_texts(old(entries)@)).insert(
            key@,
            value@,
        ),
{
    let k = chars_of(key.as_str());
    let mut p: usize = 0;
    while p < entries.len()
        invariant
            p <= entries@.len(),
            k@ == key@,
            forall|j: int| 0 <= j < p ==> text_lt(#[trigger] entry_texts(entries@)[j].0, k@),
        ensures
            p <= entries@.len(),
            forall|j: int| 0 <= j < p ==> text_lt(#[trigger] entry_texts(entries@)[j].0, k@),
            p < entries@.len() ==> !text_lt(entry_texts(entries@)[p as int].0, k@),
        decreases entries.len() - p,
    {
        let e = chars_of(entries[p].0.as_str());
        assert(entry_texts(entries@)[p as int].0 == e@);
        if !text_less(&e, &k) {
            break;
        }
        assert(entry_texts(entries@)[p as int].0 == e@);
        p = p + 1;
    }
    let ghost old_texts = entry_texts(entries@);
    if p < entries.len() {
        let e = chars_of(entries[p].0.as_str());
        assert(old_texts[p as int].0 == e@);
        if chars_equal(&e, &k) {
            proof {
                lemma_as_map_sorted_update(old_texts, p as int, key@, value@);
            }
            entries.set(p, (key, value));
            assert(entry_texts(entries@) =~= old_texts.update(p as int, (old_texts[p as int].0, value@)));
            return;
        }
        proof {
            lemma_text_lt_trichotomy(e@, k@);
        }
        assert(text_lt(k@, old_texts[p as int].0));
    }
    assert(p < old_texts.len() ==> text_lt(k@, old_texts[p as int].0));
    proof {
        assert forall|i: int| 0 <= i < old_texts.len() implies #[trigger] old_texts[i].0 != key@ by {
            if i < p {
                lemma_text_lt_irreflexive(key@);
            } else {
                assert(text_lt(k@, old_texts[p as int].0));
                if i > p {
                    assert(text_lt(old_texts[p as int].0, old_texts[i].0));
                    lemma_text_lt_transitive(k@, old_texts[p as int].0, old_texts[i].0);
                }
                lemma_text_lt_irreflexive(key@);
            }
        }
        lemma_as_map_insert_at(old_texts, p as int, key@, value@);
    }
    entries.insert(p, (key, value));
    let ghost nt = entry_texts(entries@);
    assert(nt =~= old_texts.insert(p as int, (key@, value@)));
    assert forall|i: int, j: int| 0 <= i < j < nt.len() implies text_lt(
        #[trigger] nt[i].0,
        #[trigger] nt[j].0,
    ) by {
        if j < p {
        } else if i < p && j == p {
        } else if i < p && j > p {
            assert(nt[j] == old_texts[j - 1]);
            if j - 1 == p {
                assert(text_lt(k@, old_texts[p as int].0));
                lemma_text_lt_transitive(nt[i].0, k@, nt[j].0);
            } else {
                assert(text_lt(k@, old_texts[p as int].0));
                assert(text_lt(old_texts[p as int].0, old_texts[j - 1].0));
                lemma_text_lt_transitive(k@, old_texts[p as int].0, old_texts[j - 1].0);
                lemma_text_lt_transitive(nt[i].0, k@, nt[j].0);
            }
        } else if i == p {
            assert(nt[j] == old_texts[j - 1]);
            if j - 1 > p {
                assert(text_lt(old_texts[p as int].0, old_texts[j - 1].0));
                lemma_text_lt_transitive(k@, old_texts[p as int].0, old_texts[j - 1].0);
            }
        } else {
            assert(nt[i] == old_texts[i - 1]);
            assert(nt[j] == old_texts[j - 1]);
        }
    }
}

/// Resolution never emits a key that the policy does not govern, and each
/// emitted value is bounded by its key's policy: so the set of label values
/// a pipeline can produce is fixed by the operator, whatever it declares.
pub proof fn law_resolved_is_bounded(
    declared: Seq<(Seq<char>, Seq<char>)>,
    policy: Map<Seq<char>, (Seq<Seq<char>>, Seq<char>)>,
)
    ensures
        forall|k: Seq<char>| #[trigger] resolved(declared, policy).contains_key(k) ==> {
            let v = resolved(declared, policy)[k];
            &&& policy.contains_key(k)
            &&& policy[k].0.len() > 0 ==> policy[k].0.contains(v) || v == policy[k].1
        },
    decreases declared.len(),
{
    if declared.len() > 0 {
        law_resolved_is_bounded(declared.drop_last(), policy);
        let before = resolved(declared.drop_last(), policy);
        let (k, v) = declared.last();
        let key = normalized(k);
        if policy.contains_key(key) {
            law_classified_is_bounded(v, policy[key].0, policy[key].1);
        }
        let after = resolved(declared, policy);
        assert forall|k2: Seq<char>| #[trigger] after.contains_key(k2) implies {
            let v2 = after[k2];
            &&& policy.contains_key(k2)
            &&& policy[k2].0.len() > 0 ==> policy[k2].0.contains(v2) || v2 == policy[k2].1
        } by {
            if k2 != key || !policy.contains_key(key) {
                assert(before.contains_key(k2));
                assert(after[k2] == before[k2]);
            }
        }
    }
}

pub open spec fn opt_entries(d: Option<&Vec<(String, String)>>) -> Seq<(Seq<char>, Seq<char>)> {
    match d {
        Some(v) => entry_texts(v@),
        None => Seq::empty(),
    }
}

/// Resolves a pipeline's declared attributes (in their declared order)
/// against the operator policy: keys are normalized, keys the policy does
/// not govern are dropped, values are classified, and keys that collide
/// after normalization collapse to one entry. The result is sorted by key.
pub fn resolve_attributes(
    declared: Option<&Vec<(String, String)>>,
    policy: &StringHashMap<MetricsAttributePolicy>,
) -> (r: Vec<(String, String)>)
    ensures
        sorted_keys(entry_texts(r@)),
        as_map(entry_texts(r@)) == resolved(opt_entries(declared), policy_texts(policy@)),
{
    let mut out: Vec<(String, String)> = Vec::new();
    let ghost pol = policy_texts(policy@);
    let d = match declared {
        Some(d) => d,
        None => {
            assert(as_map(entry_texts(out@)) =~= Map::empty());
            return out;
        },
    };
    for i in 0..d.len()
        invariant
            pol == policy_texts(policy@),
            sorted_keys(entry_texts(out@)),
            as_map(entry_texts(out@)) == resolved(entry_texts(d@).take(i as int), pol),
    {
        let ghost prefix = entry_texts(d@).take(i as int);
        assert(entry_texts(d@).take(i + 1).drop_last() =~= prefix);
        assert(entry_texts(d@).take(i + 1).last() == (d@[i as int].0@, d@[i as int].1@));
        let key = normalize(d[i].0.as_str());
        match policy.get(key.as_str()) {
            Some(p) => {
                let value = classify(d[i].1.as_str(), p);
                upsert(&mut out, key, value);
            },
            None => {},
        }
    }
    assert(entry_texts(d@).take(d.len() as int) =~= entry_texts(d@));
    out
}

} // verus!
