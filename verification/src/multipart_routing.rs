//! The routing of the multipart fields of a one-shot request to the
//! `http_input` bindings: each expected field is taken once, an unexpected
//! or repeated field refuses the request, and the request is refused at the
//! end if a required field never came.
use vstd::prelude::*;

use crate::http_inputs::HttpInputBinding;
use crate::text::{chars_of, extend_chars, extend_str, join_chars, join_with, str_equal, string_of};

verus! {

/// What to do with a multipart field.
#[derive(Debug, Clone, PartialEq, Eq)]
pub enum FieldRoute {
    /// A field without a name is skipped.
    Skip,
    /// Stream the field to its binding; `all_required_seen` is set on the
    /// field that completes the required ones.
    Route { all_required_seen: bool },
    /// Refuse the request with this message.
    Unexpected(String),
}

/// The state of the routing: the fields still expected, the required
/// fields, and the required fields seen so far.
pub struct MultipartRouter {
    pending: Vec<String>,
    required: Vec<String>,
    seen_required: Vec<String>,
}

pub struct RouterView {
    pub pending: Seq<Seq<char>>,
    pub required: Seq<Seq<char>>,
    pub seen: Seq<Seq<char>>,
}

pub open spec fn names(v: Seq<String>) -> Seq<Seq<char>> {
    v.map_values(|s: String| s@)
}

impl View for MultipartRouter {
    type V = RouterView;

    closed spec fn view(&self) -> RouterView {
        RouterView { pending: names(self.pending@), required: names(self.required@), seen: names(self.seen_required@) }
    }
}

/// The field names of `bindings` (only the required ones when
/// `only_required`), each at its first occurrence, in binding order.
pub open spec fn field_names_in_order(bindings: Seq<HttpInputBinding>, only_required: bool) -> Seq<Seq<char>>
    decreases bindings.len(),
{
    if bindings.len() == 0 {
        Seq::empty()
    } else {
        let p = field_names_in_order(bindings.drop_last(), only_required);
        let b = bindings.last();
        if (only_required && !b.required) || p.contains(b.field_name@) {
            p
        } else {
            p.push(b.field_name@)
        }
    }
}

pub open spec fn first_index_of_name(v: Seq<Seq<char>>, n: Seq<char>) -> int {
    choose|i: int| 0 <= i < v.len() && v[i] == n
}

/// The message of an unexpected field, listing the fields still expected.
pub open spec fn unexpected_message(name: Seq<char>, pending: Seq<Seq<char>>) -> Seq<char> {
    "Unexpected multipart field '"@ + name + "'. Expected: "@ + if pending.len() == 0 {
        "none"@
    } else {
        join_with(pending, ", "@)
    }
}

/// The required fields not seen.
pub open spec fn missing_fields(required: Seq<Seq<char>>, seen: Seq<Seq<char>>) -> Seq<Seq<char>> {
    required.filter(|r: Seq<char>| !seen.contains(r))
}

pub open spec fn router_valid(v: RouterView) -> bool {
    &&& v.pending.no_duplicates()
    &&& v.required.no_duplicates()
    &&& v.seen.no_duplicates()
    &&& forall|x: Seq<char>| #[trigger] v.seen.contains(x) ==> v.required.contains(x) && !v.pending.contains(x)
}

fn vec_contains(v: &Vec<String>, t: &str) -> (r: Option<usize>)
    ensures
        match r {
            Some(i) => i < v@.len() && v@[i as int]@ == t@,
            None => !names(v@).contains(t@),
        },
{
    for i in 0..v.len()
        invariant
            forall|j: int| 0 <= j < i ==> v@[j]@ != t@,
    {
        if str_equal(v[i].as_str(), t) {
            return Some(i);
        }
    }
    proof {
        if names(v@).contains(t@) {
            let k = choose|k: int| 0 <= k < names(v@).len() && names(v@)[k] == t@;
            assert(v@[k]@ == t@);
        }
    }
    None
}

fn names_contain(v: &Vec<String>, t: &str) -> (r: bool)
    ensures
        r == names(v@).contains(t@),
{
    match vec_contains(v, t) {
        Some(i) => {
            assert(names(v@)[i as int] == t@);
            true
        },
        None => false,
    }
}

proof fn lemma_push_contains(s: Seq<Seq<char>>, v: Seq<char>, x: Seq<char>)
    ensures
        s.push(v).contains(x) <==> (s.contains(x) || x == v),
{
    if s.push(v).contains(x) {
        let k = choose|k: int| 0 <= k < s.push(v).len() && s.push(v)[k] == x;
        if k < s.len() {
            assert(s[k] == x);
        }
    }
    if s.contains(x) {
        let k = choose|k: int| 0 <= k < s.len() && s[k] == x;
        assert(s.push(v)[k] == x);
    }
    if x == v {
        assert(s.push(v)[s.len() as int] == x);
    }
}

impl MultipartRouter {
    pub closed spec fn well_formed(&self) -> bool {
        router_valid(self@)
    }

    /// The routing for a one-shot request's bindings: every bound field is
    /// expected, the required ones must come.
    pub fn new(bindings: &Vec<HttpInputBinding>) -> (r: Self)
        ensures
            r.well_formed(),
            forall|x: Seq<char>| #[trigger] r@.pending.contains(x) <==> exists|i: int|
                0 <= i < bindings@.len() && bindings@[i].field_name@ == x,
            forall|x: Seq<char>| #[trigger] r@.required.contains(x) <==> exists|i: int|
                0 <= i < bindings@.len() && bindings@[i].field_name@ == x && bindings@[i].required,
            r@.pending == field_names_in_order(bindings@, false),
            r@.required == field_names_in_order(bindings@, true),
            r@.seen.len() == 0,
    {
        let mut pending: Vec<String> = Vec::new();
        let mut required: Vec<String> = Vec::new();
        for i in 0..bindings.len()
            invariant
                names(pending@).no_duplicates(),
                names(required@).no_duplicates(),
                names(pending@) == field_names_in_order(bindings@.take(i as int), false),
                names(required@) == field_names_in_order(bindings@.take(i as int), true),
                forall|x: Seq<char>| #[trigger] names(pending@).contains(x) <==> exists|k: int|
                    0 <= k < i && bindings@[k].field_name@ == x,
                forall|x: Seq<char>| #[trigger] names(required@).contains(x) <==> exists|k: int|
                    0 <= k < i && bindings@[k].field_name@ == x && bindings@[k].required,
        {
            let name = &bindings[i].field_name;
            let ghost nv = name@;
            let ghost old_p = names(pending@);
            let ghost old_r = names(required@);
            assert(bindings@.take(i + 1).drop_last() =~= bindings@.take(i as int));
            assert(bindings@.take(i + 1).last() == bindings@[i as int]);
            if !names_contain(&pending, name.as_str()) {
                pending.push(name.clone());
                assert(names(pending@) =~= old_p.push(nv));
                assert forall|a: int, b: int| 0 <= a < b < names(pending@).len() implies names(pending@)[a] != names(pending@)[b] by {
                    if b == old_p.len() {
                        assert(old_p[a] == names(pending@)[a]);
                        assert(old_p.contains(old_p[a]));
                    }
                }
            }
            if bindings[i].required && !names_contain(&required, name.as_str()) {
                required.push(name.clone());
                assert(names(required@) =~= old_r.push(nv));
                assert forall|a: int, b: int| 0 <= a < b < names(required@).len() implies names(required@)[a] != names(required@)[b] by {
                    if b == old_r.len() {
                        assert(old_r[a] == names(required@)[a]);
                        assert(old_r.contains(old_r[a]));
                    }
                }
            }
            assert forall|x: Seq<char>| #[trigger] names(pending@).contains(x) <==> exists|k: int|
                0 <= k < i + 1 && bindings@[k].field_name@ == x by {
                lemma_push_contains(old_p, nv, x);
                if old_p.contains(x) {
                    assert(exists|k: int| 0 <= k < i && bindings@[k].field_name@ == x);
                }
                if x == nv {
                    assert(bindings@[i as int].field_name@ == x);
                }
                if exists|k: int| 0 <= k < i + 1 && bindings@[k].field_name@ == x {
                    let k = choose|k: int| 0 <= k < i + 1 && bindings@[k].field_name@ == x;
                    if k < i {
                        assert(exists|k2: int| 0 <= k2 < i && bindings@[k2].field_name@ == x);
                    }
                }
            }
            assert forall|x: Seq<char>| #[trigger] names(required@).contains(x) <==> exists|k: int|
                0 <= k < i + 1 && bindings@[k].field_name@ == x && bindings@[k].required by {
                lemma_push_contains(old_r, nv, x);
                if old_r.contains(x) {
                    assert(exists|k: int| 0 <= k < i && bindings@[k].field_name@ == x && bindings@[k].required);
                }
                if x == nv && bindings@[i as int].required {
                    assert(bindings@[i as int].field_name@ == x);
                }
                if exists|k: int| 0 <= k < i + 1 && bindings@[k].field_name@ == x && bindings@[k].required {
                    let k = choose|k: int| 0 <= k < i + 1 && bindings@[k].field_name@ == x && bindings@[k].required;
                    if k < i {
                        assert(exists|k2: int| 0 <= k2 < i && bindings@[k2].field_name@ == x && bindings@[k2].required);
                    }
                }
            }
        }
        assert(bindings@.take(bindings@.len() as int) =~= bindings@);
        let r = MultipartRouter { pending, required, seen_required: Vec::new() };
        assert(r@.seen =~= Seq::<Seq<char>>::empty());
        r
    }

    /// Routes the next field of the request, by name.
    pub fn on_field(&mut self, name: &str) -> (r: FieldRoute)
        requires
            old(self).well_formed(),
        ensures
            final(self).well_formed(),
            final(self)@.required == old(self)@.required,
            name@.len() == 0 ==> r == FieldRoute::Skip && final(self)@ == old(self)@,
            name@.len() > 0 && !old(self)@.pending.contains(name@) ==> (r matches FieldRoute::Unexpected(m)
                && m@ == unexpected_message(name@, old(self)@.pending)) && final(self)@ == old(self)@,
            name@.len() > 0 && old(self)@.pending.contains(name@) ==> ({
                let seen = if old(self)@.required.contains(name@) {
                    old(self)@.seen.push(name@)
                } else {
                    old(self)@.seen
                };
                &&& final(self)@.pending == old(self)@.pending.remove(first_index_of_name(old(self)@.pending, name@))
                &&& final(self)@.seen == seen
                &&& r == FieldRoute::Route {
                    all_required_seen: old(self)@.required.contains(name@) && seen.len() == old(self)@.required.len(),
                }
            }),
    {
        if name.unicode_len() == 0 {
            return FieldRoute::Skip;
        }
        match vec_contains(&self.pending, name) {
            None => {
                let mut m = chars_of("Unexpected multipart field '");
                extend_str(&mut m, name);
                extend_str(&mut m, "'. Expected: ");
                if self.pending.len() == 0 {
                    extend_str(&mut m, "none");
                } else {
                    let mut parts: Vec<Vec<char>> = Vec::new();
                    for i in 0..self.pending.len()
                        invariant
                            parts@.map_values(|p: Vec<char>| p@) == names(self.pending@).take(i as int),
                    {
                        let ghost before = parts@.map_values(|p: Vec<char>| p@);
                        parts.push(chars_of(self.pending[i].as_str()));
                        assert(parts@.map_values(|p: Vec<char>| p@) =~= before.push(self.pending@[i as int]@));
                        assert(names(self.pending@).take(i + 1) =~= names(self.pending@).take(i as int).push(
                            self.pending@[i as int]@,
                        ));
                    }
                    assert(names(self.pending@).take(self.pending.len() as int) =~= names(self.pending@));
                    let sep = chars_of(", ");
                    let joined = join_chars(&parts, &sep);
                    extend_chars(&mut m, &joined);
                }
                FieldRoute::Unexpected(string_of(&m))
            },
            Some(i) => {
                let ghost old_v = self@;
                proof {
                    let k = first_index_of_name(old_v.pending, name@);
                    assert(old_v.pending[i as int] == name@);
                    assert(old_v.pending.contains(name@));
                    if k != i {
                        assert(old_v.pending[k] == old_v.pending[i as int]);
                    }
                }
                self.pending.remove(i);
                assert(names(self.pending@) =~= old_v.pending.remove(i as int));
                let is_required = names_contain(&self.required, name);
                if is_required {
                    self.seen_required.push(name.to_owned());
                    assert(names(self.seen_required@) =~= old_v.seen.push(name@));
                }
                proof {
                    let nv = self@;
                    assert(!old_v.seen.contains(name@));
                    assert forall|a: int, b: int| 0 <= a < b < nv.pending.len() implies nv.pending[a] != nv.pending[b] by {
                        let a0 = if a < i { a } else { a + 1 };
                        let b0 = if b < i { b } else { b + 1 };
                        assert(nv.pending[a] == old_v.pending[a0] && nv.pending[b] == old_v.pending[b0]);
                    }
                    assert forall|a: int, b: int| 0 <= a < b < nv.seen.len() implies nv.seen[a] != nv.seen[b] by {
                        if is_required && b == nv.seen.len() - 1 {
                            assert(nv.seen[a] == old_v.seen[a]);
                            assert(old_v.seen.contains(nv.seen[a]));
                        } else {
                            assert(nv.seen[a] == old_v.seen[a] && nv.seen[b] == old_v.seen[b]);
                        }
                    }
                    assert forall|x: Seq<char>| #[trigger] nv.seen.contains(x) implies nv.required.contains(x)
                        && !nv.pending.contains(x) by {
                        if is_required {
                            lemma_push_contains(old_v.seen, name@, x);
                        }
                        if nv.pending.contains(x) {
                            let k = choose|k: int| 0 <= k < nv.pending.len() && nv.pending[k] == x;
                            let k0 = if k < i { k } else { k + 1 };
                            assert(old_v.pending[k0] == x);
                            assert(old_v.pending.contains(x));
                            if x == name@ {
                                assert(old_v.pending[k0] == old_v.pending[i as int]);
                            }
                        }
                        if x != name@ {
                            let k = choose|k: int| 0 <= k < nv.seen.len() && nv.seen[k] == x;
                            assert(old_v.seen[k] == x);
                            assert(old_v.seen.contains(x));
                        }
                    }
                }
                let all_seen = is_required && self.seen_required.len() == self.required.len();
                FieldRoute::Route { all_required_seen: all_seen }
            },
        }
    }

    /// The end of the request: refused when a required field never came.
    pub fn finish(&self) -> (r: Result<(), String>)
        requires
            self.well_formed(),
        ensures
            missing_fields(self@.required, self@.seen).len() == 0 ==> r is Ok,
            missing_fields(self@.required, self@.seen).len() > 0 ==> (r matches Err(m) && m@
                == "Missing required multipart field(s): "@ + join_with(
                missing_fields(self@.required, self@.seen),
                ", "@,
            )),
    {
        let ghost req = self@.required;
        let ghost seen = self@.seen;
        let ghost pred = |r: Seq<char>| !seen.contains(r);
        let mut parts: Vec<Vec<char>> = Vec::new();
        for i in 0..self.required.len()
            invariant
                req == names(self.required@),
                seen == names(self.seen_required@),
                pred == (|r: Seq<char>| !seen.contains(r)),
                parts@.map_values(|p: Vec<char>| p@) == req.take(i as int).filter(pred),
        {
            reveal_with_fuel(Seq::<_>::filter, 1);
            assert(req.take(i + 1).drop_last() =~= req.take(i as int));
            assert(req.take(i + 1).last() == self.required@[i as int]@);
            let ghost before = parts@.map_values(|p: Vec<char>| p@);
            if !names_contain(&self.seen_required, self.required[i].as_str()) {
                parts.push(chars_of(self.required[i].as_str()));
                assert(parts@.map_values(|p: Vec<char>| p@) =~= before.push(self.required@[i as int]@));
            } else {
                assert(seen.contains(self.required@[i as int]@));
            }
        }
        assert(req.take(self.required.len() as int) =~= req);
        if parts.len() == 0 {
            return Ok(());
        }
        let sep = chars_of(", ");
        let joined = join_chars(&parts, &sep);
        let mut m = chars_of("Missing required multipart field(s): ");
        extend_chars(&mut m, &joined);
        Err(string_of(&m))
    }
}

} // verus!
