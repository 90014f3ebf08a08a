//! Discovery metadata for sample pipelines and the search document built
//! from it: lower-cased, de-duplicated terms that the UI matches against.
use vstd::prelude::*;

use crate::permissions::texts;
use crate::text::{ascii_lower, chars_equal, chars_of, is_ascii_text, lemma_ascii_lower_trim_fixed, lemma_trim_keeps_ascii, replace_char, replace_chars, string_of, trim, trim_chars};
use crate::unicode::{to_lowercase, unicode_lower_of};

verus! {

/// Discovery metadata authored in a sample's YAML.
#[derive(Debug, Default, Clone)]
pub struct Discovery {
    pub group: Option<String>,
    pub variant: Option<String>,
    pub canonical: bool,
    pub category: Option<String>,
    pub tags: Vec<String>,
    pub keywords: Vec<String>,
}

/// The search term for a value: trimmed and lower-cased.
pub open spec fn term_of(value: Seq<char>) -> Seq<char> {
    unicode_lower_of(trim(value))
}

/// `terms` after one value is offered: kept when non-empty and new.
pub open spec fn with_term(terms: Seq<Seq<char>>, value: Seq<char>) -> Seq<Seq<char>> {
    let t = term_of(value);
    if t.len() > 0 && !terms.contains(t) {
        terms.push(t)
    } else {
        terms
    }
}

pub open spec fn with_terms(terms: Seq<Seq<char>>, values: Seq<Seq<char>>) -> Seq<Seq<char>>
    decreases values.len(),
{
    if values.len() == 0 {
        terms
    } else {
        with_term(with_terms(terms, values.drop_last()), values.last())
    }
}

/// The search term for an ASCII value: trimmed and ASCII lower-cased.
pub open spec fn ascii_term_of(value: Seq<char>) -> Seq<char> {
    ascii_lower(trim(value))
}

/// `with_term` for ASCII values.
pub open spec fn with_ascii_term(terms: Seq<Seq<char>>, value: Seq<char>) -> Seq<Seq<char>> {
    let t = ascii_term_of(value);
    if t.len() > 0 && !terms.contains(t) {
        terms.push(t)
    } else {
        terms
    }
}

/// `with_terms` for ASCII values.
pub open spec fn with_ascii_terms(terms: Seq<Seq<char>>, values: Seq<Seq<char>>) -> Seq<Seq<char>>
    decreases values.len(),
{
    if values.len() == 0 {
        terms
    } else {
        with_ascii_term(with_ascii_terms(terms, values.drop_last()), values.last())
    }
}

/// Every value is ASCII text.
pub open spec fn all_ascii(values: Seq<Seq<char>>) -> bool {
    forall|i: int| 0 <= i < values.len() ==> is_ascii_text(#[trigger] values[i])
}

fn contains_text(terms: &Vec<String>, t: &Vec<char>) -> (r: bool)
    ensures
        r == texts(terms@).contains(t@),
{
    for i in 0..terms.len()
        invariant
            forall|j: int| 0 <= j < i ==> texts(terms@)[j] != t@,
    {
        let e = chars_of(terms[i].as_str());
        if chars_equal(&e, t) {
            assert(texts(terms@)[i as int] == t@);
            return true;
        }
    }
    false
}

/// Adds the term for `value` unless it is empty or already present.
pub fn push_term(terms: &mut Vec<String>, value: &str)
    ensures
        texts(final(terms)@) == with_term(texts(old(terms)@), value@),
        is_ascii_text(value@) ==> texts(final(terms)@) == with_ascii_term(texts(old(terms)@), value@),
{
    let v = chars_of(value);
    let t = trim_chars(&v);
    let t_text = string_of(&t);
    proof {
        if is_ascii_text(value@) {
            lemma_trim_keeps_ascii(value@);
        }
    }
    let term = to_lowercase(t_text.as_str());
    let tc = chars_of(term.as_str());
    if tc.len() > 0 && !contains_text(terms, &tc) {
        let ghost before = texts(terms@);
        terms.push(term);
        assert(texts(terms@) =~= before.push(tc@));
    }
}

/// `::` read as a space (`str::replace("::", " ")`).
pub open spec fn replace_path_sep(s: Seq<char>) -> Seq<char>
    decreases s.len(),
{
    if s.len() == 0 {
        s
    } else if s.len() >= 2 && s[0] == ':' && s[1] == ':' {
        seq![' '] + replace_path_sep(s.skip(2))
    } else {
        seq![s[0]] + replace_path_sep(s.skip(1))
    }
}

/// A node kind with `::` and `_` flattened to spaces.
pub open spec fn kind_words(kind: Seq<char>) -> Seq<char> {
    replace_char(replace_path_sep(kind), '_', ' ')
}

fn replace_separators(s: &Vec<char>) -> (r: Vec<char>)
    ensures
        r@ == replace_path_sep(s@),
{
    let mut out: Vec<char> = Vec::new();
    let mut i: usize = 0;
    assert(s@.skip(0) =~= s@);
    while i < s.len()
        invariant
            i <= s.len(),
            out@ + replace_path_sep(s@.skip(i as int)) == replace_path_sep(s@),
        decreases s.len() - i,
    {
        let ghost rest = s@.skip(i as int);
        if i + 1 < s.len() && s[i] == ':' && s[i + 1] == ':' {
            assert(rest.skip(2) =~= s@.skip(i + 2));
            assert(rest[0] == ':' && rest[1] == ':');
            assert(replace_path_sep(rest) == seq![' '] + replace_path_sep(rest.skip(2)));
            let ghost old_out = out@;
            out.push(' ');
            assert(out@ + replace_path_sep(s@.skip(i + 2)) =~= old_out + (seq![' '] + replace_path_sep(rest.skip(2))));
            i = i + 2;
        } else {
            assert(!(rest.len() >= 2 && rest[0] == ':' && rest[1] == ':'));
            assert(rest.skip(1) =~= s@.skip(i + 1));
            assert(replace_path_sep(rest) == seq![rest[0]] + replace_path_sep(rest.skip(1)));
            let ghost old_out = out@;
            out.push(s[i]);
            assert(out@ + replace_path_sep(s@.skip(i + 1)) =~= old_out + (seq![rest[0]] + replace_path_sep(rest.skip(1))));
            i = i + 1;
        }
    }
    assert(s@.skip(s.len() as int) =~= Seq::<char>::empty());
    assert(out@ =~= replace_path_sep(s@));
    out
}

pub open spec fn opt_list(o: Option<String>) -> Seq<Seq<char>> {
    match o {
        Some(s) => seq![s@],
        None => Seq::<Seq<char>>::empty(),
    }
}

/// The values offered to the search document, in order.
pub open spec fn search_values(
    name: Seq<char>,
    description: Seq<char>,
    d: Discovery,
    node_kinds: Seq<Seq<char>>,
) -> Seq<Seq<char>> {
    seq![name, description] + opt_list(d.category) + opt_list(d.group) + opt_list(d.variant)
        + texts(d.tags@) + texts(d.keywords@) + node_kinds.map_values(|k: Seq<char>| kind_words(k))
}

fn append_strings(values: &mut Vec<String>, src: &Vec<String>)
    ensures
        texts(final(values)@) == texts(old(values)@) + texts(src@),
{
    let ghost start = values@;
    for i in 0..src.len()
        invariant
            values@.len() == start.len() + i,
            forall|j: int| 0 <= j < start.len() ==> #[trigger] values@[j] == start[j],
            forall|j: int| 0 <= j < i ==> #[trigger] values@[start.len() + j]@ == src@[j]@,
    {
        values.push(src[i].clone());
    }
    assert forall|k: int| 0 <= k < values@.len() implies texts(values@)[k] == (texts(start) + texts(src@))[k] by {
        if k >= start.len() {
            let j = k - start.len();
            assert(values@[start.len() + j]@ == src@[j]@);
        } else {
            assert(values@[k] == start[k]);
        }
    }
    assert(texts(values@) =~= texts(start) + texts(src@));
}

fn push_all(terms: &mut Vec<String>, values: &Vec<String>)
    ensures
        texts(final(terms)@) == with_terms(texts(old(terms)@), texts(values@)),
        all_ascii(texts(values@)) ==> texts(final(terms)@) == with_ascii_terms(texts(old(terms)@), texts(values@)),
{
    let ghost start = texts(terms@);
    for i in 0..values.len()
        invariant
            texts(terms@) == with_terms(start, texts(values@).take(i as int)),
            all_ascii(texts(values@)) ==> texts(terms@) == with_ascii_terms(start, texts(values@).take(i as int)),
    {
        assert(all_ascii(texts(values@)) ==> is_ascii_text(texts(values@)[i as int]));
        assert(texts(values@).take(i + 1).drop_last() =~= texts(values@).take(i as int));
        assert(texts(values@).take(i + 1).last() == values@[i as int]@);
        push_term(terms, values[i].as_str());
    }
    assert(texts(values@).take(values.len() as int) =~= texts(values@));
}

/// Every term offered from ASCII values is trimmed and lower-case.
pub proof fn lemma_ascii_terms_normal(terms: Seq<Seq<char>>, values: Seq<Seq<char>>)
    requires
        forall|i: int| 0 <= i < terms.len() ==> trim(#[trigger] terms[i]) == terms[i] && ascii_lower(terms[i]) == terms[i],
    ensures
        forall|i: int| 0 <= i < with_ascii_terms(terms, values).len() ==> trim(#[trigger] with_ascii_terms(terms, values)[i])
            == with_ascii_terms(terms, values)[i] && ascii_lower(with_ascii_terms(terms, values)[i])
            == with_ascii_terms(terms, values)[i],
    decreases values.len(),
{
    if values.len() > 0 {
        lemma_ascii_terms_normal(terms, values.drop_last());
        lemma_ascii_lower_trim_fixed(values.last());
        let prev = with_ascii_terms(terms, values.drop_last());
        let t = ascii_term_of(values.last());
        if t.len() > 0 && !prev.contains(t) {
            assert forall|i: int| 0 <= i < prev.push(t).len() implies trim(#[trigger] prev.push(t)[i])
                == prev.push(t)[i] && ascii_lower(prev.push(t)[i]) == prev.push(t)[i] by {
                if i < prev.len() {
                    assert(prev.push(t)[i] == prev[i]);
                }
            }
        }
    }
}

/// Offering values never introduces a repeated or an empty term.
pub proof fn lemma_with_terms_distinct(terms: Seq<Seq<char>>, values: Seq<Seq<char>>)
    requires
        terms.no_duplicates(),
        forall|i: int| 0 <= i < terms.len() ==> #[trigger] terms[i].len() > 0,
    ensures
        with_terms(terms, values).no_duplicates(),
        forall|i: int|
            0 <= i < with_terms(terms, values).len() ==> #[trigger] with_terms(terms, values)[i].len() > 0,
    decreases values.len(),
{
    if values.len() > 0 {
        lemma_with_terms_distinct(terms, values.drop_last());
        let prev = with_terms(terms, values.drop_last());
        let t = term_of(values.last());
        if t.len() > 0 && !prev.contains(t) {
            assert forall|i: int, j: int| 0 <= i < j < prev.push(t).len() implies prev.push(t)[i] != prev.push(t)[j] by {
                if j == prev.len() {
                    assert(prev[i] == prev.push(t)[i]);
                }
            }
        }
    }
}

/// Offering values keeps every term already there, and adds the term of
/// each value offered unless it is empty.
proof fn lemma_with_terms_covers(terms: Seq<Seq<char>>, values: Seq<Seq<char>>, v: Seq<char>)
    requires
        values.contains(v) || terms.contains(term_of(v)),
        values.contains(v) ==> term_of(v).len() > 0,
    ensures
        with_terms(terms, values).contains(term_of(v)),
    decreases values.len(),
{
    if values.len() > 0 {
        let prev = values.drop_last();
        if prev.contains(v) || terms.contains(term_of(v)) {
            if prev.contains(v) {
                let j = choose|j: int| 0 <= j < prev.len() && prev[j] == v;
                assert(values[j] == v);
            }
            lemma_with_terms_covers(terms, prev, v);
            let before = with_terms(terms, prev);
            let j = choose|j: int| 0 <= j < before.len() && before[j] == term_of(v);
            let t = term_of(values.last());
            if t.len() > 0 && !before.contains(t) {
                assert(before.push(t)[j] == term_of(v));
            }
        } else {
            let j = choose|j: int| 0 <= j < values.len() && values[j] == v;
            if j < prev.len() {
                assert(prev[j] == v);
            }
            assert(values.last() == v);
            let before = with_terms(terms, prev);
            if !before.contains(term_of(v)) {
                assert(before.push(term_of(v))[before.len() as int] == term_of(v));
            }
        }
    }
}

/// Offering values adds only the terms of the values offered.
proof fn lemma_with_terms_sources(terms: Seq<Seq<char>>, values: Seq<Seq<char>>, t: Seq<char>)
    requires
        with_terms(terms, values).contains(t),
    ensures
        terms.contains(t) || exists|k: int| 0 <= k < values.len() && term_of(#[trigger] values[k]) == t,
    decreases values.len(),
{
    if values.len() > 0 {
        let prev = values.drop_last();
        let before = with_terms(terms, prev);
        if before.contains(t) {
            lemma_with_terms_sources(terms, prev, t);
            if !terms.contains(t) {
                let k = choose|k: int| 0 <= k < prev.len() && term_of(#[trigger] prev[k]) == t;
                assert(values[k] == prev[k]);
            }
        } else {
            let j = choose|j: int| 0 <= j < with_terms(terms, values).len() && with_terms(terms, values)[j] == t;
            assert(term_of(values[values.len() - 1]) == t);
        }
    }
}

/// Every search term is the trimmed, lower-cased form of one of the texts
/// the document draws on, and none is empty.
pub proof fn law_search_terms_come_from_sample(
    name: Seq<char>,
    description: Seq<char>,
    d: Discovery,
    node_kinds: Seq<Seq<char>>,
    t: Seq<char>,
)
    requires
        with_terms(Seq::empty(), search_values(name, description, d, node_kinds)).contains(t),
    ensures
        t.len() > 0,
        exists|k: int|
            0 <= k < search_values(name, description, d, node_kinds).len() && term_of(
                #[trigger] search_values(name, description, d, node_kinds)[k],
            ) == t,
{
    let sv = search_values(name, description, d, node_kinds);
    lemma_with_terms_sources(Seq::empty(), sv, t);
    lemma_with_terms_distinct(Seq::empty(), sv);
    let w = with_terms(Seq::<Seq<char>>::empty(), sv);
    let j = choose|j: int| 0 <= j < w.len() && w[j] == t;
    assert(w[j].len() > 0);
}

/// Each text a sample's search document draws on (its name, description,
/// category, group, variant, tags, keywords and node kinds read as words)
/// whose trimmed, lower-cased form is not empty occurs among the search
/// terms in that form.
pub proof fn law_search_terms_cover_sample(
    name: Seq<char>,
    description: Seq<char>,
    d: Discovery,
    node_kinds: Seq<Seq<char>>,
)
    ensures
        ({
            let terms = with_terms(Seq::empty(), search_values(name, description, d, node_kinds));
            &&& term_of(name).len() > 0 ==> terms.contains(term_of(name))
            &&& term_of(description).len() > 0 ==> terms.contains(term_of(description))
            &&& d.category is Some && term_of(d.category->0@).len() > 0 ==> terms.contains(term_of(d.category->0@))
            &&& d.group is Some && term_of(d.group->0@).len() > 0 ==> terms.contains(term_of(d.group->0@))
            &&& d.variant is Some && term_of(d.variant->0@).len() > 0 ==> terms.contains(term_of(d.variant->0@))
            &&& forall|k: int|
                0 <= k < d.tags@.len() && term_of(#[trigger] d.tags@[k]@).len() > 0 ==> terms.contains(
                    term_of(d.tags@[k]@),
                )
            &&& forall|k: int|
                0 <= k < d.keywords@.len() && term_of(#[trigger] d.keywords@[k]@).len() > 0 ==> terms.contains(
                    term_of(d.keywords@[k]@),
                )
            &&& forall|k: int|
                0 <= k < node_kinds.len() && term_of(kind_words(#[trigger] node_kinds[k])).len() > 0
                    ==> terms.contains(term_of(kind_words(node_kinds[k])))
        }),
{
    let e = Seq::<Seq<char>>::empty();
    let a = seq![name, description];
    let c = opt_list(d.category);
    let g = opt_list(d.group);
    let va = opt_list(d.variant);
    let tg = texts(d.tags@);
    let kw = texts(d.keywords@);
    let kd = node_kinds.map_values(|k: Seq<char>| kind_words(k));
    let sv = search_values(name, description, d, node_kinds);
    assert(sv == a + c + g + va + tg + kw + kd);
    let o1 = 2int;
    let o2 = o1 + c.len();
    let o3 = o2 + g.len();
    let o4 = o3 + va.len();
    let o5 = o4 + tg.len();
    let o6 = o5 + kw.len();
    assert(sv[0] == name && sv[1] == description);
    assert(sv.contains(name)) by {
        assert(sv[0] == name);
    }
    assert(sv.contains(description)) by {
        assert(sv[1] == description);
    }
    if term_of(name).len() > 0 {
        lemma_with_terms_covers(e, sv, name);
    }
    if term_of(description).len() > 0 {
        lemma_with_terms_covers(e, sv, description);
    }
    if d.category is Some && term_of(d.category->0@).len() > 0 {
        assert(sv[o1] == d.category->0@);
        lemma_with_terms_covers(e, sv, d.category->0@);
    }
    if d.group is Some && term_of(d.group->0@).len() > 0 {
        assert(sv[o2] == d.group->0@);
        lemma_with_terms_covers(e, sv, d.group->0@);
    }
    if d.variant is Some && term_of(d.variant->0@).len() > 0 {
        assert(sv[o3] == d.variant->0@);
        lemma_with_terms_covers(e, sv, d.variant->0@);
    }
    assert forall|k: int| 0 <= k < d.tags@.len() && term_of(#[trigger] d.tags@[k]@).len() > 0 implies with_terms(
        e,
        sv,
    ).contains(term_of(d.tags@[k]@)) by {
        assert(sv[o4 + k] == d.tags@[k]@);
        lemma_with_terms_covers(e, sv, d.tags@[k]@);
    }
    assert forall|k: int|
        0 <= k < d.keywords@.len() && term_of(#[trigger] d.keywords@[k]@).len() > 0 implies with_terms(
        e,
        sv,
    ).contains(term_of(d.keywords@[k]@)) by {
        assert(sv[o5 + k] == d.keywords@[k]@);
        lemma_with_terms_covers(e, sv, d.keywords@[k]@);
    }
    assert forall|k: int|
        0 <= k < node_kinds.len() && term_of(kind_words(#[trigger] node_kinds[k])).len() > 0 implies with_terms(
        e,
        sv,
    ).contains(term_of(kind_words(node_kinds[k]))) by {
        assert(sv[o6 + k] == kind_words(node_kinds[k]));
        lemma_with_terms_covers(e, sv, kind_words(node_kinds[k]));
    }
}

/// Builds the search document for a sample: its name, description,
/// category, group, variant, tags, keywords and node kinds (with `::` and
/// `_` read as spaces), lower-cased and without repeats.
pub fn build_search_terms(
    name: &str,
    description: &str,
    discovery: &Discovery,
    node_kinds: &[String],
) -> (r: Vec<String>)
    ensures
        texts(r@) == with_terms(
            Seq::empty(),
            search_values(name@, description@, *discovery, texts(node_kinds@)),
        ),
        texts(r@).no_duplicates(),
        forall|i: int| 0 <= i < r@.len() ==> #[trigger] r@[i]@.len() > 0,
        all_ascii(search_values(name@, description@, *discovery, texts(node_kinds@))) ==> {
            &&& texts(r@) == with_ascii_terms(
                Seq::empty(),
                search_values(name@, description@, *discovery, texts(node_kinds@)),
            )
            &&& forall|i: int| 0 <= i < r@.len() ==> trim(#[trigger] r@[i]@) == r@[i]@ && ascii_lower(r@[i]@) == r@[i]@
        },
{
    let mut values: Vec<String> = Vec::new();
    values.push(name.to_owned());
    values.push(description.to_owned());
    assert(texts(values@) =~= seq![name@, description@]);
    let ghost v0 = texts(values@);
    if let Some(category) = &discovery.category {
        values.push(category.clone());
    }
    assert(texts(values@) =~= v0 + opt_list(discovery.category));
    let ghost v1 = texts(values@);
    if let Some(group) = &discovery.group {
        values.push(group.clone());
    }
    assert(texts(values@) =~= v1 + opt_list(discovery.group));
    let ghost v2 = texts(values@);
    if let Some(variant) = &discovery.variant {
        values.push(variant.clone());
    }
    assert(texts(values@) =~= v2 + opt_list(discovery.variant));
    let ghost v3 = texts(values@);
    append_strings(&mut values, &discovery.tags);
    let ghost v4 = texts(values@);
    append_strings(&mut values, &discovery.keywords);
    let ghost v5 = texts(values@);
    let ghost kinds = texts(node_kinds@).map_values(|k: Seq<char>| kind_words(k));
    let ghost base_len = values@.len();
    for i in 0..node_kinds.len()
        invariant
            kinds == texts(node_kinds@).map_values(|k: Seq<char>| kind_words(k)),
            v5 == texts(values@).take(base_len as int),
            base_len == v5.len(),
            values@.len() == base_len + i,
            forall|j: int| 0 <= j < i ==> #[trigger] values@[base_len + j]@ == kinds[j],
    {
        let k = chars_of(node_kinds[i].as_str());
        let a = replace_separators(&k);
        let b = replace_chars(&a, '_', ' ');
        let ghost before = values@;
        values.push(string_of(&b));
        assert(kinds[i as int] == kind_words(node_kinds@[i as int]@));
        assert(texts(values@).take(base_len as int) =~= texts(before).take(base_len as int));
        assert forall|j: int| 0 <= j < i + 1 implies #[trigger] values@[base_len + j]@ == kinds[j] by {
            if j < i {
                assert(values@[base_len + j] == before[base_len + j]);
            }
        }
    }
    assert forall|k: int| 0 <= k < values@.len() implies texts(values@)[k] == (v5 + kinds)[k] by {
        if k >= base_len {
            let j = k - base_len;
            assert(values@[base_len + j]@ == kinds[j]);
        } else {
            assert(texts(values@).take(base_len as int)[k] == texts(values@)[k]);
        }
    }
    assert(texts(values@) =~= v5 + kinds);
    assert(texts(values@) =~= search_values(name@, description@, *discovery, texts(node_kinds@)));
    let mut terms: Vec<String> = Vec::new();
    assert(texts(terms@) =~= Seq::<Seq<char>>::empty());
    push_all(&mut terms, &values);
    proof {
        lemma_with_terms_distinct(Seq::empty(), texts(values@));
        assert forall|i: int| 0 <= i < terms@.len() implies #[trigger] terms@[i]@.len() > 0 by {
            assert(texts(terms@)[i] == terms@[i]@);
        }
        if all_ascii(texts(values@)) {
            lemma_ascii_terms_normal(Seq::empty(), texts(values@));
            assert forall|i: int| 0 <= i < terms@.len() implies trim(#[trigger] terms@[i]@) == terms@[i]@
                && ascii_lower(terms@[i]@) == terms@[i]@ by {
                assert(texts(terms@)[i] == terms@[i]@);
            }
        }
    }
    terms
}

} // verus!
