//! Character-level text vocabulary shared by the rest of the crate: a
//! mathematical model of the string operations the server relies on
//! (trimming, ASCII case folding, prefix/suffix and substring tests, decimal
//! rendering) and executable versions proved against that model.
use vstd::prelude::*;

verus! {

// ---------------------------------------------------------------------------
// Character classes
// ---------------------------------------------------------------------------

pub open spec fn is_ascii_digit(c: char) -> bool {
    '0' <= c && c <= '9'
}

pub open spec fn is_ascii_upper(c: char) -> bool {
    'A' <= c && c <= 'Z'
}

pub open spec fn is_ascii_lower(c: char) -> bool {
    'a' <= c && c <= 'z'
}

pub open spec fn is_ascii_alnum(c: char) -> bool {
    is_ascii_digit(c) || is_ascii_upper(c) || is_ascii_lower(c)
}

pub open spec fn is_ascii_char(c: char) -> bool {
    (c as u32) < 128
}

pub open spec fn is_ascii_text(s: Seq<char>) -> bool {
    forall|i: int| 0 <= i < s.len() ==> is_ascii_char(#[trigger] s[i])
}

/// The Unicode `White_Space` property, which is what `char::is_whitespace`
/// (and therefore `str::trim` and `str::split_whitespace`) tests.
pub open spec fn is_white(c: char) -> bool {
    ||| ('\t' <= c && c <= '\r')
    ||| c == ' '
    ||| c == '\u{85}'
    ||| c == '\u{A0}'
    ||| c == '\u{1680}'
    ||| ('\u{2000}' <= c && c <= '\u{200A}')
    ||| c == '\u{2028}'
    ||| c == '\u{2029}'
    ||| c == '\u{202F}'
    ||| c == '\u{205F}'
    ||| c == '\u{3000}'
}

pub open spec fn ascii_lower_char(c: char) -> char {
    if is_ascii_upper(c) {
        ((c as u32) + 32) as char
    } else {
        c
    }
}

pub open spec fn ascii_upper_char(c: char) -> char {
    if is_ascii_lower(c) {
        ((c as u32) - 32) as char
    } else {
        c
    }
}

/// ASCII lower-casing of a whole text; other characters are kept.
pub open spec fn ascii_lower(s: Seq<char>) -> Seq<char> {
    Seq::new(s.len(), |i: int| ascii_lower_char(s[i]))
}

pub open spec fn eq_ignore_ascii_case(a: Seq<char>, b: Seq<char>) -> bool {
    ascii_lower(a) == ascii_lower(b)
}

// ---------------------------------------------------------------------------
// Trimming
// ---------------------------------------------------------------------------

pub open spec fn trim_start(s: Seq<char>) -> Seq<char>
    decreases s.len(),
{
    if s.len() > 0 && is_white(s[0]) {
        trim_start(s.drop_first())
    } else {
        s
    }
}

pub open spec fn trim_end(s: Seq<char>) -> Seq<char>
    decreases s.len(),
{
    if s.len() > 0 && is_white(s.last()) {
        trim_end(s.drop_last())
    } else {
        s
    }
}

/// What `str::trim` returns: leading and trailing white space removed.
pub open spec fn trim(s: Seq<char>) -> Seq<char> {
    trim_end(trim_start(s))
}

/// Repeatedly removes a trailing character `c`, as `trim_end_matches(c)` does.
pub open spec fn trim_end_char(s: Seq<char>, c: char) -> Seq<char>
    decreases s.len(),
{
    if s.len() > 0 && s.last() == c {
        trim_end_char(s.drop_last(), c)
    } else {
        s
    }
}

/// Repeatedly removes a leading character `c`.
pub open spec fn trim_start_char(s: Seq<char>, c: char) -> Seq<char>
    decreases s.len(),
{
    if s.len() > 0 && s[0] == c {
        trim_start_char(s.drop_first(), c)
    } else {
        s
    }
}

// ---------------------------------------------------------------------------
// Prefixes, suffixes, substrings
// ---------------------------------------------------------------------------

pub open spec fn has_prefix(s: Seq<char>, p: Seq<char>) -> bool {
    p.len() <= s.len() && s.subrange(0, p.len() as int) == p
}

pub open spec fn has_suffix(s: Seq<char>, p: Seq<char>) -> bool {
    p.len() <= s.len() && s.subrange(s.len() - p.len(), s.len() as int) == p
}

pub open spec fn occurs_at(hay: Seq<char>, needle: Seq<char>, i: int) -> bool {
    0 <= i && i + needle.len() <= hay.len() && hay.subrange(i, i + needle.len()) == needle
}

/// `needle` occurs somewhere in `hay`, as `str::contains` with a string pattern tests.
pub open spec fn contains_seq(hay: Seq<char>, needle: Seq<char>) -> bool {
    exists|i: int| occurs_at(hay, needle, i)
}

// ---------------------------------------------------------------------------
// Decimal rendering
// ---------------------------------------------------------------------------

pub open spec fn digit_char(d: nat) -> char {
    (('0' as u32) + d) as char
}

/// The decimal text of a natural number, as `Display` renders integers.
pub open spec fn decimal(n: nat) -> Seq<char>
    decreases n,
{
    if n < 10 {
        seq![digit_char(n)]
    } else {
        decimal(n / 10).push(digit_char(n % 10))
    }
}

// ---------------------------------------------------------------------------
// Lemmas
// ---------------------------------------------------------------------------

pub proof fn lemma_trim_start_skip(s: Seq<char>, i: int)
    requires
        0 <= i <= s.len(),
        forall|j: int| 0 <= j < i ==> is_white(#[trigger] s[j]),
        i == s.len() || !is_white(s[i]),
    ensures
        trim_start(s) == s.skip(i),
    decreases i,
{
    if i > 0 {
        lemma_trim_start_skip(s.drop_first(), i - 1);
        assert(s.drop_first().skip(i - 1) =~= s.skip(i));
    } else {
        assert(s.skip(0) =~= s);
    }
}

pub proof fn lemma_trim_end_take(s: Seq<char>, k: int)
    requires
        0 <= k <= s.len(),
        forall|j: int| k <= j < s.len() ==> is_white(#[trigger] s[j]),
        k == 0 || !is_white(s[k - 1]),
    ensures
        trim_end(s) == s.take(k),
    decreases s.len() - k,
{
    if k < s.len() {
        lemma_trim_end_take(s.drop_last(), k);
        assert(s.drop_last().take(k) =~= s.take(k));
    } else {
        assert(s.take(k) =~= s);
    }
}

pub proof fn lemma_trim_end_char_take(s: Seq<char>, c: char, k: int)
    requires
        0 <= k <= s.len(),
        forall|j: int| k <= j < s.len() ==> #[trigger] s[j] == c,
        k == 0 || s[k - 1] != c,
    ensures
        trim_end_char(s, c) == s.take(k),
    decreases s.len() - k,
{
    if k < s.len() {
        lemma_trim_end_char_take(s.drop_last(), c, k);
        assert(s.drop_last().take(k) =~= s.take(k));
    } else {
        assert(s.take(k) =~= s);
    }
}

pub proof fn lemma_trim_start_char_skip(s: Seq<char>, c: char, i: int)
    requires
        0 <= i <= s.len(),
        forall|j: int| 0 <= j < i ==> #[trigger] s[j] == c,
        i == s.len() || s[i] != c,
    ensures
        trim_start_char(s, c) == s.skip(i),
    decreases i,
{
    if i > 0 {
        lemma_trim_start_char_skip(s.drop_first(), c, i - 1);
        assert(s.drop_first().skip(i - 1) =~= s.skip(i));
    } else {
        assert(s.skip(0) =~= s);
    }
}

/// A trimmed text neither starts nor ends with white space.
pub proof fn lemma_trim_edges(s: Seq<char>)
    ensures
        trim(s).len() > 0 ==> !is_white(trim(s)[0]) && !is_white(trim(s).last()),
        trim(s).len() <= s.len(),
    decreases s.len(),
{
    lemma_trim_start_props(s);
    lemma_trim_end_props(trim_start(s));
}

/// Trimming a trimmed text changes nothing.
pub proof fn lemma_trim_idempotent(s: Seq<char>)
    ensures
        trim(trim(s)) == trim(s),
{
    lemma_trim_edges(s);
    let t = trim(s);
    if t.len() > 0 {
        assert(trim_start(t) == t);
        assert(trim_end(t) == t);
    } else {
        assert(trim_start(t) == t);
        assert(trim_end(t) == t);
    }
}

pub proof fn lemma_trim_start_props(s: Seq<char>)
    ensures
        trim_start(s).len() <= s.len(),
        trim_start(s).len() > 0 ==> !is_white(trim_start(s)[0]),
        trim_start(s) == s.skip(s.len() - trim_start(s).len()),
    decreases s.len(),
{
    if s.len() > 0 && is_white(s[0]) {
        lemma_trim_start_props(s.drop_first());
        assert(s.drop_first().skip(s.drop_first().len() - trim_start(s.drop_first()).len())
            =~= s.skip(s.len() - trim_start(s).len()));
    } else {
        assert(s.skip(0) =~= s);
    }
}

pub proof fn lemma_trim_end_props(s: Seq<char>)
    ensures
        trim_end(s).len() <= s.len(),
        trim_end(s).len() > 0 ==> !is_white(trim_end(s).last()),
        trim_end(s).len() > 0 ==> trim_end(s)[0] == s[0],
        trim_end(s) == s.take(trim_end(s).len() as int),
    decreases s.len(),
{
    if s.len() > 0 && is_white(s.last()) {
        lemma_trim_end_props(s.drop_last());
        assert(s.drop_last().take(trim_end(s).len() as int) =~= s.take(trim_end(s).len() as int));
    } else {
        assert(s.take(s.len() as int) =~= s);
    }
}

/// Trimming keeps a text ASCII.
pub proof fn lemma_trim_keeps_ascii(s: Seq<char>)
    requires
        is_ascii_text(s),
    ensures
        is_ascii_text(trim(s)),
{
    lemma_trim_start_props(s);
    let a = trim_start(s);
    assert(is_ascii_text(a)) by {
        assert forall|i: int| 0 <= i < a.len() implies is_ascii_char(#[trigger] a[i]) by {
            assert(a[i] == s[s.len() - a.len() + i]);
        }
    }
    lemma_trim_end_props(a);
    assert forall|i: int| 0 <= i < trim(s).len() implies is_ascii_char(#[trigger] trim(s)[i]) by {
        assert(trim(s)[i] == a[i]);
    }
}

/// ASCII lower-casing keeps white space and makes no new white space.
pub proof fn lemma_ascii_lower_char_white(c: char)
    ensures
        is_white(ascii_lower_char(c)) == is_white(c),
        ascii_lower_char(ascii_lower_char(c)) == ascii_lower_char(c),
{
    if is_ascii_upper(c) {
        assert('a' <= ascii_lower_char(c) && ascii_lower_char(c) <= 'z');
    }
}

/// A lower-cased trimmed ASCII text is its own trim and its own lower case.
pub proof fn lemma_ascii_lower_trim_fixed(s: Seq<char>)
    ensures
        trim(ascii_lower(trim(s))) == ascii_lower(trim(s)),
        ascii_lower(ascii_lower(trim(s))) == ascii_lower(trim(s)),
{
    let t = trim(s);
    let l = ascii_lower(t);
    lemma_trim_edges(s);
    if l.len() > 0 {
        lemma_ascii_lower_char_white(t[0]);
        lemma_ascii_lower_char_white(t.last());
        assert(l[0] == ascii_lower_char(t[0]));
        assert(l.last() == ascii_lower_char(t.last()));
    }
    assert(trim_start(l) == l);
    assert(trim_end(l) == l);
    assert forall|i: int| 0 <= i < l.len() implies #[trigger] ascii_lower(l)[i] == l[i] by {
        lemma_ascii_lower_char_white(t[i]);
    }
    assert(ascii_lower(l) =~= l);
}

/// Removing a suffix repeatedly keeps a text ASCII.
pub proof fn lemma_trim_end_str_keeps_ascii(s: Seq<char>, p: Seq<char>)
    requires
        is_ascii_text(s),
    ensures
        is_ascii_text(trim_end_str(s, p)),
    decreases s.len(),
{
    if p.len() > 0 && has_suffix(s, p) {
        let t = s.take(s.len() - p.len());
        assert forall|i: int| 0 <= i < t.len() implies is_ascii_char(#[trigger] t[i]) by {
            assert(t[i] == s[i]);
        }
        lemma_trim_end_str_keeps_ascii(t, p);
    }
}

/// The words of an ASCII text are ASCII.
pub proof fn lemma_words_scan_ascii(s: Seq<char>)
    requires
        is_ascii_text(s),
    ensures
        forall|k: int| 0 <= k < words_scan(s).0.len() ==> is_ascii_text(#[trigger] words_scan(s).0[k]),
        is_ascii_text(words_scan(s).1),
    decreases s.len(),
{
    if s.len() > 0 {
        let d = s.drop_last();
        assert forall|i: int| 0 <= i < d.len() implies is_ascii_char(#[trigger] d[i]) by {
            assert(d[i] == s[i]);
        }
        lemma_words_scan_ascii(d);
        let (ws, cur) = words_scan(d);
        assert(is_ascii_char(s.last()));
        if !is_white(s.last()) {
            assert forall|i: int| 0 <= i < cur.push(s.last()).len() implies is_ascii_char(#[trigger] cur.push(s.last())[i]) by {
                if i < cur.len() {
                    assert(cur.push(s.last())[i] == cur[i]);
                }
            }
        } else if cur.len() > 0 {
            assert forall|k: int| 0 <= k < ws.push(cur).len() implies is_ascii_text(#[trigger] ws.push(cur)[k]) by {
                if k < ws.len() {
                    assert(ws.push(cur)[k] == ws[k]);
                }
            }
        }
    }
}

/// The words of an ASCII text are ASCII.
pub proof fn lemma_words_ascii(s: Seq<char>)
    requires
        is_ascii_text(s),
    ensures
        forall|k: int| 0 <= k < words(s).len() ==> is_ascii_text(#[trigger] words(s)[k]),
{
    lemma_words_scan_ascii(s);
    let (ws, cur) = words_scan(s);
    if cur.len() > 0 {
        assert forall|k: int| 0 <= k < ws.push(cur).len() implies is_ascii_text(#[trigger] ws.push(cur)[k]) by {
            if k < ws.len() {
                assert(ws.push(cur)[k] == ws[k]);
            }
        }
    }
}

pub proof fn lemma_decimal_nonempty_digits(n: nat)
    ensures
        decimal(n).len() >= 1,
        forall|i: int| 0 <= i < decimal(n).len() ==> is_ascii_digit(#[trigger] decimal(n)[i]),
    decreases n,
{
    if n >= 10 {
        lemma_decimal_nonempty_digits(n / 10);
    }
}

// ---------------------------------------------------------------------------
// Executable operations
// ---------------------------------------------------------------------------

/// Collects the characters of `s` into a vector.
pub fn chars_of(s: &str) -> (v: Vec<char>)
    ensures
        v@ == s@,
{
    let mut v: Vec<char> = Vec::new();
    for c in it: s.chars()
        invariant
            v@ == it.seq().take(it.index() as int),
    {
        v.push(c);
    }
    v
}

/// Appends one character to a string.
///
/// Trusted: calls `String::push`, which appends exactly that character.
#[verifier::external_body]
pub(crate) fn push_char(s: &mut String, c: char)
    ensures
        final(s)@ == old(s)@.push(c),
{
    s.push(c);
}

/// Builds a string holding exactly the given characters.
pub fn string_of(v: &Vec<char>) -> (s: String)
    ensures
        s@ == v@,
{
    let mut s = String::new();
    for i in 0..v.len()
        invariant
            s@ == v@.take(i as int),
    {
        push_char(&mut s, v[i]);
        assert(v@.take(i + 1) == v@.take(i as int).push(v@[i as int]));
    }
    assert(v@.take(v.len() as int) == v@);
    s
}

/// Appends all of `src` to `dst`.
pub fn extend_chars(dst: &mut Vec<char>, src: &Vec<char>)
    ensures
        final(dst)@ == old(dst)@ + src@,
{
    let ghost start = dst@;
    for i in 0..src.len()
        invariant
            dst@ == start + src@.take(i as int),
    {
        dst.push(src[i]);
        assert(src@.take(i + 1) == src@.take(i as int).push(src@[i as int]));
    }
    assert(src@.take(src.len() as int) == src@);
}

/// Appends all characters of `src` to `dst`.
pub fn extend_str(dst: &mut Vec<char>, src: &str)
    ensures
        final(dst)@ == old(dst)@ + src@,
{
    let v = chars_of(src);
    extend_chars(dst, &v);
}

pub fn is_white_char(c: char) -> (b: bool)
    ensures
        b == is_white(c),
{
    ('\t' <= c && c <= '\r') || c == ' ' || c == '\u{85}' || c == '\u{A0}' || c == '\u{1680}'
        || ('\u{2000}' <= c && c <= '\u{200A}') || c == '\u{2028}' || c == '\u{2029}'
        || c == '\u{202F}' || c == '\u{205F}' || c == '\u{3000}'
}

pub fn is_ascii_digit_char(c: char) -> (b: bool)
    ensures
        b == is_ascii_digit(c),
{
    '0' <= c && c <= '9'
}

pub fn is_ascii_alnum_char(c: char) -> (b: bool)
    ensures
        b == is_ascii_alnum(c),
{
    ('0' <= c && c <= '9') || ('A' <= c && c <= 'Z') || ('a' <= c && c <= 'z')
}

pub fn lower_ascii_char(c: char) -> (r: char)
    ensures
        r == ascii_lower_char(c),
{
    if 'A' <= c && c <= 'Z' {
        let b: u8 = c as u8;
        assert(b == c as u32);
        ((b + 32) as char)
    } else {
        c
    }
}

/// ASCII lower-casing, as `str::to_ascii_lowercase`.
pub fn to_ascii_lower(s: &Vec<char>) -> (r: Vec<char>)
    ensures
        r@ == ascii_lower(s@),
{
    let mut r: Vec<char> = Vec::new();
    for i in 0..s.len()
        invariant
            r@ == ascii_lower(s@.take(i as int)),
    {
        r.push(lower_ascii_char(s[i]));
        assert(ascii_lower(s@.take(i + 1)) =~= ascii_lower(s@.take(i as int)).push(
            ascii_lower_char(s@[i as int]),
        ));
    }
    assert(s@.take(s.len() as int) =~= s@);
    r
}

pub fn chars_equal(a: &Vec<char>, b: &Vec<char>) -> (r: bool)
    ensures
        r == (a@ == b@),
{
    if a.len() != b.len() {
        return false;
    }
    for i in 0..a.len()
        invariant
            a.len() == b.len(),
            forall|j: int| 0 <= j < i ==> a@[j] == b@[j],
    {
        if a[i] != b[i] {
            return false;
        }
    }
    assert(a@ =~= b@);
    true
}

/// Whether two texts are equal.
pub fn str_equal(a: &str, b: &str) -> (r: bool)
    ensures
        r == (a@ == b@),
{
    let va = chars_of(a);
    let vb = chars_of(b);
    chars_equal(&va, &vb)
}

pub fn eq_ignore_case(a: &Vec<char>, b: &Vec<char>) -> (r: bool)
    ensures
        r == eq_ignore_ascii_case(a@, b@),
{
    let la = to_ascii_lower(a);
    let lb = to_ascii_lower(b);
    chars_equal(&la, &lb)
}

/// Whether `p` occurs in `s` at position `at`.
pub fn matches_at(s: &Vec<char>, p: &Vec<char>, at: usize) -> (r: bool)
    ensures
        r == occurs_at(s@, p@, at as int),
{
    if at > s.len() || p.len() > s.len() - at {
        return false;
    }
    for i in 0..p.len()
        invariant
            at + p.len() <= s.len(),
            forall|j: int| 0 <= j < i ==> s@[at + j] == p@[j],
    {
        if s[at + i] != p[i] {
            assert(s@.subrange(at as int, at + p.len())[i as int] != p@[i as int]);
            return false;
        }
    }
    assert(s@.subrange(at as int, at + p.len()) =~= p@);
    true
}

pub fn starts_with(s: &Vec<char>, p: &Vec<char>) -> (r: bool)
    ensures
        r == has_prefix(s@, p@),
{
    matches_at(s, p, 0)
}

pub fn ends_with(s: &Vec<char>, p: &Vec<char>) -> (r: bool)
    ensures
        r == has_suffix(s@, p@),
{
    if p.len() > s.len() {
        return false;
    }
    matches_at(s, p, s.len() - p.len())
}

/// Substring search, as `str::contains` with a string pattern.
pub fn contains(s: &Vec<char>, p: &Vec<char>) -> (r: bool)
    ensures
        r == contains_seq(s@, p@),
{
    if p.len() > s.len() {
        assert forall|i: int| !occurs_at(s@, p@, i) by {}
        return false;
    }
    let last = s.len() - p.len();
    let mut i: usize = 0;
    loop
        invariant
            last + p.len() == s.len(),
            i <= last,
            forall|j: int| 0 <= j < i ==> !occurs_at(s@, p@, j),
        decreases last - i,
    {
        if matches_at(s, p, i) {
            return true;
        }
        if i == last {
            assert forall|j: int| !occurs_at(s@, p@, j) by {
                if 0 <= j < i {
                }
            }
            return false;
        }
        i = i + 1;
    }
}

pub fn contains_char(s: &Vec<char>, c: char) -> (r: bool)
    ensures
        r == s@.contains(c),
{
    for i in 0..s.len()
        invariant
            forall|j: int| 0 <= j < i ==> s@[j] != c,
    {
        if s[i] == c {
            return true;
        }
    }
    false
}

/// `str::trim`.
pub fn trim_chars(s: &Vec<char>) -> (r: Vec<char>)
    ensures
        r@ == trim(s@),
{
    let mut start: usize = 0;
    while start < s.len() && is_white_char(s[start])
        invariant
            start <= s.len(),
            forall|j: int| 0 <= j < start ==> is_white(#[trigger] s@[j]),
        decreases s.len() - start,
    {
        start = start + 1;
    }
    proof {
        lemma_trim_start_skip(s@, start as int);
    }
    let mut end: usize = s.len();
    while end > start && is_white_char(s[end - 1])
        invariant
            start <= end <= s.len(),
            forall|j: int| end <= j < s.len() ==> is_white(#[trigger] s@[j]),
        decreases end,
    {
        end = end - 1;
    }
    let ghost t = s@.skip(start as int);
    proof {
        assert forall|j: int| end - start <= j < t.len() implies is_white(#[trigger] t[j]) by {
            assert(t[j] == s@[start + j]);
        }
        if end > start {
            assert(t[end - start - 1] == s@[end - 1]);
        }
        lemma_trim_end_take(t, end - start);
    }
    let mut r: Vec<char> = Vec::new();
    let mut k: usize = start;
    while k < end
        invariant
            start <= k <= end <= s.len(),
            r@ == s@.subrange(start as int, k as int),
        decreases end - k,
    {
        r.push(s[k]);
        assert(s@.subrange(start as int, k + 1) =~= s@.subrange(start as int, k as int).push(
            s@[k as int],
        ));
        k = k + 1;
    }
    assert(r@ =~= t.take(end - start));
    r
}

/// `trim_end_matches(c)` for a single character.
pub fn trim_end_matches_char(s: &Vec<char>, c: char) -> (r: Vec<char>)
    ensures
        r@ == trim_end_char(s@, c),
{
    let mut end: usize = s.len();
    while end > 0 && s[end - 1] == c
        invariant
            end <= s.len(),
            forall|j: int| end <= j < s.len() ==> #[trigger] s@[j] == c,
        decreases end,
    {
        end = end - 1;
    }
    proof {
        lemma_trim_end_char_take(s@, c, end as int);
    }
    let r = take_chars(s, end);
    r
}

/// `trim_start_matches(c)` for a single character.
pub fn trim_start_matches_char(s: &Vec<char>, c: char) -> (r: Vec<char>)
    ensures
        r@ == trim_start_char(s@, c),
{
    let mut start: usize = 0;
    while start < s.len() && s[start] == c
        invariant
            start <= s.len(),
            forall|j: int| 0 <= j < start ==> #[trigger] s@[j] == c,
        decreases s.len() - start,
    {
        start = start + 1;
    }
    proof {
        lemma_trim_start_char_skip(s@, c, start as int);
    }
    skip_chars(s, start)
}

/// `trim_matches(c)` for a single character: both ends.
pub fn trim_matches_char(s: &Vec<char>, c: char) -> (r: Vec<char>)
    ensures
        r@ == trim_end_char(trim_start_char(s@, c), c),
{
    let mut start: usize = 0;
    while start < s.len() && s[start] == c
        invariant
            start <= s.len(),
            forall|j: int| 0 <= j < start ==> #[trigger] s@[j] == c,
        decreases s.len() - start,
    {
        start = start + 1;
    }
    proof {
        lemma_trim_start_char_skip(s@, c, start as int);
    }
    let rest = skip_chars(s, start);
    trim_end_matches_char(&rest, c)
}

pub fn take_chars(s: &Vec<char>, n: usize) -> (r: Vec<char>)
    requires
        n <= s.len(),
    ensures
        r@ == s@.take(n as int),
{
    let mut r: Vec<char> = Vec::new();
    for i in 0..n
        invariant
            n <= s.len(),
            r@ == s@.take(i as int),
    {
        r.push(s[i]);
        assert(s@.take(i + 1) =~= s@.take(i as int).push(s@[i as int]));
    }
    r
}

pub fn skip_chars(s: &Vec<char>, n: usize) -> (r: Vec<char>)
    requires
        n <= s.len(),
    ensures
        r@ == s@.skip(n as int),
{
    let mut r: Vec<char> = Vec::new();
    let mut i: usize = n;
    while i < s.len()
        invariant
            n <= i <= s.len(),
            r@ == s@.subrange(n as int, i as int),
        decreases s.len() - i,
    {
        r.push(s[i]);
        assert(s@.subrange(n as int, i + 1) =~= s@.subrange(n as int, i as int).push(
            s@[i as int],
        ));
        i = i + 1;
    }
    assert(s@.subrange(n as int, s.len() as int) =~= s@.skip(n as int));
    r
}

/// The decimal text of `n`.
pub fn decimal_chars(n: u64) -> (r: Vec<char>)
    ensures
        r@ == decimal(n as nat),
    decreases n,
{
    if n < 10 {
        let d: u8 = n as u8;
        let c: char = (48u8 + d) as char;
        assert(c == digit_char(n as nat));
        let mut r: Vec<char> = Vec::new();
        r.push(c);
        assert(r@ =~= seq![digit_char(n as nat)]);
        r
    } else {
        let mut r = decimal_chars(n / 10);
        let d: u8 = (n % 10) as u8;
        let c: char = (48u8 + d) as char;
        assert(c == digit_char((n % 10) as nat));
        r.push(c);
        r
    }
}


// ---------------------------------------------------------------------------
// Replacing, splitting into words, joining
// ---------------------------------------------------------------------------

/// Every `from` replaced by `to` (`str::replace` with a character pattern).
pub open spec fn replace_char(s: Seq<char>, from: char, to: char) -> Seq<char> {
    Seq::new(s.len(), |i: int| if s[i] == from { to } else { s[i] })
}

/// Repeatedly removes the suffix `p` (`str::trim_end_matches` with a string).
pub open spec fn trim_end_str(s: Seq<char>, p: Seq<char>) -> Seq<char>
    decreases s.len(),
{
    if p.len() > 0 && has_suffix(s, p) {
        trim_end_str(s.take(s.len() - p.len()), p)
    } else {
        s
    }
}

/// Finished words and the word in progress, scanning `s` from the left.
pub open spec fn words_scan(s: Seq<char>) -> (Seq<Seq<char>>, Seq<char>)
    decreases s.len(),
{
    if s.len() == 0 {
        (Seq::<Seq<char>>::empty(), Seq::<char>::empty())
    } else {
        let (ws, cur) = words_scan(s.drop_last());
        if is_white(s.last()) {
            if cur.len() > 0 {
                (ws.push(cur), Seq::<char>::empty())
            } else {
                (ws, Seq::<char>::empty())
            }
        } else {
            (ws, cur.push(s.last()))
        }
    }
}

/// The maximal runs of non-white characters (`str::split_whitespace`).
pub open spec fn words(s: Seq<char>) -> Seq<Seq<char>> {
    let (ws, cur) = words_scan(s);
    if cur.len() > 0 {
        ws.push(cur)
    } else {
        ws
    }
}

/// The texts with `sep` between consecutive ones (`join`).
pub open spec fn join_with(parts: Seq<Seq<char>>, sep: Seq<char>) -> Seq<char>
    decreases parts.len(),
{
    if parts.len() == 0 {
        Seq::<char>::empty()
    } else if parts.len() == 1 {
        parts[0]
    } else {
        join_with(parts.drop_last(), sep) + sep + parts.last()
    }
}

pub fn replace_chars(s: &Vec<char>, from: char, to: char) -> (r: Vec<char>)
    ensures
        r@ == replace_char(s@, from, to),
{
    let mut r: Vec<char> = Vec::new();
    for i in 0..s.len()
        invariant
            r@ == replace_char(s@.take(i as int), from, to),
    {
        let c = s[i];
        r.push(if c == from { to } else { c });
        assert(replace_char(s@.take(i + 1), from, to) =~= replace_char(s@.take(i as int), from, to).push(
            if s@[i as int] == from { to } else { s@[i as int] },
        ));
    }
    assert(s@.take(s.len() as int) =~= s@);
    r
}

pub fn trim_end_matches_str(s: &Vec<char>, p: &Vec<char>) -> (r: Vec<char>)
    ensures
        r@ == trim_end_str(s@, p@),
{
    if p.len() == 0 {
        return take_chars(s, s.len());
    }
    let mut end: usize = s.len();
    assert(s@.take(end as int) =~= s@);
    while end >= p.len() && matches_at(s, p, end - p.len())
        invariant
            end <= s.len(),
            p.len() > 0,
            trim_end_str(s@, p@) == trim_end_str(s@.take(end as int), p@),
        decreases end,
    {
        proof {
            let t = s@.take(end as int);
            assert(t.subrange(t.len() - p@.len(), t.len() as int) =~= s@.subrange(
                end - p@.len(),
                end as int,
            ));
            assert(t.take(t.len() - p@.len()) =~= s@.take(end - p@.len()));
        }
        end = end - p.len();
    }
    proof {
        let t = s@.take(end as int);
        if end >= p.len() {
            assert(t.subrange(t.len() - p@.len(), t.len() as int) =~= s@.subrange(
                end - p@.len(),
                end as int,
            ));
        }
    }
    take_chars(s, end)
}

/// Splits `s` into whitespace-separated words.
pub fn split_words(s: &Vec<char>) -> (r: Vec<Vec<char>>)
    ensures
        r@.len() == words(s@).len(),
        forall|i: int| 0 <= i < r@.len() ==> #[trigger] r@[i]@ == words(s@)[i],
{
    let mut ws: Vec<Vec<char>> = Vec::new();
    let mut cur: Vec<char> = Vec::new();
    for i in 0..s.len()
        invariant
            ws@.len() == words_scan(s@.take(i as int)).0.len(),
            forall|k: int| 0 <= k < ws@.len() ==> #[trigger] ws@[k]@ == words_scan(
                s@.take(i as int),
            ).0[k],
            cur@ == words_scan(s@.take(i as int)).1,
    {
        assert(s@.take(i + 1).drop_last() =~= s@.take(i as int));
        assert(s@.take(i + 1).last() == s@[i as int]);
        let c = s[i];
        if is_white_char(c) {
            if cur.len() > 0 {
                let ghost before = ws@;
                ws.push(cur);
                cur = Vec::new();
                assert(cur@ =~= Seq::<char>::empty());
                assert forall|k: int| 0 <= k < ws@.len() implies #[trigger] ws@[k]@ == words_scan(
                    s@.take(i + 1),
                ).0[k] by {
                    if k < before.len() {
                        assert(ws@[k] == before[k]);
                    }
                }
            } else {
                cur = Vec::new();
                assert(cur@ =~= Seq::<char>::empty());
            }
        } else {
            cur.push(c);
        }
    }
    assert(s@.take(s.len() as int) =~= s@);
    if cur.len() > 0 {
        let ghost before = ws@;
        ws.push(cur);
        assert forall|k: int| 0 <= k < ws@.len() implies #[trigger] ws@[k]@ == words(s@)[k] by {
            if k < before.len() {
                assert(ws@[k] == before[k]);
            }
        }
    }
    ws
}

/// Joins texts with a separator.
pub fn join_chars(parts: &Vec<Vec<char>>, sep: &Vec<char>) -> (r: Vec<char>)
    ensures
        r@ == join_with(parts@.map_values(|p: Vec<char>| p@), sep@),
{
    let ghost ps = parts@.map_values(|p: Vec<char>| p@);
    let mut r: Vec<char> = Vec::new();
    for i in 0..parts.len()
        invariant
            ps == parts@.map_values(|p: Vec<char>| p@),
            r@ == join_with(ps.take(i as int), sep@),
    {
        assert(ps.take(i + 1).drop_last() =~= ps.take(i as int));
        assert(ps.take(i + 1).last() == parts@[i as int]@);
        if i > 0 {
            extend_chars(&mut r, sep);
        } else {
            assert(ps.take(1)[0] == parts@[0]@);
        }
        extend_chars(&mut r, &parts[i]);
    }
    assert(ps.take(parts.len() as int) =~= ps);
    r
}
} // verus!
