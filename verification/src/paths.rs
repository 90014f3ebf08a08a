//! Filesystem paths as text. The component-wise operations of
//! `std::path::Path` are called through small wrappers; what the crate needs
//! to know of them for names without separators is stated exactly.
use vstd::prelude::*;

use crate::net::split_on;
use crate::text::has_prefix;


verus! {

/// Index of the last occurrence of `c` in `s`, if any.
pub open spec fn last_index_of(s: Seq<char>, c: char) -> Option<int>
    decreases s.len(),
{
    if s.len() == 0 {
        None
    } else if s.last() == c {
        Some(s.len() - 1)
    } else {
        last_index_of(s.drop_last(), c)
    }
}

/// The extension of a file name without separators, as `Path::extension`
/// reads it: the text after the last dot, unless that dot opens the name or
/// the name is `..`.
pub open spec fn name_extension(s: Seq<char>) -> Option<Seq<char>> {
    if s == ".."@ {
        None
    } else {
        match last_index_of(s, '.') {
            Some(i) => if i > 0 {
                Some(s.skip(i + 1))
            } else {
                None
            },
            None => None,
        }
    }
}

/// The name for `Path::extension` applied to a text.
pub uninterp spec fn path_extension_of(s: Seq<char>) -> Option<Seq<char>>;

/// The name for `Path::parent` applied to a text.
pub uninterp spec fn path_parent_of(s: Seq<char>) -> Option<Seq<char>>;

/// The name for `Path::join` of a base text and a relative segment.
pub uninterp spec fn path_join_of(base: Seq<char>, seg: Seq<char>) -> Seq<char>;

/// The name for `Path::components` yielding exactly one normal component.
pub uninterp spec fn path_is_single_normal_of(s: Seq<char>) -> bool;

/// The name for `Path::starts_with` (a component-wise prefix test).
pub uninterp spec fn path_starts_with_of(path: Seq<char>, base: Seq<char>) -> bool;

pub open spec fn opt_chars(o: Option<String>) -> Option<Seq<char>> {
    match o {
        Some(s) => Some(s@),
        None => None,
    }
}

/// The extension of `s` (`Path::extension`).
///
/// Trusted: calls `Path::new(s).extension()`. For a text without `/` the
/// contract states the result exactly, as `Path`'s documentation and source
/// define it for a single file name; otherwise it only names it.
#[verifier::external_body]
pub(crate) fn path_extension(s: &str) -> (r: Option<String>)
    ensures
        opt_chars(r) == path_extension_of(s@),
        !s@.contains('/') ==> opt_chars(r) == name_extension(s@),
{
    std::path::Path::new(s).extension().map(|e| e.to_string_lossy().into_owned())
}

/// A `/`-separated segment that is a component of its own: neither empty
/// nor `.`.
pub open spec fn named_segment(g: Seq<char>) -> bool {
    g.len() > 0 && g != "."@
}

/// A plain file name: one normal component without `/`.
pub open spec fn plain_name(n: Seq<char>) -> bool {
    n.len() > 0 && !n.contains('/') && n != "."@ && n != ".."@
}

/// A directory path written plainly: not empty, no trailing `/`, and every
/// segment a component of its own (the first may be empty: an absolute
/// path).
pub open spec fn plain_dir(b: Seq<char>) -> bool {
    &&& b.len() > 0
    &&& b.last() != '/'
    &&& forall|k: int|
        0 <= k < split_on(b, '/').len() ==> (k == 0 && #[trigger] split_on(b, '/')[k].len() == 0) || named_segment(
            split_on(b, '/')[k],
        )
}

/// The parent of `s` as `Path::parent` gives it: the empty path for a
/// single name without `/`; the directory part of a plain directory and a
/// plain file name; otherwise named.
pub open spec fn parent_text(s: Seq<char>) -> Option<Seq<char>> {
    if s.len() > 0 && !s.contains('/') {
        Some(Seq::empty())
    } else {
        match last_index_of(s, '/') {
            Some(i) => if plain_dir(s.take(i)) && plain_name(s.skip(i + 1)) {
                Some(s.take(i))
            } else {
                path_parent_of(s)
            },
            None => path_parent_of(s),
        }
    }
}

/// `base` joined with `seg` as `Path::join` gives it: the two with one `/`
/// between them when `base` is non-empty without a trailing `/` and `seg`
/// is relative and non-empty; otherwise named.
pub open spec fn join_text(base: Seq<char>, seg: Seq<char>) -> Seq<char> {
    if base.len() > 0 && base.last() != '/' && seg.len() > 0 && seg[0] != '/' {
        base + "/"@ + seg
    } else {
        path_join_of(base, seg)
    }
}

/// A path of several components: absolute, opening with `./`, holding a
/// `..` segment, or holding two segments that are components of their own.
pub open spec fn several_components(s: Seq<char>) -> bool {
    ||| s.len() > 0 && s[0] == '/'
    ||| has_prefix(s, "./"@)
    ||| split_on(s, '/').contains(".."@)
    ||| exists|i: int, j: int|
        0 <= i < j < split_on(s, '/').len() && named_segment(#[trigger] split_on(s, '/')[i]) && named_segment(
            #[trigger] split_on(s, '/')[j],
        )
}

/// Whether `s` is one normal component, as `Path::components` reads it:
/// exactly for a text without `/`; never for a path of several
/// components; otherwise named.
pub open spec fn single_normal_text(s: Seq<char>) -> bool {
    if !s.contains('/') {
        s.len() > 0 && s != "."@ && s != ".."@
    } else if several_components(s) {
        false
    } else {
        path_is_single_normal_of(s)
    }
}

/// The parent directory of `s` (`Path::parent`).
///
/// Trusted: calls `Path::new(s).parent()`. Its documentation gives `Some("")`
/// for a relative path of one component, which a non-empty text without
/// `/` is, and otherwise the path without its final component: for a plain
/// directory, `/`, and a plain file name, that is the directory. Other
/// results are only named.
#[verifier::external_body]
pub(crate) fn path_parent(s: &str) -> (r: Option<String>)
    ensures
        opt_chars(r) == path_parent_of(s@),
        s@.len() > 0 && !s@.contains('/') ==> opt_chars(r) == Some(Seq::<char>::empty()),
        match last_index_of(s@, '/') {
            Some(i) => plain_dir(s@.take(i)) && plain_name(s@.skip(i + 1)) ==> opt_chars(r) == Some(s@.take(i)),
            None => true,
        },
{
    std::path::Path::new(s).parent().map(|p| p.to_string_lossy().into_owned())
}

/// `base` joined with `seg` (`Path::join`).
///
/// Trusted: calls `Path::new(base).join(seg)`. When `base` is non-empty and
/// does not end in `/`, and `seg` is non-empty and does not start with `/`,
/// the documentation of `PathBuf::push` gives the result exactly: the two
/// texts with one `/` between them.
#[verifier::external_body]
pub(crate) fn path_join(base: &str, seg: &str) -> (r: String)
    ensures
        r@ == path_join_of(base@, seg@),
        base@.len() > 0 && base@.last() != '/' && seg@.len() > 0 && seg@[0] != '/' ==> r@ == base@
            + "/"@ + seg@,
{
    std::path::Path::new(base).join(seg).to_string_lossy().into_owned()
}

/// Whether `Path::new(s).components()` is exactly one normal component.
///
/// Trusted: calls `Path::components`. For a text without `/` the result is
/// stated exactly: a non-empty name other than `.` and `..`. A path that
/// starts at the root, opens with `.` (kept as the current directory at the
/// start), holds `..` (always a component) or two segments that are
/// neither empty nor `.` (which the documentation says are normalized
/// away) has more than one component, or one that is not normal.
#[verifier::external_body]
pub(crate) fn path_is_single_normal(s: &str) -> (r: bool)
    ensures
        r == path_is_single_normal_of(s@),
        !s@.contains('/') ==> (r <==> (s@.len() > 0 && s@ != "."@ && s@ != ".."@)),
        several_components(s@) ==> !r,
{
    let mut components = std::path::Path::new(s).components();
    matches!(
        (components.next(), components.next()),
        (Some(std::path::Component::Normal(_)), None)
    )
}

/// Whether `path` lies under `base`, component by component (`Path::starts_with`).
///
/// Trusted: calls `Path::starts_with`; the contract only names the result.
#[verifier::external_body]
pub(crate) fn path_starts_with(path: &str, base: &str) -> (r: bool)
    ensures
        r == path_starts_with_of(path@, base@),
{
    std::path::Path::new(path).starts_with(std::path::Path::new(base))
}

/// The stem of a file name without separators, as `Path::file_stem` reads
/// it: none for an empty name, `.` or `..`; the text before the last dot
/// when that dot does not open the name; else the whole name.
pub open spec fn name_stem(s: Seq<char>) -> Option<Seq<char>> {
    if s.len() == 0 || s == "."@ || s == ".."@ {
        None
    } else {
        match last_index_of(s, '.') {
            Some(i) => if i > 0 {
                Some(s.take(i))
            } else {
                Some(s)
            },
            None => Some(s),
        }
    }
}

/// The name for `Path::file_stem` applied to a text.
pub uninterp spec fn path_file_stem_of(s: Seq<char>) -> Option<Seq<char>>;

/// The name for `Path::file_name` applied to a text.
pub uninterp spec fn path_file_name_of(s: Seq<char>) -> Option<Seq<char>>;

/// The stem of `s` (`Path::file_stem`).
///
/// Trusted: calls `Path::new(s).file_stem()`. For a text without `/` the
/// contract states the result exactly, as the documentation of
/// `Path::file_stem` defines it; otherwise it only names it.
#[verifier::external_body]
pub(crate) fn path_file_stem(s: &str) -> (r: Option<String>)
    ensures
        opt_chars(r) == path_file_stem_of(s@),
        !s@.contains('/') ==> opt_chars(r) == name_stem(s@),
{
    std::path::Path::new(s).file_stem().map(|e| e.to_string_lossy().into_owned())
}

/// The last component of `s` as `Path::file_name` gives it: the text
/// itself for a plain file name (non-empty, no `/`, not `.` or `..`);
/// otherwise named.
pub open spec fn file_name_text(s: Seq<char>) -> Option<Seq<char>> {
    if s.len() > 0 && !s.contains('/') && s != "."@ && s != ".."@ {
        Some(s)
    } else {
        path_file_name_of(s)
    }
}

/// The last component of `s` (`Path::file_name`).
///
/// Trusted: calls `Path::new(s).file_name()`. Its documentation gives the
/// file name of a path that is a normal file, so a plain file name (one
/// normal component) comes back unchanged; other results are only named.
#[verifier::external_body]
pub(crate) fn path_file_name(s: &str) -> (r: Option<String>)
    ensures
        opt_chars(r) == path_file_name_of(s@),
        s@.len() > 0 && !s@.contains('/') && s@ != "."@ && s@ != ".."@ ==> opt_chars(r) == Some(s@),
{
    std::path::Path::new(s).file_name().map(|e| e.to_string_lossy().into_owned())
}

proof fn lemma_split_on_append(b: Seq<char>, sep: char, n: Seq<char>)
    requires
        !n.contains(sep),
    ensures
        split_on(b + seq![sep] + n, sep) == split_on(b, sep).push(n),
    decreases n.len(),
{
    let s = b + seq![sep] + n;
    if n.len() == 0 {
        assert(s.drop_last() =~= b);
        assert(s.last() == sep);
        assert(n =~= Seq::<char>::empty());
    } else {
        let m = n.drop_last();
        assert(!m.contains(sep)) by {
            if m.contains(sep) {
                let k = choose|k: int| 0 <= k < m.len() && m[k] == sep;
                assert(n[k] == sep);
            }
        }
        lemma_split_on_append(b, sep, m);
        assert(s.drop_last() =~= b + seq![sep] + m);
        assert(s.last() == n.last());
        assert(n.last() != sep) by {
            assert(n[n.len() - 1] == n.last());
        }
        let rest = split_on(b, sep).push(m);
        assert(rest.update(rest.len() - 1, rest.last().push(n.last())) =~= split_on(b, sep).push(n)) by {
            assert(m.push(n.last()) =~= n);
        }
    }
}

proof fn lemma_last_index_after(b: Seq<char>, c: char, n: Seq<char>)
    requires
        !n.contains(c),
    ensures
        last_index_of(b + seq![c] + n, c) == Some(b.len() as int),
    decreases n.len(),
{
    let s = b + seq![c] + n;
    if n.len() == 0 {
        assert(s.last() == c);
    } else {
        let m = n.drop_last();
        assert(!m.contains(c)) by {
            if m.contains(c) {
                let k = choose|k: int| 0 <= k < m.len() && m[k] == c;
                assert(n[k] == c);
            }
        }
        lemma_last_index_after(b, c, m);
        assert(s.drop_last() =~= b + seq![c] + m);
        assert(n.last() != c) by {
            assert(n[n.len() - 1] == n.last());
        }
    }
}

/// A plain directory joined with a plain file name is a plain path whose
/// parent is that directory, and the joined path is itself a plain
/// directory.
pub proof fn law_parent_of_join(b: Seq<char>, n: Seq<char>)
    requires
        plain_dir(b),
        plain_name(n),
    ensures
        join_text(b, n) == b + "/"@ + n,
        parent_text(join_text(b, n)) == Some(b),
        plain_dir(join_text(b, n)),
{
    reveal_strlit("/");
    reveal_strlit(".");
    reveal_strlit("..");
    assert(n[0] != '/') by {
        assert(n.contains(n[0]) ==> n[0] != '/');
    }
    let s = join_text(b, n);
    assert(s == b + seq!['/'] + n);
    assert(s.contains('/')) by {
        assert(s[b.len() as int] == '/');
    }
    lemma_last_index_after(b, '/', n);
    assert(s.take(b.len() as int) =~= b);
    assert(s.skip(b.len() as int + 1) =~= n);
    lemma_split_on_append(b, '/', n);
    let segs = split_on(s, '/');
    assert forall|k: int| 0 <= k < segs.len() implies (k == 0 && #[trigger] segs[k].len() == 0) || named_segment(segs[k]) by {
        if k < split_on(b, '/').len() {
            assert(segs[k] == split_on(b, '/')[k]);
        } else {
            assert(segs[k] == n);
        }
    }
    assert(s.last() == n.last()) by {
        assert(s.last() == s[s.len() - 1]);
    }
    assert(n.last() != '/') by {
        assert(n[n.len() - 1] == n.last());
    }
}

/// Finds the last occurrence of `c`.
pub fn rfind_char(s: &Vec<char>, c: char) -> (r: Option<usize>)
    ensures
        match r {
            Some(i) => last_index_of(s@, c) == Some(i as int),
            None => last_index_of(s@, c) is None,
        },
{
    let mut i: usize = s.len();
    assert(s@.take(i as int) =~= s@);
    while i > 0
        invariant
            i <= s.len(),
            forall|j: int| i <= j < s.len() ==> s@[j] != c,
            last_index_of(s@, c) == last_index_of(s@.take(i as int), c),
        decreases i,
    {
        assert(s@.take(i as int).drop_last() =~= s@.take(i - 1));
        if s[i - 1] == c {
            return Some(i - 1);
        }
        i = i - 1;
    }
    assert(s@.take(0) =~= Seq::<char>::empty());
    None
}

} // verus!
