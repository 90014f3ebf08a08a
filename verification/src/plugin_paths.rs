//! Checks on the paths under which plugins are stored: a plugin's name must
//! be one plain path component, and every directory the server resolves for
//! a plugin must stay inside the plugin base directory.
use vstd::prelude::*;

use crate::paths::{path_is_single_normal, path_is_single_normal_of, single_normal_text, path_join, path_join_of, join_text, path_starts_with, path_starts_with_of};
use crate::text::{chars_equal, chars_of, extend_str, is_white, is_white_char, string_of, trim, trim_chars};

verus! {

/// Why a plugin path was refused; each variant carries the label that names
/// the checked value in messages.
#[derive(Debug, Clone)]
pub enum PluginPathError {
    Empty { label: String },
    Whitespace { label: String },
    InnerWhitespace { label: String },
    NotSingleComponent { label: String },
    OutsideBase { label: String, dir: String, base: String },
}

/// The refusal of `value` as a path component, if any (the label aside).
pub enum ComponentRefusal {
    Empty,
    Whitespace,
    InnerWhitespace,
    NotSingleComponent,
}

/// Some character of `s` is white space.
pub open spec fn has_white(s: Seq<char>) -> bool {
    exists|i: int| 0 <= i < s.len() && is_white(#[trigger] s[i])
}

pub open spec fn component_refusal(value: Seq<char>) -> Option<ComponentRefusal> {
    if trim(value).len() == 0 {
        Some(ComponentRefusal::Empty)
    } else if trim(value) != value {
        Some(ComponentRefusal::Whitespace)
    } else if has_white(value) {
        Some(ComponentRefusal::InnerWhitespace)
    } else if single_normal_text(value) {
        None
    } else {
        Some(ComponentRefusal::NotSingleComponent)
    }
}

/// The message a refusal reads as.
pub open spec fn path_error_message(e: PluginPathError) -> Seq<char> {
    match e {
        PluginPathError::Empty { label } => label@ + " must not be empty"@,
        PluginPathError::Whitespace { label } => label@
            + " must not contain leading or trailing whitespace"@,
        PluginPathError::InnerWhitespace { label } => label@ + " must not contain whitespace"@,
        PluginPathError::NotSingleComponent { label } => label@
            + " must be a single path component"@,
        PluginPathError::OutsideBase { label, dir, base } => label@ + " dir "@ + dir@
            + " is outside plugin directory "@ + base@,
    }
}

/// The message of a refused component, for the value named `label`.
pub open spec fn refusal_text(label: Seq<char>, c: ComponentRefusal) -> Seq<char> {
    match c {
        ComponentRefusal::Empty => label + " must not be empty"@,
        ComponentRefusal::Whitespace => label + " must not contain leading or trailing whitespace"@,
        ComponentRefusal::InnerWhitespace => label + " must not contain whitespace"@,
        ComponentRefusal::NotSingleComponent => label + " must be a single path component"@,
    }
}

impl PluginPathError {
    /// The error's message.
    pub fn to_string(&self) -> (r: String)
        ensures
            r@ == path_error_message(*self),
    {
        let mut out: Vec<char> = Vec::new();
        match self {
            PluginPathError::Empty { label } => {
                extend_str(&mut out, label.as_str());
                extend_str(&mut out, " must not be empty");
            },
            PluginPathError::Whitespace { label } => {
                extend_str(&mut out, label.as_str());
                extend_str(&mut out, " must not contain leading or trailing whitespace");
            },
            PluginPathError::InnerWhitespace { label } => {
                extend_str(&mut out, label.as_str());
                extend_str(&mut out, " must not contain whitespace");
            },
            PluginPathError::NotSingleComponent { label } => {
                extend_str(&mut out, label.as_str());
                extend_str(&mut out, " must be a single path component");
            },
            PluginPathError::OutsideBase { label, dir, base } => {
                extend_str(&mut out, label.as_str());
                extend_str(&mut out, " dir ");
                extend_str(&mut out, dir.as_str());
                extend_str(&mut out, " is outside plugin directory ");
                extend_str(&mut out, base.as_str());
            },
        }
        string_of(&out)
    }
}

/// Checks that `value` can name a plugin directory or file: not blank, no
/// white space anywhere in it, and exactly one normal path component (so no
/// separators, no `.` or `..`).
pub fn validate_path_component(label: &str, value: &str) -> (r: Result<(), PluginPathError>)
    ensures
        match component_refusal(value@) {
            None => r is Ok,
            Some(ComponentRefusal::Empty) => r matches Err(PluginPathError::Empty { label: l })
                && l@ == label@,
            Some(ComponentRefusal::Whitespace) => r matches Err(
                PluginPathError::Whitespace { label: l },
            ) && l@ == label@,
            Some(ComponentRefusal::InnerWhitespace) => r matches Err(
                PluginPathError::InnerWhitespace { label: l },
            ) && l@ == label@,
            Some(ComponentRefusal::NotSingleComponent) => r matches Err(
                PluginPathError::NotSingleComponent { label: l },
            ) && l@ == label@,
        },
        match component_refusal(value@) {
            Some(c) => r matches Err(e) && path_error_message(e) == refusal_text(label@, c),
            None => true,
        },
        value@.len() > 0 && !has_white(value@) && !value@.contains('/') ==> (r is Ok <==> (
        value@ != "."@ && value@ != ".."@)),
{
    let v = chars_of(value);
    let t = trim_chars(&v);
    if t.len() == 0 {
        return Err(PluginPathError::Empty { label: label.to_owned() });
    }
    if !chars_equal(&t, &v) {
        return Err(PluginPathError::Whitespace { label: label.to_owned() });
    }
    let mut i: usize = 0;
    while i < v.len()
        invariant
            i <= v.len(),
            v@ == value@,
            trim(value@).len() > 0,
            trim(value@) == value@,
            forall|j: int| 0 <= j < i ==> !is_white(#[trigger] v@[j]),
        decreases v.len() - i,
    {
        if is_white_char(v[i]) {
            assert(has_white(value@));
            return Err(PluginPathError::InnerWhitespace { label: label.to_owned() });
        }
        i = i + 1;
    }
    if path_is_single_normal(value) {
        Ok(())
    } else {
        Err(PluginPathError::NotSingleComponent { label: label.to_owned() })
    }
}

/// Refuses `dir_real` unless it lies under `base_real`, component by
/// component.
pub fn ensure_under_base(base_real: &str, dir_real: &str, label: &str) -> (r: Result<
    (),
    PluginPathError,
>)
    ensures
        path_starts_with_of(dir_real@, base_real@) ==> r is Ok,
        !path_starts_with_of(dir_real@, base_real@) ==> (r matches Err(
            PluginPathError::OutsideBase { label: l, dir: d, base: b },
        ) && l@ == label@ && d@ == dir_real@ && b@ == base_real@),
{
    if !path_starts_with(dir_real, base_real) {
        return Err(
            PluginPathError::OutsideBase {
                label: label.to_owned(),
                dir: dir_real.to_owned(),
                base: base_real.to_owned(),
            },
        );
    }
    Ok(())
}

/// `dir` with the names of `tail` pushed onto it, last name first.
pub open spec fn attach_reversed(dir: Seq<char>, tail: Seq<Seq<char>>) -> Seq<char>
    decreases tail.len(),
{
    if tail.len() == 0 {
        dir
    } else {
        attach_reversed(join_text(dir, tail.last()), tail.drop_last())
    }
}

/// Where a directory that does not exist yet would canonically live: the
/// canonical form of its deepest existing ancestor, with the missing names
/// (collected from the leaf upwards) attached again; refused unless the
/// result lies under `base_real`.
pub fn resolve_under_base(
    base_real: &str,
    existing_real: &str,
    missing: &Vec<String>,
    label: &str,
) -> (r: Result<String, PluginPathError>)
    ensures
        ({
            let dir = attach_reversed(
                existing_real@,
                missing@.map_values(|s: String| s@),
            );
            &&& path_starts_with_of(dir, base_real@) ==> (r matches Ok(d) && d@ == dir)
            &&& !path_starts_with_of(dir, base_real@) ==> (r matches Err(
                PluginPathError::OutsideBase { label: l, dir: d, base: b },
            ) && l@ == label@ && d@ == dir && b@ == base_real@)
        }),
{
    let ghost names = missing@.map_values(|s: String| s@);
    let mut dir = existing_real.to_owned();
    let mut i: usize = missing.len();
    assert(names.take(i as int) =~= names);
    while i > 0
        invariant
            i <= missing.len(),
            names == missing@.map_values(|s: String| s@),
            attach_reversed(dir@, names.take(i as int)) == attach_reversed(existing_real@, names),
        decreases i,
    {
        let ghost before = dir@;
        dir = path_join(dir.as_str(), missing[i - 1].as_str());
        assert(names.take(i as int).drop_last() =~= names.take(i - 1));
        assert(names.take(i as int).last() == missing@[i - 1]@);
        i = i - 1;
    }
    assert(names.take(0) =~= Seq::<Seq<char>>::empty());
    match ensure_under_base(base_real, dir.as_str(), label) {
        Ok(()) => Ok(dir),
        Err(e) => Err(e),
    }
}

} // verus!
