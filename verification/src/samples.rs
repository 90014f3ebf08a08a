//! Sample pipelines: file name rules, display names derived from file
//! names, safe file names for saved pipelines, sample ids and the
//! directories a lookup searches.
use vstd::prelude::*;

use crate::paths::{name_extension, opt_chars, path_extension, path_extension_of};
use crate::permissions::{allowlist_admits, texts, Permissions};
use crate::text::{ascii_lower, is_ascii_alnum, ascii_upper_char, lemma_trim_end_str_keeps_ascii, lemma_words_ascii, chars_equal, chars_of, contains, contains_char, contains_seq, eq_ignore_ascii_case, eq_ignore_case, extend_chars, extend_str, is_ascii_char, is_ascii_text, join_chars, join_with, replace_char, replace_chars, skip_chars, split_words, string_of, take_chars, trim_end_char, trim_end_matches_str, trim_end_str, trim_matches_char, trim_start_char, words, decimal, decimal_chars};
use crate::unicode::{char_is_alphanumeric, char_to_uppercase, to_lowercase, unicode_alnum_of, unicode_lower_of, unicode_upper_char_of};

verus! {

/// Largest sample file that is read (1 MiB).
pub const MAX_FILE_SIZE: usize = 1048576;

/// Longest accepted sample file name, in bytes.
pub const MAX_FILENAME_LENGTH: usize = 255;

/// How a pipeline runs.
#[derive(Clone, Copy, Debug, PartialEq, Eq, Structural)]
pub enum EngineMode {
    OneShot,
    Dynamic,
}

impl Default for EngineMode {
    fn default() -> (r: Self)
        ensures
            r == EngineMode::Dynamic,
    {
        EngineMode::Dynamic
    }
}

/// Errors of sample operations.
#[derive(Debug)]
pub enum SamplesError {
    NotFound,
    InvalidFilename(String),
    FileTooLarge,
    AlreadyExists,
    Forbidden,
    Io(std::io::Error),
}

#[verifier::external_type_specification]
#[verifier::external_body]
pub struct ExIoError(std::io::Error);

/// The text of an I/O error (its `Display`).
///
/// Trusted: calls `std::io::Error`'s `to_string`; operating-system messages
/// vary, so nothing is stated of the text.
#[verifier::external_body]
fn io_error_text(e: &std::io::Error) -> String {
    e.to_string()
}

pub open spec fn utf8_len(s: Seq<char>) -> nat {
    vstd::utf8::encode_utf8(s).len()
}

/// Why a sample file name is refused, if it is.
pub open spec fn filename_refusal(f: Seq<char>) -> Option<Seq<char>> {
    if utf8_len(f) > MAX_FILENAME_LENGTH {
        Some("Filename too long"@)
    } else if f.len() == 0 {
        Some("Filename cannot be empty"@)
    } else if contains_seq(f, ".."@) || f.contains('/') || f.contains('\\') {
        Some("Invalid characters in filename"@)
    } else if !yaml_name_extension(f) {
        Some("File must have .yml or .yaml extension"@)
    } else {
        None
    }
}

/// `.yml` or `.yaml` in any case, as `Path::extension` reads the extension.
pub open spec fn yaml_extension(f: Seq<char>) -> bool {
    match path_extension_of(f) {
        Some(ext) => eq_ignore_ascii_case(ext, "yml"@) || eq_ignore_ascii_case(ext, "yaml"@),
        None => false,
    }
}

/// `yaml_extension` for a name without separators, stated exactly.
pub open spec fn yaml_name_extension(f: Seq<char>) -> bool {
    match name_extension(f) {
        Some(ext) => eq_ignore_ascii_case(ext, "yml"@) || eq_ignore_ascii_case(ext, "yaml"@),
        None => false,
    }
}

fn lit(s: &str) -> (r: Vec<char>)
    ensures
        r@ == s@,
{
    chars_of(s)
}

/// Whether `filename` has a `.yml`/`.yaml` extension, in any case.
pub fn has_yaml_extension(filename: &str) -> (r: bool)
    ensures
        r == yaml_extension(filename@),
        !filename@.contains('/') ==> r == yaml_name_extension(filename@),
{
    match path_extension(filename) {
        Some(ext) => {
            let e = chars_of(ext.as_str());
            let yml = lit("yml");
            let yaml = lit("yaml");
            eq_ignore_case(&e, &yml) || eq_ignore_case(&e, &yaml)
        },
        None => false,
    }
}

/// Checks a sample file name: at most 255 bytes, non-empty, no `..`, `/`
/// or `\`, and a YAML extension.
pub fn validate_filename(filename: &str) -> (r: Result<(), SamplesError>)
    ensures
        match filename_refusal(filename@) {
            None => r is Ok,
            Some(msg) => r matches Err(SamplesError::InvalidFilename(m)) && m@ == msg,
        },
{
    let bytes = filename.as_bytes();
    if bytes.len() > MAX_FILENAME_LENGTH {
        return Err(SamplesError::InvalidFilename("Filename too long".to_owned()));
    }
    if filename.is_empty() {
        return Err(SamplesError::InvalidFilename("Filename cannot be empty".to_owned()));
    }
    let f = chars_of(filename);
    let dotdot = lit("..");
    if contains(&f, &dotdot) || contains_char(&f, '/') || contains_char(&f, '\\') {
        return Err(SamplesError::InvalidFilename("Invalid characters in filename".to_owned()));
    }
    if !has_yaml_extension(filename) {
        return Err(
            SamplesError::InvalidFilename("File must have .yml or .yaml extension".to_owned()),
        );
    }
    Ok(())
}

/// A word with its first character upper-cased.
pub open spec fn capitalized(w: Seq<char>) -> Seq<char> {
    if w.len() == 0 {
        w
    } else {
        unicode_upper_char_of(w[0]) + w.skip(1)
    }
}

/// The display name derived from a file name: extension dropped,
/// underscores read as spaces, words capitalized and single-spaced.
pub open spec fn display_name(f: Seq<char>) -> Seq<char> {
    let base = trim_end_str(trim_end_str(f, ".yml"@), ".yaml"@);
    join_with(words(replace_char(base, '_', ' ')).map_values(|w: Seq<char>| capitalized(w)), " "@)
}

/// A word with its first character ASCII upper-cased.
pub open spec fn ascii_capitalized(w: Seq<char>) -> Seq<char> {
    if w.len() == 0 {
        w
    } else {
        seq![ascii_upper_char(w[0])] + w.skip(1)
    }
}

/// `display_name` for an ASCII file name.
pub open spec fn ascii_display_name(f: Seq<char>) -> Seq<char> {
    let base = trim_end_str(trim_end_str(f, ".yml"@), ".yaml"@);
    join_with(words(replace_char(base, '_', ' ')).map_values(|w: Seq<char>| ascii_capitalized(w)), " "@)
}

fn capitalize(w: &Vec<char>) -> (r: Vec<char>)
    ensures
        r@ == capitalized(w@),
        is_ascii_text(w@) ==> r@ == ascii_capitalized(w@),
{
    if w.len() == 0 {
        return Vec::new();
    }
    let first = char_to_uppercase(w[0]);
    let mut r = chars_of(first.as_str());
    let rest = skip_chars(w, 1);
    extend_chars(&mut r, &rest);
    r
}

/// The display name for a sample file without a `name` of its own.
pub fn filename_to_name(filename: &str) -> (r: String)
    ensures
        r@ == display_name(filename@),
        is_ascii_text(filename@) ==> r@ == ascii_display_name(filename@),
{
    let f = chars_of(filename);
    let yml = lit(".yml");
    let yaml = lit(".yaml");
    let a = trim_end_matches_str(&f, &yml);
    let b = trim_end_matches_str(&a, &yaml);
    let spaced = replace_chars(&b, '_', ' ');
    let ws = split_words(&spaced);
    let ghost wseq = words(spaced@);
    proof {
        if is_ascii_text(filename@) {
            lemma_trim_end_str_keeps_ascii(filename@, ".yml"@);
            lemma_trim_end_str_keeps_ascii(a@, ".yaml"@);
            assert forall|i: int| 0 <= i < spaced@.len() implies is_ascii_char(#[trigger] spaced@[i]) by {
                assert(is_ascii_char(b@[i]));
            }
            lemma_words_ascii(spaced@);
        }
    }
    let mut caps: Vec<Vec<char>> = Vec::new();
    for i in 0..ws.len()
        invariant
            ws@.len() == wseq.len(),
            forall|k: int| 0 <= k < ws@.len() ==> #[trigger] ws@[k]@ == wseq[k],
            caps@.len() == i,
            forall|k: int| 0 <= k < i ==> #[trigger] caps@[k]@ == capitalized(wseq[k]),
            is_ascii_text(filename@) ==> forall|k: int| 0 <= k < wseq.len() ==> is_ascii_text(#[trigger] wseq[k]),
            is_ascii_text(filename@) ==> forall|k: int| 0 <= k < i ==> #[trigger] caps@[k]@ == ascii_capitalized(wseq[k]),
    {
        caps.push(capitalize(&ws[i]));
    }
    let sep = lit(" ");
    let joined = join_chars(&caps, &sep);
    assert(caps@.map_values(|p: Vec<char>| p@) =~= wseq.map_values(|w: Seq<char>| capitalized(w)));
    proof {
        if is_ascii_text(filename@) {
            assert(caps@.map_values(|p: Vec<char>| p@) =~= wseq.map_values(|w: Seq<char>| ascii_capitalized(w)));
        }
    }
    string_of(&joined)
}

/// Characters kept in a safe file name; everything else becomes `_`.
pub open spec fn slug_char(c: char) -> char {
    if unicode_alnum_of(c) || c == '-' || c == '_' {
        c
    } else {
        '_'
    }
}

/// The lower-cased, `_`-trimmed slug of a pipeline name.
pub open spec fn slug(name: Seq<char>) -> Seq<char> {
    unicode_lower_of(
        trim_end_char(trim_start_char(Seq::new(name.len(), |i: int| slug_char(name[i])), '_'), '_'),
    )
}

/// The file name under which a pipeline called `name` is saved, with
/// `timestamp` standing in when the name has no usable characters.
pub open spec fn safe_filename(name: Seq<char>, timestamp: u64) -> Seq<char> {
    if slug(name).len() == 0 {
        "pipeline_"@ + decimal(timestamp as nat) + ".yml"@
    } else {
        slug(name) + ".yml"@
    }
}

/// `slug_char` for an ASCII character.
pub open spec fn ascii_slug_char(c: char) -> char {
    if is_ascii_alnum(c) || c == '-' || c == '_' {
        c
    } else {
        '_'
    }
}

/// `slug` for an ASCII name.
pub open spec fn ascii_slug(name: Seq<char>) -> Seq<char> {
    ascii_lower(trim_end_char(trim_start_char(Seq::new(name.len(), |i: int| ascii_slug_char(name[i])), '_'), '_'))
}

/// `safe_filename` for an ASCII name.
pub open spec fn ascii_safe_filename(name: Seq<char>, timestamp: u64) -> Seq<char> {
    if ascii_slug(name).len() == 0 {
        "pipeline_"@ + decimal(timestamp as nat) + ".yml"@
    } else {
        ascii_slug(name) + ".yml"@
    }
}

/// A character that may stand anywhere in a file name stem: ASCII, and no
/// dot or path separator.
pub open spec fn plain_name_char(c: char) -> bool {
    is_ascii_char(c) && c != '.' && c != '/' && c != '\\'
}

pub open spec fn all_plain(s: Seq<char>) -> bool {
    forall|i: int| 0 <= i < s.len() ==> plain_name_char(#[trigger] s[i])
}

proof fn lemma_trim_start_keeps_plain(s: Seq<char>, c: char)
    requires
        all_plain(s),
    ensures
        all_plain(trim_start_char(s, c)),
    decreases s.len(),
{
    if s.len() > 0 && s[0] == c {
        assert forall|i: int| 0 <= i < s.drop_first().len() implies plain_name_char(
            #[trigger] s.drop_first()[i],
        ) by {
            assert(s.drop_first()[i] == s[i + 1]);
        }
        lemma_trim_start_keeps_plain(s.drop_first(), c);
    }
}

proof fn lemma_trim_end_keeps_plain(s: Seq<char>, c: char)
    requires
        all_plain(s),
    ensures
        all_plain(trim_end_char(s, c)),
    decreases s.len(),
{
    if s.len() > 0 && s.last() == c {
        assert forall|i: int| 0 <= i < s.drop_last().len() implies plain_name_char(
            #[trigger] s.drop_last()[i],
        ) by {
            assert(s.drop_last()[i] == s[i]);
        }
        lemma_trim_end_keeps_plain(s.drop_last(), c);
    }
}

proof fn lemma_ascii_lower_keeps_plain(s: Seq<char>)
    requires
        all_plain(s),
    ensures
        all_plain(ascii_lower(s)),
{
    assert forall|i: int| 0 <= i < ascii_lower(s).len() implies plain_name_char(
        #[trigger] ascii_lower(s)[i],
    ) by {
        assert(plain_name_char(s[i]));
    }
}

/// A non-empty stem of plain characters with `.yml` appended is a file name
/// that `validate_filename` accepts, when it fits the length limit.
proof fn lemma_plain_yml_name_accepted(x: Seq<char>)
    requires
        x.len() > 0,
        all_plain(x),
        utf8_len(x + ".yml"@) <= MAX_FILENAME_LENGTH,
    ensures
        filename_refusal(x + ".yml"@) is None,
{
    reveal_strlit(".yml");
    reveal_strlit("..");
    reveal_strlit("yml");
    reveal_strlit("yaml");
    let f = x + ".yml"@;
    let n = x.len() as int;
    assert(f.len() == n + 4);
    assert(f[n] == '.' && f[n + 1] == 'y' && f[n + 2] == 'm' && f[n + 3] == 'l');
    assert forall|k: int| 0 <= k < n implies #[trigger] f[k] == x[k] by {}
    assert forall|k: int| 0 <= k < f.len() && f[k] == '.' implies k == n by {
        if k < n {
            assert(plain_name_char(x[k]));
        }
    }
    if contains_seq(f, ".."@) {
        let i = choose|i: int| crate::text::occurs_at(f, ".."@, i);
        assert(f.subrange(i, i + 2)[0] == f[i]);
        assert(f.subrange(i, i + 2)[1] == f[i + 1]);
        assert(f[i] == '.' && f[i + 1] == '.');
        assert(false);
    }
    assert(!f.contains('/')) by {
        if f.contains('/') {
            let k = choose|k: int| 0 <= k < f.len() && f[k] == '/';
            if k < n {
                assert(plain_name_char(x[k]));
            }
        }
    }
    assert(!f.contains('\\')) by {
        if f.contains('\\') {
            let k = choose|k: int| 0 <= k < f.len() && f[k] == '\\';
            if k < n {
                assert(plain_name_char(x[k]));
            }
        }
    }
    assert(f != ".."@) by {
        assert(f.len() != (".."@).len());
    }
    reveal_with_fuel(crate::paths::last_index_of, 4);
    assert(f.drop_last().drop_last().drop_last().last() == '.');
    assert(f.drop_last().drop_last().drop_last().len() == n + 1);
    assert(crate::paths::last_index_of(f, '.') == Some(n));
    assert(f.skip(n + 1) =~= "yml"@);
    assert(eq_ignore_ascii_case("yml"@, "yml"@));
}

/// The safe file name for a saved pipeline, given the current time.
pub fn generate_safe_filename_at(name: &str, timestamp: u64) -> (r: String)
    ensures
        r@ == safe_filename(name@, timestamp),
        is_ascii_text(name@) ==> r@ == ascii_safe_filename(name@, timestamp),
        is_ascii_text(name@) && utf8_len(r@) <= MAX_FILENAME_LENGTH ==> filename_refusal(r@) is None,
{
    let n = chars_of(name);
    let mut mapped: Vec<char> = Vec::new();
    for i in 0..n.len()
        invariant
            n@ == name@,
            mapped@ == Seq::new(i as nat, |k: int| slug_char(n@[k])),
            is_ascii_text(name@) ==> mapped@ == Seq::new(i as nat, |k: int| ascii_slug_char(n@[k])),
            is_ascii_text(name@) ==> all_plain(mapped@),
    {
        let c = n[i];
        let keep = char_is_alphanumeric(c) || c == '-' || c == '_';
        let ghost before = mapped@;
        mapped.push(if keep { c } else { '_' });
        assert(mapped@ =~= Seq::new((i + 1) as nat, |k: int| slug_char(n@[k])));
        proof {
            if is_ascii_text(name@) {
                assert(is_ascii_char(n@[i as int]));
                assert(mapped@ =~= Seq::new((i + 1) as nat, |k: int| ascii_slug_char(n@[k])));
            }
        }
        proof {
            if is_ascii_text(name@) {
                assert(is_ascii_char(n@[i as int]));
                assert(plain_name_char(mapped@[i as int]));
                assert forall|k: int| 0 <= k < mapped@.len() implies plain_name_char(#[trigger] mapped@[k]) by {
                    if k < i {
                        assert(mapped@[k] == before[k]);
                    }
                }
            }
        }
    }
    assert(mapped@ =~= Seq::new(name@.len(), |k: int| slug_char(name@[k])));
    let trimmed = trim_matches_char(&mapped, '_');
    let trimmed_text = string_of(&trimmed);
    let safe = to_lowercase(trimmed_text.as_str());
    proof {
        if is_ascii_text(name@) {
            lemma_trim_start_keeps_plain(mapped@, '_');
            lemma_trim_end_keeps_plain(trim_start_char(mapped@, '_'), '_');
            assert(is_ascii_text(trimmed_text@)) by {
                assert forall|i: int| 0 <= i < trimmed_text@.len() implies is_ascii_char(
                    #[trigger] trimmed_text@[i],
                ) by {
                    assert(plain_name_char(trimmed@[i]));
                }
            }
            lemma_ascii_lower_keeps_plain(trimmed@);
            assert(mapped@ =~= Seq::new(name@.len(), |k: int| ascii_slug_char(name@[k])));
            assert(slug(name@) == ascii_slug(name@));
        }
    }
    let mut out: Vec<char> = Vec::new();
    if safe.as_str().unicode_len() == 0 {
        extend_str(&mut out, "pipeline_");
        let digits = decimal_chars(timestamp);
        extend_chars(&mut out, &digits);
        let ghost stem = out@;
        extend_str(&mut out, ".yml");
        proof {
            reveal_strlit("pipeline_");
            crate::text::lemma_decimal_nonempty_digits(timestamp as nat);
            assert(stem =~= "pipeline_"@ + decimal(timestamp as nat));
            assert forall|i: int| 0 <= i < stem.len() implies plain_name_char(#[trigger] stem[i]) by {
                if i >= 9 {
                    assert(stem[i] == decimal(timestamp as nat)[i - 9]);
                    assert(crate::text::is_ascii_digit(decimal(timestamp as nat)[i - 9]));
                }
            }
            if utf8_len(out@) <= MAX_FILENAME_LENGTH {
                lemma_plain_yml_name_accepted(stem);
            }
        }
    } else {
        extend_str(&mut out, safe.as_str());
        let ghost stem = out@;
        extend_str(&mut out, ".yml");
        proof {
            if is_ascii_text(name@) && utf8_len(out@) <= MAX_FILENAME_LENGTH {
                lemma_plain_yml_name_accepted(stem);
            }
        }
    }
    string_of(&out)
}

/// Seconds since the Unix epoch, or 0 if the clock reads earlier.
///
/// Trusted: reads `SystemTime::now()`; nothing is stated of the value.
#[verifier::external_body]
fn unix_time_secs() -> u64 {
    std::time::SystemTime::now().duration_since(std::time::UNIX_EPOCH).map_or(0, |d| d.as_secs())
}

/// The safe file name for a saved pipeline; the current time names
/// pipelines whose name has no usable characters.
pub fn generate_safe_filename(name: &str) -> (r: String)
    ensures
        exists|t: u64| r@ == safe_filename(name@, t),
        is_ascii_text(name@) ==> exists|t: u64| r@ == ascii_safe_filename(name@, t),
        is_ascii_text(name@) && utf8_len(r@) <= MAX_FILENAME_LENGTH ==> filename_refusal(r@) is None,
{
    let t = unix_time_secs();
    generate_safe_filename_at(name, t)
}

/// The mode's name in listings.
pub fn mode_to_string(mode: EngineMode) -> (r: String)
    ensures
        r@ == match mode {
            EngineMode::OneShot => "oneshot"@,
            EngineMode::Dynamic => "dynamic"@,
        },
{
    match mode {
        EngineMode::OneShot => "oneshot".to_owned(),
        EngineMode::Dynamic => "dynamic".to_owned(),
    }
}

/// Index of the first occurrence of `c`.
pub open spec fn first_index_of(s: Seq<char>, c: char) -> Option<int> {
    if s.contains(c) {
        Some(choose|i: int| 0 <= i < s.len() && s[i] == c && forall|j: int| 0 <= j < i ==> s[j] != c)
    } else {
        None
    }
}

/// A sample id split at its first `/` into directory and file base
/// (`str::split_once`); ids without `/` have no directory.
pub open spec fn id_parts(id: Seq<char>) -> (Option<Seq<char>>, Seq<char>) {
    match first_index_of(id, '/') {
        Some(i) => (Some(id.take(i)), id.skip(i + 1)),
        None => (None, id),
    }
}

fn find_first(s: &Vec<char>, c: char) -> (r: Option<usize>)
    ensures
        match r {
            Some(i) => i < s@.len() && s@[i as int] == c && forall|j: int| 0 <= j < i ==> s@[j] != c,
            None => !s@.contains(c),
        },
{
    for i in 0..s.len()
        invariant
            forall|j: int| 0 <= j < i ==> s@[j] != c,
    {
        if s[i] == c {
            return Some(i);
        }
    }
    None
}

proof fn lemma_first_index(s: Seq<char>, c: char, i: int)
    requires
        0 <= i < s.len(),
        s[i] == c,
        forall|j: int| 0 <= j < i ==> s[j] != c,
    ensures
        first_index_of(s, c) == Some(i),
{
    let k = choose|k: int| 0 <= k < s.len() && s[k] == c && forall|j: int| 0 <= j < k ==> s[j] != c;
    assert(s.contains(c));
    if k < i {
    } else if k > i {
        assert(s[i] != c);
    }
}

/// Splits a sample id into its directory (if any) and file base.
pub fn split_sample_id(id: &str) -> (r: (Option<String>, String))
    ensures
        opt_chars(r.0) == id_parts(id@).0,
        r.1@ == id_parts(id@).1,
{
    let v = chars_of(id);
    match find_first(&v, '/') {
        Some(i) => {
            proof {
                lemma_first_index(v@, '/', i as int);
            }
            let pre = take_chars(&v, i);
            let post = skip_chars(&v, i + 1);
            (Some(string_of(&pre)), string_of(&post))
        },
        None => (None, string_of(&v)),
    }
}

/// A directory of samples and whether its samples ship with the server.
pub open spec fn sample_dirs(hint: Option<Seq<char>>) -> Option<Seq<(Seq<char>, bool)>> {
    match hint {
        None => Some(
            seq![("oneshot"@, true), ("dynamic"@, true), ("demo"@, true), ("user"@, false)],
        ),
        Some(h) => if h == "oneshot"@ {
            Some(seq![("oneshot"@, true)])
        } else if h == "dynamic"@ {
            Some(seq![("dynamic"@, true)])
        } else if h == "demo"@ {
            Some(seq![("demo"@, true)])
        } else if h == "user"@ {
            Some(seq![("user"@, false)])
        } else {
            None
        },
    }
}

/// Where a sample lookup searches: the file base of the id, and the
/// directories in order. Refused when the base is empty or could leave its
/// directory, and `NotFound` for an unknown directory prefix.
pub open spec fn lookup_plan(id: Seq<char>) -> Result<(Seq<char>, Seq<(Seq<char>, bool)>), int> {
    let (hint, base) = id_parts(id);
    if base.len() == 0 || contains_seq(base, ".."@) || base.contains('/') || base.contains('\\') {
        Err(0)
    } else {
        match sample_dirs(hint) {
            Some(dirs) => Ok((base, dirs)),
            None => Err(1),
        }
    }
}

pub open spec fn dir_texts(v: Seq<(String, bool)>) -> Seq<(Seq<char>, bool)> {
    v.map_values(|p: (String, bool)| (p.0@, p.1))
}

fn dirs_of(names: &[&str], system: &[bool]) -> (r: Vec<(String, bool)>)
    requires
        names@.len() == system@.len(),
    ensures
        dir_texts(r@) == Seq::new(names@.len(), |i: int| (names@[i]@, system@[i])),
{
    let mut r: Vec<(String, bool)> = Vec::new();
    for i in 0..names.len()
        invariant
            names@.len() == system@.len(),
            r@.len() == i,
            dir_texts(r@) == Seq::new(i as nat, |k: int| (names@[k]@, system@[k])),
    {
        let ghost before = r@;
        let name: String = names[i].to_owned();
        let flag: bool = system[i];
        r.push((name, flag));
        assert(r@ == before.push((name, flag)));
        assert forall|k: int| 0 <= k < i + 1 implies #[trigger] dir_texts(r@)[k] == (
            names@[k]@,
            system@[k],
        ) by {
            if k < i {
                assert(r@[k] == before[k]);
                assert(dir_texts(before)[k] == (names@[k]@, system@[k]));
            } else {
                assert(r@[k] == (name, flag));
                assert(name@ == names@[k]@);
                assert(flag == system@[k]);
            }
        }
        assert(dir_texts(r@) =~= Seq::new((i + 1) as nat, |k: int| (names@[k]@, system@[k])));
    }
    r
}

/// The file base and directories that a lookup of sample `id` searches.
pub fn sample_lookup_plan(id: &str) -> (r: Result<(String, Vec<(String, bool)>), SamplesError>)
    ensures
        match lookup_plan(id@) {
            Ok((base, dirs)) => r matches Ok((b, d)) && b@ == base && dir_texts(d@) == dirs,
            Err(code) => if code == 0 {
                r matches Err(SamplesError::InvalidFilename(m)) && m@
                    == "Invalid characters in sample ID"@
            } else {
                r matches Err(SamplesError::NotFound)
            },
        },
{
    let (hint, base) = split_sample_id(id);
    let b = chars_of(base.as_str());
    let dotdot = lit("..");
    if b.len() == 0 || contains(&b, &dotdot) || contains_char(&b, '/') || contains_char(&b, '\\') {
        return Err(SamplesError::InvalidFilename("Invalid characters in sample ID".to_owned()));
    }
    let dirs = match &hint {
        None => {
            let d = dirs_of(&["oneshot", "dynamic", "demo", "user"], &[true, true, true, false]);
            assert(dir_texts(d@) =~= seq![
                ("oneshot"@, true),
                ("dynamic"@, true),
                ("demo"@, true),
                ("user"@, false),
            ]);
            d
        },
        Some(h) => {
            let hv = chars_of(h.as_str());
            if chars_equal(&hv, &lit("oneshot")) {
                let d = dirs_of(&["oneshot"], &[true]);
                assert(dir_texts(d@) =~= seq![("oneshot"@, true)]);
                d
            } else if chars_equal(&hv, &lit("dynamic")) {
                let d = dirs_of(&["dynamic"], &[true]);
                assert(dir_texts(d@) =~= seq![("dynamic"@, true)]);
                d
            } else if chars_equal(&hv, &lit("demo")) {
                let d = dirs_of(&["demo"], &[true]);
                assert(dir_texts(d@) =~= seq![("demo"@, true)]);
                d
            } else if chars_equal(&hv, &lit("user")) {
                let d = dirs_of(&["user"], &[false]);
                assert(dir_texts(d@) =~= seq![("user"@, false)]);
                d
            } else {
                return Err(SamplesError::NotFound);
            }
        },
    };
    Ok((base, dirs))
}

/// The file base a deletion of sample `id` removes: only user samples may
/// be deleted (ids without a directory are user samples).
pub open spec fn delete_plan(id: Seq<char>) -> Option<Seq<char>> {
    let (hint, base) = id_parts(id);
    match hint {
        None => Some(base),
        Some(h) => if h == "user"@ {
            Some(base)
        } else {
            None
        },
    }
}

/// The user file base that deleting sample `id` targets, or `Forbidden`.
pub fn sample_delete_target(id: &str) -> (r: Result<String, SamplesError>)
    ensures
        match delete_plan(id@) {
            Some(base) => r matches Ok(b) && b@ == base,
            None => r matches Err(SamplesError::Forbidden),
        },
{
    let (hint, base) = split_sample_id(id);
    match &hint {
        None => Ok(base),
        Some(h) => {
            let hv = chars_of(h.as_str());
            if chars_equal(&hv, &lit("user")) {
                Ok(base)
            } else {
                Err(SamplesError::Forbidden)
            }
        },
    }
}

/// The file in the user directory that deleting sample `id` removes, given
/// whether `<base>.yml` and `<base>.yaml` exist there: the `.yml` file
/// first, then the `.yaml` one; `NotFound` when neither exists, and
/// `Forbidden` for a sample outside the user directory.
pub fn sample_delete_file(id: &str, yml_exists: bool, yaml_exists: bool) -> (r: Result<String, SamplesError>)
    ensures
        match delete_plan(id@) {
            None => r matches Err(SamplesError::Forbidden),
            Some(base) => if yml_exists {
                r matches Ok(f) && f@ == base + ".yml"@
            } else if yaml_exists {
                r matches Ok(f) && f@ == base + ".yaml"@
            } else {
                r matches Err(SamplesError::NotFound)
            },
        },
{
    let base = match sample_delete_target(id) {
        Ok(b) => b,
        Err(e) => return Err(e),
    };
    let mut m = chars_of(base.as_str());
    if yml_exists {
        extend_str(&mut m, ".yml");
    } else if yaml_exists {
        extend_str(&mut m, ".yaml");
    } else {
        return Err(SamplesError::NotFound);
    }
    Ok(string_of(&m))
}

/// The file name that request handlers validate for sample `id`: its file
/// base with `.yml`.
pub fn request_filename(id: &str) -> (r: String)
    ensures
        r@ == id_parts(id@).1 + ".yml"@,
{
    let (_hint, base) = split_sample_id(id);
    let mut m = chars_of(base.as_str());
    extend_str(&mut m, ".yml");
    string_of(&m)
}

/// The id of a sample file: its directory and its name without the YAML
/// extension.
pub fn sample_id(subdir: &str, filename: &str) -> (r: String)
    ensures
        r@ == subdir@ + "/"@ + trim_end_str(trim_end_str(filename@, ".yml"@), ".yaml"@),
{
    let f = chars_of(filename);
    let a = trim_end_matches_str(&f, &lit(".yml"));
    let b = trim_end_matches_str(&a, &lit(".yaml"));
    let mut m = chars_of(subdir);
    extend_str(&mut m, "/");
    extend_chars(&mut m, &b);
    string_of(&m)
}

/// Whether a listing shows sample `id` to a role: its `.yml` or `.yaml`
/// path is allowed.
pub fn sample_listed(perms: &Permissions, id: &str) -> (r: bool)
    ensures
        r == (allowlist_admits(texts(perms.allowed_samples@), id@ + ".yml"@) || allowlist_admits(
            texts(perms.allowed_samples@),
            id@ + ".yaml"@,
        )),
{
    let mut a = chars_of(id);
    extend_str(&mut a, ".yml");
    let path_yml = string_of(&a);
    let mut b = chars_of(id);
    extend_str(&mut b, ".yaml");
    let path_yaml = string_of(&b);
    perms.is_sample_allowed(path_yml.as_str()) || perms.is_sample_allowed(path_yaml.as_str())
}

/// A sample is a fragment when its name is the one derived from its file
/// name and it has no description.
pub fn is_fragment(name: &str, filename: &str, description: &str) -> (r: bool)
    ensures
        r == (name@ == display_name(filename@) && description@.len() == 0),
{
    let derived = filename_to_name(filename);
    let n = chars_of(name);
    let d = chars_of(derived.as_str());
    chars_equal(&n, &d) && description.unicode_len() == 0
}

pub open spec fn error_message(e: &SamplesError) -> Seq<char> {
    match e {
        SamplesError::NotFound => "Sample not found"@,
        SamplesError::InvalidFilename(msg) => "Invalid filename: "@ + msg@,
        SamplesError::FileTooLarge => "File exceeds size limit"@,
        SamplesError::AlreadyExists => "Sample already exists"@,
        SamplesError::Forbidden => "Access forbidden"@,
        SamplesError::Io(_) => "IO error: "@,
    }
}

impl SamplesError {
    /// The error's message.
    pub fn to_string(&self) -> (r: String)
        ensures
            match self {
                SamplesError::Io(_) => r@.len() >= error_message(self).len() && r@.take(
                    error_message(self).len() as int,
                ) == error_message(self),
                _ => r@ == error_message(self),
            },
    {
        let mut m: Vec<char> = Vec::new();
        match self {
            SamplesError::NotFound => extend_str(&mut m, "Sample not found"),
            SamplesError::InvalidFilename(msg) => {
                extend_str(&mut m, "Invalid filename: ");
                extend_str(&mut m, msg.as_str());
            },
            SamplesError::FileTooLarge => extend_str(&mut m, "File exceeds size limit"),
            SamplesError::AlreadyExists => extend_str(&mut m, "Sample already exists"),
            SamplesError::Forbidden => extend_str(&mut m, "Access forbidden"),
            SamplesError::Io(e) => {
                extend_str(&mut m, "IO error: ");
                let ghost head = m@;
                let t = io_error_text(e);
                extend_str(&mut m, t.as_str());
                assert(m@.take(head.len() as int) =~= head);
            },
        }
        string_of(&m)
    }

    /// The HTTP status that the error is answered with.
    pub fn status_code(&self) -> (r: u16)
        ensures
            r == match self {
                SamplesError::NotFound => 404u16,
                SamplesError::InvalidFilename(_) => 400u16,
                SamplesError::FileTooLarge => 413u16,
                SamplesError::AlreadyExists => 409u16,
                SamplesError::Forbidden => 403u16,
                SamplesError::Io(_) => 500u16,
            },
    {
        match self {
            SamplesError::NotFound => 404,
            SamplesError::InvalidFilename(_) => 400,
            SamplesError::FileTooLarge => 413,
            SamplesError::AlreadyExists => 409,
            SamplesError::Forbidden => 403,
            SamplesError::Io(_) => 500,
        }
    }
}

#[verifier::external_type_specification]
#[verifier::external_body]
pub struct ExJsonValue(serde_json::Value);

/// What a JSON value holds, as plain values: numbers by the decimal text
/// serde_json writes for them, objects as maps from key to value (the
/// object map of serde_json, without `preserve_order`, is keyed and ordered
/// by key alone).
pub enum JsonModel {
    Null,
    Bool(bool),
    Number(Seq<char>),
    Text(Seq<char>),
    Array(Seq<JsonModel>),
    Object(Map<Seq<char>, JsonModel>),
}

/// The name for what a `serde_json::Value` holds.
pub uninterp spec fn json_model_of(v: serde_json::Value) -> JsonModel;

/// The name for what `serde_saphyr::from_str` makes of a text as a JSON
/// value: the value, or `None` when the text does not parse.
pub uninterp spec fn yaml_model_of(yaml: Seq<char>) -> Option<JsonModel>;

/// The name for what `serde_saphyr::to_string` writes for a JSON value:
/// the YAML text, or the text of its error.
pub uninterp spec fn yaml_text_of(m: JsonModel) -> Result<Seq<char>, Seq<char>>;

/// Whether a text parses as a YAML document.
pub open spec fn yaml_parses(yaml: Seq<char>) -> bool {
    yaml_model_of(yaml) is Some
}

/// `m` with the text `text` under `key` when it is an object; any other
/// value is left as it is.
pub open spec fn json_with_text(m: JsonModel, key: Seq<char>, text: Seq<char>) -> JsonModel {
    match m {
        JsonModel::Object(o) => JsonModel::Object(o.insert(key, JsonModel::Text(text))),
        _ => m,
    }
}

/// The texts of a result.
pub open spec fn result_texts(r: Result<String, String>) -> Result<Seq<char>, Seq<char>> {
    match r {
        Ok(s) => Ok(s@),
        Err(e) => Err(e@),
    }
}

/// A sample document with its `name` and `description` set, serialised
/// again; `None` when the text does not parse as YAML.
pub open spec fn rewritten_yaml(yaml: Seq<char>, name: Seq<char>, description: Seq<char>) -> Option<
    Result<Seq<char>, Seq<char>>,
> {
    match yaml_model_of(yaml) {
        None => None,
        Some(m) => Some(yaml_text_of(json_with_text(json_with_text(m, "name"@, name), "description"@, description))),
    }
}

/// Parses a YAML document into a JSON value.
///
/// Trusted: calls `serde_saphyr::from_str::<serde_json::Value>`, which
/// depends on the text alone; the contract names the value it gives (the
/// parse error is dropped).
#[verifier::external_body]
fn yaml_to_json(yaml: &str) -> (r: Option<serde_json::Value>)
    ensures
        match r {
            Some(v) => yaml_model_of(yaml@) == Some(json_model_of(v)),
            None => yaml_model_of(yaml@) is None,
        },
{
    serde_saphyr::from_str::<serde_json::Value>(yaml).ok()
}

/// Sets a string field of a JSON object; other values are left alone.
///
/// Trusted: calls `serde_json::Value::as_object_mut`, which gives the map
/// exactly when the value is an object, and `Map::insert`, which puts the
/// string under the key, replacing any value there and leaving the other
/// keys as they were.
#[verifier::external_body]
fn json_set_text(value: &mut serde_json::Value, key: &str, text: &str)
    ensures
        json_model_of(*final(value)) == json_with_text(json_model_of(*old(value)), key@, text@),
{
    if let Some(obj) = value.as_object_mut() {
        obj.insert(key.to_owned(), serde_json::Value::String(text.to_owned()));
    }
}

/// Serialises a JSON value as YAML.
///
/// Trusted: calls `serde_saphyr::to_string`, which depends on the value
/// alone; the contract names its outcome (the error as its message).
#[verifier::external_body]
fn json_to_yaml(value: &serde_json::Value) -> (r: Result<String, String>)
    ensures
        result_texts(r) == yaml_text_of(json_model_of(*value)),
{
    serde_saphyr::to_string(value).map_err(|e| e.to_string())
}

/// A sample's YAML with its `name` and `description` set: `None` when the
/// text does not parse as YAML, else the re-serialised document or the
/// serialiser's error.
pub fn rewrite_yaml_metadata(yaml: &str, name: &str, description: &str) -> (r: Option<Result<String, String>>)
    ensures
        match r {
            None => rewritten_yaml(yaml@, name@, description@) is None,
            Some(x) => rewritten_yaml(yaml@, name@, description@) == Some(result_texts(x)),
        },
{
    match yaml_to_json(yaml) {
        None => None,
        Some(mut value) => {
            json_set_text(&mut value, "name", name);
            json_set_text(&mut value, "description", description);
            Some(json_to_yaml(&value))
        },
    }
}

/// The YAML stored for a saved sample. A fragment is stored as sent.
/// Otherwise the name and description are set in the document
/// (`rewritten`: the document re-serialised with them, or the serialiser's
/// error; `None` when the text did not parse as YAML), or, for text that
/// does not parse, prepended as comments.
pub fn yaml_to_store(
    yaml: &str,
    name: &str,
    description: &str,
    is_fragment: bool,
    rewritten: Option<Result<String, String>>,
) -> (r: Result<String, String>)
    ensures
        is_fragment ==> (r matches Ok(s) && s@ == yaml@),
        !is_fragment && rewritten is None ==> (r matches Ok(s) && s@ == "# name: "@ + name@ + "\n# description: "@
            + description@ + "\n"@ + yaml@),
        !is_fragment ==> (rewritten matches Some(Ok(t)) ==> (r matches Ok(s) && s@ == t@)),
        !is_fragment ==> (rewritten matches Some(Err(e)) ==> (r matches Err(m) && m@ == e@)),
{
    if is_fragment {
        return Ok(yaml.to_owned());
    }
    match rewritten {
        None => {
            let mut m = chars_of("# name: ");
            extend_str(&mut m, name);
            extend_str(&mut m, "\n# description: ");
            extend_str(&mut m, description);
            extend_str(&mut m, "\n");
            extend_str(&mut m, yaml);
            Ok(string_of(&m))
        },
        Some(x) => x,
    }
}

/// The YAML written for a saved sample: a fragment as sent; otherwise the
/// document with its name and description set, or, when the text does not
/// parse as YAML, with them prepended as comments.
pub fn stored_sample_yaml(yaml: &str, name: &str, description: &str, is_fragment: bool) -> (r: Result<
    String,
    String,
>)
    ensures
        is_fragment ==> (r matches Ok(s) && s@ == yaml@),
        !is_fragment ==> (rewritten_yaml(yaml@, name@, description@) matches Some(t) ==> result_texts(r) == t),
        !is_fragment && !yaml_parses(yaml@) ==> (r matches Ok(s) && s@ == "# name: "@ + name@
            + "\n# description: "@ + description@ + "\n"@ + yaml@),
{
    let rewritten = if is_fragment {
        None
    } else {
        rewrite_yaml_metadata(yaml, name, description)
    };
    yaml_to_store(yaml, name, description, is_fragment, rewritten)
}

} // verus!
