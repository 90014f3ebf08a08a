//! Shell commands that run a oneshot pipeline against the server, either
//! with `curl` or with the `streamkit-client` CLI.
use vstd::prelude::*;

use crate::text::{
    chars_equal, chars_of, contains, contains_seq, decimal, decimal_chars, extend_chars,
    extend_str, string_of,
};

verus! {

/// An input file of a oneshot run: the form field it feeds and its path.
#[derive(Debug)]
pub struct OneshotInput {
    pub field: String,
    pub path: String,
}

/// Arguments of the command-generating tool.
#[derive(Debug)]
pub struct GenerateOneshotCommandArgs {
    pub yaml: String,
    pub inputs: Vec<OneshotInput>,
    pub output: String,
    pub server_url: Option<String>,
    pub format: Option<String>,
}

/// Single quotes closed, escaped and reopened: `'` becomes `'\''`.
pub open spec fn quote_body(s: Seq<char>) -> Seq<char>
    decreases s.len(),
{
    if s.len() == 0 {
        Seq::<char>::empty()
    } else if s.last() == '\'' {
        quote_body(s.drop_last()) + "'\\''"@
    } else {
        quote_body(s.drop_last()).push(s.last())
    }
}

/// A text quoted for a POSIX shell.
pub open spec fn quoted(s: Seq<char>) -> Seq<char> {
    "'"@ + quote_body(s) + "'"@
}

fn quote_into(out: &mut Vec<char>, s: &str)
    ensures
        final(out)@ == old(out)@ + quoted(s@),
{
    let v = chars_of(s);
    let ghost start = out@;
    extend_str(out, "'");
    let ghost head = out@;
    for i in 0..v.len()
        invariant
            out@ == head + quote_body(v@.take(i as int)),
            head == start + "'"@,
    {
        assert(v@.take(i + 1).drop_last() =~= v@.take(i as int));
        assert(v@.take(i + 1).last() == v@[i as int]);
        if v[i] == '\'' {
            extend_str(out, "'\\''");
            assert(out@ =~= head + quote_body(v@.take(i + 1)));
        } else {
            out.push(v[i]);
            assert(out@ =~= head + quote_body(v@.take(i + 1)));
        }
    }
    assert(v@.take(v.len() as int) =~= v@);
    extend_str(out, "'");
    assert(out@ =~= start + quoted(s@));
}

/// Shell-quotes a value by wrapping it in single quotes and escaping any
/// embedded single quotes.
pub fn shell_quote(s: &str) -> (r: String)
    ensures
        r@ == quoted(s@),
{
    let mut out: Vec<char> = Vec::new();
    quote_into(&mut out, s);
    assert(out@ =~= quoted(s@));
    string_of(&out)
}

pub open spec fn heredoc_base() -> Seq<char> {
    "PIPELINE_EOF"@
}

pub open spec fn heredoc_candidate(i: u32) -> Seq<char> {
    "PIPELINE_EOF_"@ + decimal(i as nat)
}

/// Some delimiter is free: the base one, or a numbered one within `u32`.
pub open spec fn heredoc_available(content: Seq<char>) -> bool {
    !contains_seq(content, heredoc_base()) || exists|i: u32| !contains_seq(
        content,
        #[trigger] heredoc_candidate(i),
    )
}

/// The heredoc delimiter for `content`: `PIPELINE_EOF` if it does not occur
/// in the content, else the first numbered `PIPELINE_EOF_<i>` that does not.
pub open spec fn heredoc_delimiter(content: Seq<char>) -> Seq<char> {
    if !contains_seq(content, heredoc_base()) {
        heredoc_base()
    } else {
        heredoc_candidate(
            choose|i: u32|
                !contains_seq(content, #[trigger] heredoc_candidate(i)) && forall|j: u32|
                    j < i ==> contains_seq(content, #[trigger] heredoc_candidate(j)),
        )
    }
}

proof fn lemma_least_free(content: Seq<char>, i: u32)
    requires
        !contains_seq(content, heredoc_candidate(i)),
        forall|j: u32| j < i ==> contains_seq(content, #[trigger] heredoc_candidate(j)),
    ensures
        contains_seq(content, heredoc_base()) ==> heredoc_delimiter(content) == heredoc_candidate(i),
{
    let k = choose|k: u32|
        !contains_seq(content, #[trigger] heredoc_candidate(k)) && forall|j: u32|
            j < k ==> contains_seq(content, #[trigger] heredoc_candidate(j));
    if k < i {
        assert(contains_seq(content, heredoc_candidate(k)));
    } else if k > i {
        assert(contains_seq(content, heredoc_candidate(i)));
    }
}

/// Whether some heredoc delimiter is free for `content`, trying the base
/// one and then the numbered ones in turn.
pub fn heredoc_free(content: &str) -> (r: bool)
    ensures
        r == heredoc_available(content@),
{
    let c = chars_of(content);
    let base = chars_of("PIPELINE_EOF");
    if !contains(&c, &base) {
        return true;
    }
    let mut i: u32 = 0;
    loop
        invariant
            c@ == content@,
            contains_seq(content@, heredoc_base()),
            forall|j: u32| j < i ==> contains_seq(content@, #[trigger] heredoc_candidate(j)),
        decreases u32::MAX - i,
    {
        let mut cand = chars_of("PIPELINE_EOF_");
        let digits = decimal_chars(i as u64);
        extend_chars(&mut cand, &digits);
        if !contains(&c, &cand) {
            assert(!contains_seq(content@, heredoc_candidate(i)));
            return true;
        }
        if i == u32::MAX {
            assert forall|j: u32| !contains_seq(content@, #[trigger] heredoc_candidate(j)) implies false by {
                if j < i {
                } else {
                    assert(j == i);
                }
            }
            return false;
        }
        i = i + 1;
    }
}

/// Returns a heredoc delimiter that does not appear in `content`.
pub fn unique_heredoc_delimiter(content: &str) -> (r: String)
    requires
        heredoc_available(content@),
    ensures
        r@ == heredoc_delimiter(content@),
        !contains_seq(content@, r@),
{
    let c = chars_of(content);
    let base = chars_of("PIPELINE_EOF");
    if !contains(&c, &base) {
        return string_of(&base);
    }
    let ghost w = choose|i: u32| !contains_seq(content@, #[trigger] heredoc_candidate(i));
    let mut i: u32 = 0;
    loop
        invariant
            c@ == content@,
            !contains_seq(content@, heredoc_candidate(w)),
            contains_seq(content@, heredoc_base()),
            i <= w,
            forall|j: u32| j < i ==> contains_seq(content@, #[trigger] heredoc_candidate(j)),
        decreases w - i,
    {
        let mut cand = chars_of("PIPELINE_EOF_");
        let digits = decimal_chars(i as u64);
        extend_chars(&mut cand, &digits);
        if !contains(&c, &cand) {
            proof {
                lemma_least_free(content@, i);
            }
            return string_of(&cand);
        }
        assert(i != w);
        i = i + 1;
    }
}

/// The lines that store the pipeline in `$PIPELINE`, ending in a blank line.
pub open spec fn pipeline_preamble(tool_comment: Seq<char>, yaml: Seq<char>) -> Seq<char> {
    let delim = heredoc_delimiter(yaml);
    tool_comment + "\n"@ + "PIPELINE=$(mktemp /tmp/pipeline-XXXXXX.yaml)\n"@
        + "cat > \"$PIPELINE\" <<'"@ + delim + "'\n"@ + yaml + "\n"@ + delim + "\n"@ + "\n"@
}

pub open spec fn curl_fields(inputs: Seq<OneshotInput>) -> Seq<char>
    decreases inputs.len(),
{
    if inputs.len() == 0 {
        Seq::<char>::empty()
    } else {
        curl_fields(inputs.drop_last()) + " \\\n  -F "@ + quoted(
            inputs.last().field@ + "=@"@ + inputs.last().path@,
        )
    }
}

/// The `curl` command for a oneshot run.
pub open spec fn curl_command(
    yaml: Seq<char>,
    inputs: Seq<OneshotInput>,
    output: Seq<char>,
    server_url: Seq<char>,
) -> Seq<char> {
    pipeline_preamble("# Save pipeline YAML to a temporary file, then run curl."@, yaml)
        + "curl -X POST "@ + quoted(server_url + "/api/v1/process"@)
        + " \\\n  -F 'config=<'\"$PIPELINE\"''"@ + curl_fields(inputs) + " \\\n  -o "@ + quoted(
        output,
    )
}

#[verifier::rlimit(40)]
fn push_preamble(out: &mut Vec<char>, tool_comment: &str, yaml: &str)
    requires
        heredoc_available(yaml@),
    ensures
        final(out)@ == old(out)@ + pipeline_preamble(tool_comment@, yaml@),
{
    let delim = unique_heredoc_delimiter(yaml);
    let ghost start = out@;
    extend_str(out, tool_comment);
    extend_str(out, "\n");
    extend_str(out, "PIPELINE=$(mktemp /tmp/pipeline-XXXXXX.yaml)\n");
    extend_str(out, "cat > \"$PIPELINE\" <<'");
    extend_str(out, delim.as_str());
    extend_str(out, "'\n");
    extend_str(out, yaml);
    extend_str(out, "\n");
    extend_str(out, delim.as_str());
    extend_str(out, "\n");
    extend_str(out, "\n");
    assert(out@ =~= start + pipeline_preamble(tool_comment@, yaml@));
}

/// Builds the `curl` command that posts the pipeline and its inputs to
/// `server_url` and saves the response to `output`.
pub fn generate_curl_command(
    yaml: &str,
    inputs: &Vec<OneshotInput>,
    output: &str,
    server_url: &str,
) -> (r: String)
    requires
        heredoc_available(yaml@),
    ensures
        r@ == curl_command(yaml@, inputs@, output@, server_url@),
{
    let mut out: Vec<char> = Vec::new();
    push_preamble(&mut out, "# Save pipeline YAML to a temporary file, then run curl.", yaml);
    extend_str(&mut out, "curl -X POST ");
    let mut url = chars_of(server_url);
    extend_str(&mut url, "/api/v1/process");
    let url_text = string_of(&url);
    quote_into(&mut out, url_text.as_str());
    extend_str(&mut out, " \\\n  -F 'config=<'\"$PIPELINE\"''");
    let ghost head = out@;
    for i in 0..inputs.len()
        invariant
            out@ == head + curl_fields(inputs@.take(i as int)),
    {
        assert(inputs@.take(i + 1).drop_last() =~= inputs@.take(i as int));
        assert(inputs@.take(i + 1).last() == inputs@[i as int]);
        extend_str(&mut out, " \\\n  -F ");
        let mut field = chars_of(inputs[i].field.as_str());
        extend_str(&mut field, "=@");
        extend_str(&mut field, inputs[i].path.as_str());
        let field_text = string_of(&field);
        quote_into(&mut out, field_text.as_str());
        assert(out@ =~= head + curl_fields(inputs@.take(i + 1)));
    }
    assert(inputs@.take(inputs.len() as int) =~= inputs@);
    extend_str(&mut out, " \\\n  -o ");
    quote_into(&mut out, output);
    assert(out@ =~= curl_command(yaml@, inputs@, output@, server_url@));
    string_of(&out)
}

pub open spec fn is_media(i: OneshotInput) -> bool {
    i.field@ == "media"@
}

/// `--input field=path` flags, for every input or only the non-`media` ones.
pub open spec fn cli_flags(inputs: Seq<OneshotInput>, skip_media: bool) -> Seq<char>
    decreases inputs.len(),
{
    if inputs.len() == 0 {
        Seq::<char>::empty()
    } else {
        let before = cli_flags(inputs.drop_last(), skip_media);
        let last = inputs.last();
        if skip_media && is_media(last) {
            before
        } else {
            before + " --input "@ + quoted(last.field@ + "="@ + last.path@)
        }
    }
}

pub open spec fn first_media(inputs: Seq<OneshotInput>) -> Option<int> {
    if exists|i: int| 0 <= i < inputs.len() && is_media(inputs[i]) {
        Some(
            choose|i: int|
                0 <= i < inputs.len() && is_media(inputs[i]) && forall|j: int|
                    0 <= j < i ==> !is_media(#[trigger] inputs[j]),
        )
    } else {
        None
    }
}

/// The `streamkit-client` command for a oneshot run: the first `media`
/// input (or else the first input) is positional; the other inputs go in
/// `--input` flags.
pub open spec fn cli_command(
    yaml: Seq<char>,
    inputs: Seq<OneshotInput>,
    output: Seq<char>,
    server_url: Seq<char>,
) -> Seq<char> {
    let positional = match first_media(inputs) {
        Some(i) => quoted(inputs[i].path@),
        None => if inputs.len() > 0 {
            quoted(inputs[0].path@)
        } else {
            "<INPUT_FILE>"@
        },
    };
    pipeline_preamble("# Save pipeline YAML to a temporary file, then run the CLI."@, yaml)
        + "streamkit-client oneshot \"$PIPELINE\" "@ + positional + " "@ + quoted(output)
        + cli_flags(inputs, first_media(inputs) is Some) + " --server "@ + quoted(server_url)
}

proof fn lemma_first_media(inputs: Seq<OneshotInput>, i: int)
    requires
        0 <= i < inputs.len(),
        is_media(inputs[i]),
        forall|j: int| 0 <= j < i ==> !is_media(#[trigger] inputs[j]),
    ensures
        first_media(inputs) == Some(i),
{
    let k = choose|k: int|
        0 <= k < inputs.len() && is_media(inputs[k]) && forall|j: int|
            0 <= j < k ==> !is_media(#[trigger] inputs[j]);
    if k < i {
        assert(!is_media(inputs[k]));
    } else if k > i {
        assert(!is_media(inputs[i]));
    }
}

/// Builds the `streamkit-client oneshot` command for the pipeline.
pub fn generate_skit_cli_command(
    yaml: &str,
    inputs: &Vec<OneshotInput>,
    output: &str,
    server_url: &str,
) -> (r: String)
    requires
        heredoc_available(yaml@),
    ensures
        r@ == cli_command(yaml@, inputs@, output@, server_url@),
{
    let mut out: Vec<char> = Vec::new();
    push_preamble(&mut out, "# Save pipeline YAML to a temporary file, then run the CLI.", yaml);
    let media = chars_of("media");
    let mut primary: Option<usize> = None;
    let mut k: usize = 0;
    while k < inputs.len()
        invariant
            k <= inputs@.len(),
            media@ == "media"@,
            primary is None ==> forall|j: int| 0 <= j < k ==> !is_media(#[trigger] inputs@[j]),
            primary matches Some(p) ==> first_media(inputs@) == Some(p as int) && p < inputs@.len(),
        decreases inputs.len() - k,
    {
        if primary.is_none() {
            let f = chars_of(inputs[k].field.as_str());
            if chars_equal(&f, &media) {
                proof {
                    lemma_first_media(inputs@, k as int);
                }
                primary = Some(k);
            }
        }
        k = k + 1;
    }
    proof {
        if primary is None {
            assert(!(exists|i: int| 0 <= i < inputs@.len() && is_media(inputs@[i])));
        }
    }
    extend_str(&mut out, "streamkit-client oneshot \"$PIPELINE\" ");
    match primary {
        Some(p) => quote_into(&mut out, inputs[p].path.as_str()),
        None => {
            if inputs.len() > 0 {
                quote_into(&mut out, inputs[0].path.as_str());
            } else {
                extend_str(&mut out, "<INPUT_FILE>");
            }
        },
    }
    extend_str(&mut out, " ");
    quote_into(&mut out, output);
    let skip_media = primary.is_some();
    let ghost head = out@;
    for i in 0..inputs.len()
        invariant
            out@ == head + cli_flags(inputs@.take(i as int), skip_media),
            media@ == "media"@,
    {
        assert(inputs@.take(i + 1).drop_last() =~= inputs@.take(i as int));
        assert(inputs@.take(i + 1).last() == inputs@[i as int]);
        let f = chars_of(inputs[i].field.as_str());
        if skip_media && chars_equal(&f, &media) {
            assert(out@ =~= head + cli_flags(inputs@.take(i + 1), skip_media));
        } else {
            extend_str(&mut out, " --input ");
            let mut flag = chars_of(inputs[i].field.as_str());
            extend_str(&mut flag, "=");
            extend_str(&mut flag, inputs[i].path.as_str());
            let flag_text = string_of(&flag);
            quote_into(&mut out, flag_text.as_str());
            assert(out@ =~= head + cli_flags(inputs@.take(i + 1), skip_media));
        }
    }
    assert(inputs@.take(inputs.len() as int) =~= inputs@);
    extend_str(&mut out, " --server ");
    quote_into(&mut out, server_url);
    assert(out@ =~= cli_command(yaml@, inputs@, output@, server_url@));
    string_of(&out)
}

} // verus!
