use skit::oneshot::{
    generate_curl_command, generate_skit_cli_command, heredoc_free, shell_quote, unique_heredoc_delimiter, OneshotInput,
};

fn input(field: &str, path: &str) -> OneshotInput {
    OneshotInput { field: field.to_string(), path: path.to_string() }
}

#[test]
fn shell_quote_escapes_single_quotes() {
    assert_eq!(shell_quote("plain"), "'plain'");
    assert_eq!(shell_quote("it's"), "'it'\\''s'");
    assert_eq!(shell_quote(""), "''");
}

#[test]
fn heredoc_delimiter_avoids_the_content() {
    assert_eq!(unique_heredoc_delimiter("a: b"), "PIPELINE_EOF");
    assert_eq!(unique_heredoc_delimiter("x PIPELINE_EOF y"), "PIPELINE_EOF_0");
    assert_eq!(unique_heredoc_delimiter("PIPELINE_EOF PIPELINE_EOF_0 PIPELINE_EOF_1"), "PIPELINE_EOF_2");
}

#[test]
fn curl_command_posts_pipeline_and_inputs() {
    let cmd = generate_curl_command("a: 1", &vec![input("media", "/in.wav")], "out.wav", "http://localhost:4545");
    let expected = "# Save pipeline YAML to a temporary file, then run curl.\n\
PIPELINE=$(mktemp /tmp/pipeline-XXXXXX.yaml)\n\
cat > \"$PIPELINE\" <<'PIPELINE_EOF'\n\
a: 1\n\
PIPELINE_EOF\n\
\n\
curl -X POST 'http://localhost:4545/api/v1/process' \\\n  -F 'config=<'\"$PIPELINE\"'' \\\n  -F 'media=@/in.wav' \\\n  -o 'out.wav'";
    assert_eq!(cmd, expected);
}

#[test]
fn cli_command_uses_media_input_positionally() {
    let cmd = generate_skit_cli_command(
        "a: 1",
        &vec![input("extra", "/e.txt"), input("media", "/in.wav")],
        "out.wav",
        "http://h",
    );
    assert!(cmd.ends_with(
        "streamkit-client oneshot \"$PIPELINE\" '/in.wav' 'out.wav' --input 'extra=/e.txt' --server 'http://h'"
    ));
    let cmd = generate_skit_cli_command("a: 1", &vec![input("audio", "/a.wav")], "o", "http://h");
    assert!(cmd.ends_with("streamkit-client oneshot \"$PIPELINE\" '/a.wav' 'o' --input 'audio=/a.wav' --server 'http://h'"));
    let cmd = generate_skit_cli_command("a: 1", &vec![], "o", "http://h");
    assert!(cmd.ends_with("streamkit-client oneshot \"$PIPELINE\" <INPUT_FILE> 'o' --server 'http://h'"));
}

#[test]
fn a_free_heredoc_delimiter_is_found() {
    assert!(heredoc_free("name: plain"));
    assert!(heredoc_free("PIPELINE_EOF and PIPELINE_EOF_0 and PIPELINE_EOF_1"));
    assert_eq!(unique_heredoc_delimiter("PIPELINE_EOF and PIPELINE_EOF_0 and PIPELINE_EOF_1"), "PIPELINE_EOF_2");
}
