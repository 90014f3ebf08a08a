use skit::samples::{
    filename_to_name, generate_safe_filename, generate_safe_filename_at, has_yaml_extension,
    mode_to_string, sample_delete_file, sample_delete_target, sample_id, sample_lookup_plan, split_sample_id, stored_sample_yaml,
    validate_filename, EngineMode, SamplesError, MAX_FILENAME_LENGTH,
};

fn invalid_filename_msg(err: &SamplesError) -> &str {
    match err {
        SamplesError::InvalidFilename(msg) => msg.as_str(),
        other => panic!("expected InvalidFilename, got {other:?}"),
    }
}

#[test]
fn validate_filename_accepts_yml_yaml_and_uppercase() {
    for ok in ["foo.yml", "foo.yaml", "FOO.YML", "FOO.YAML", "Foo.Yml", "mixed.YaMl"] {
        assert!(validate_filename(ok).is_ok(), "expected `{ok}` to be accepted");
    }
}

#[test]
fn validate_filename_rejects_empty() {
    let err = validate_filename("").expect_err("empty filename must be rejected");
    assert!(matches!(err, SamplesError::InvalidFilename(_)));
    assert!(invalid_filename_msg(&err).to_ascii_lowercase().contains("empty"));
}

#[test]
fn validate_filename_rejects_too_long() {
    let too_long = format!("{}.yml", "a".repeat(252));
    assert_eq!(too_long.len(), MAX_FILENAME_LENGTH + 1);
    let err = validate_filename(&too_long).expect_err("over-length filename must be rejected");
    assert!(matches!(err, SamplesError::InvalidFilename(_)));
    assert!(invalid_filename_msg(&err).to_ascii_lowercase().contains("long"));
}

#[test]
fn validate_filename_accepts_max_length() {
    let at_limit = format!("{}.yml", "a".repeat(251));
    assert_eq!(at_limit.len(), MAX_FILENAME_LENGTH);
    assert!(validate_filename(&at_limit).is_ok());
}

#[test]
fn validate_filename_rejects_path_traversal_and_separators() {
    for bad in ["../foo.yml", "foo..yml", "..yml.yml", "foo/bar.yml", "foo\\bar.yml"] {
        match validate_filename(bad) {
            Err(SamplesError::InvalidFilename(_)) => {},
            Ok(()) => panic!("expected `{bad}` to be rejected"),
            Err(other) => panic!("expected InvalidFilename for `{bad}`, got {other:?}"),
        }
    }
}

#[test]
fn validate_filename_rejects_missing_or_wrong_extension() {
    for bad in ["foo", "foo.", "foo.txt", "foo.json", "yaml"] {
        match validate_filename(bad) {
            Err(SamplesError::InvalidFilename(_)) => {},
            Ok(()) => panic!("expected `{bad}` to be rejected as missing/wrong extension"),
            Err(other) => panic!("expected InvalidFilename for `{bad}`, got {other:?}"),
        }
    }
}

#[test]
fn filename_to_name_strips_extension_and_capitalises() {
    assert_eq!(filename_to_name("hello_world.yml"), "Hello World");
    assert_eq!(filename_to_name("single.yaml"), "Single");
    assert_eq!(filename_to_name("multi_word_pipeline.yml"), "Multi Word Pipeline");
}

#[test]
fn filename_to_name_without_extension_still_capitalises() {
    assert_eq!(filename_to_name("bare"), "Bare");
    assert_eq!(filename_to_name("two_words"), "Two Words");
}

#[test]
fn filename_to_name_empty_input_returns_empty() {
    assert_eq!(filename_to_name(""), "");
}

#[test]
fn filename_to_name_collapses_internal_whitespace() {
    assert_eq!(filename_to_name("a__b.yml"), "A B");
}

#[test]
fn generate_safe_filename_slugifies_to_underscore_lowercase_yml() {
    assert_eq!(generate_safe_filename("My Pipeline"), "my_pipeline.yml");
    assert_eq!(generate_safe_filename("HELLO"), "hello.yml");
    assert_eq!(generate_safe_filename("keep-dashes"), "keep-dashes.yml");
    assert_eq!(generate_safe_filename("snake_case"), "snake_case.yml");
}

#[test]
fn generate_safe_filename_strips_disallowed_characters() {
    assert_eq!(generate_safe_filename("a/b\\c"), "a_b_c.yml");
    assert_eq!(generate_safe_filename("dots..everywhere"), "dots__everywhere.yml");
    assert_eq!(generate_safe_filename("weird!@#name"), "weird___name.yml");
}

#[test]
fn generate_safe_filename_trims_leading_and_trailing_underscores() {
    assert_eq!(generate_safe_filename("/etc/passwd"), "etc_passwd.yml");
    assert_eq!(generate_safe_filename("...trailing..."), "trailing.yml");
}

#[test]
fn generate_safe_filename_empty_uses_timestamp_fallback() {
    for input in ["", "/", "..", "___", "!!!"] {
        let result = generate_safe_filename(input);
        let ends_with_yml = std::path::Path::new(&result)
            .extension()
            .is_some_and(|ext| ext.eq_ignore_ascii_case("yml"));
        assert!(
            result.starts_with("pipeline_") && ends_with_yml,
            "input `{input}` produced unexpected fallback `{result}`"
        );
        let middle = result
            .strip_prefix("pipeline_")
            .and_then(|s| s.strip_suffix(".yml"))
            .expect("fallback must have the documented shape");
        assert!(
            !middle.is_empty() && middle.chars().all(|c| c.is_ascii_digit()),
            "fallback timestamp portion of `{result}` was not numeric"
        );
    }
}

#[test]
fn generate_safe_filename_round_trips_through_validate() {
    for input in [
        "ok",
        "My Pipeline",
        "a/b/c",
        "..\\..\\etc\\passwd",
        "weird!@#name",
        "",
        "...",
        "___",
        "trailing///",
    ] {
        let generated = generate_safe_filename(input);
        assert!(
            validate_filename(&generated).is_ok(),
            "input `{input}` produced `{generated}` which validate_filename rejected"
        );
    }
}

#[test]
fn generate_safe_filename_at_uses_given_timestamp() {
    assert_eq!(generate_safe_filename_at("!!!", 1700000000), "pipeline_1700000000.yml");
    assert_eq!(generate_safe_filename_at("", 0), "pipeline_0.yml");
    assert_eq!(generate_safe_filename_at("Name", 5), "name.yml");
}

#[test]
fn has_yaml_extension_accepts_yml_and_yaml_case_insensitive() {
    for ok in ["foo.yml", "foo.yaml", "foo.YML", "foo.YAML", "foo.YmL"] {
        assert!(has_yaml_extension(ok), "expected `{ok}` to be recognised");
    }
}

#[test]
fn has_yaml_extension_rejects_other_or_missing_extensions() {
    for bad in ["foo.txt", "foo", "foo.json", "foo.yml.gz", "yaml", ""] {
        assert!(!has_yaml_extension(bad), "expected `{bad}` to be rejected");
    }
}

#[test]
fn mode_to_string_maps_every_variant() {
    for mode in [EngineMode::OneShot, EngineMode::Dynamic] {
        let expected = match mode {
            EngineMode::OneShot => "oneshot",
            EngineMode::Dynamic => "dynamic",
        };
        assert_eq!(mode_to_string(mode), expected);
    }
    assert_eq!(EngineMode::default(), EngineMode::Dynamic);
}

#[test]
fn samples_error_codes_and_messages() {
    assert_eq!(SamplesError::NotFound.status_code(), 404);
    assert_eq!(SamplesError::InvalidFilename("x".to_string()).status_code(), 400);
    assert_eq!(SamplesError::FileTooLarge.status_code(), 413);
    assert_eq!(SamplesError::AlreadyExists.status_code(), 409);
    assert_eq!(SamplesError::Forbidden.status_code(), 403);
    assert_eq!(SamplesError::Io(std::io::Error::other("disk")).status_code(), 500);
    assert_eq!(SamplesError::Forbidden.to_string(), "Access forbidden");
    assert_eq!(SamplesError::InvalidFilename("bad".to_string()).to_string(), "Invalid filename: bad");
    assert!(SamplesError::Io(std::io::Error::other("disk")).to_string().starts_with("IO error: "));
}

#[test]
fn lookup_plan_rejects_traversal_and_unknown_dirs() {
    match sample_lookup_plan("oneshot/../secret") {
        Err(SamplesError::InvalidFilename(m)) => assert_eq!(m, "Invalid characters in sample ID"),
        other => panic!("unexpected {other:?}"),
    }
    assert!(matches!(sample_lookup_plan("nowhere/x"), Err(SamplesError::NotFound)));
    let (base, dirs) = sample_lookup_plan("oneshot/speech").expect("plan");
    assert_eq!(base, "speech");
    assert_eq!(dirs, vec![("oneshot".to_string(), true)]);
    let (_, dirs) = sample_lookup_plan("speech").expect("plan");
    assert_eq!(dirs.len(), 4);
    assert_eq!(dirs[3], ("user".to_string(), false));
}

#[test]
fn delete_target_is_user_samples_only() {
    assert!(matches!(sample_delete_target("oneshot/x"), Err(SamplesError::Forbidden)));
    assert_eq!(sample_delete_target("user/x").expect("user"), "x");
    assert_eq!(sample_delete_target("x").expect("user"), "x");
}

#[test]
fn sample_ids_split_and_join() {
    assert_eq!(split_sample_id("demo/a/b"), (Some("demo".to_string()), "a/b".to_string()));
    assert_eq!(split_sample_id("plain"), (None, "plain".to_string()));
    assert_eq!(sample_id("oneshot", "speech.yaml"), "oneshot/speech");
    assert_eq!(sample_id("user", "mine.yml"), "user/mine");
}

#[test]
fn stored_yaml_sets_metadata_or_prepends_comments() {
    assert_eq!(stored_sample_yaml("a: [", "N", "D", true).unwrap(), "a: [");
    assert_eq!(stored_sample_yaml("a: [", "N", "D", false).unwrap(), "# name: N\n# description: D\na: [");
    let doc = stored_sample_yaml("nodes: {}\n", "My Name", "Desc", false).unwrap();
    assert!(doc.contains("name: My Name"));
    assert!(doc.contains("description: Desc"));
    assert!(doc.contains("nodes"));
}

#[test]
fn delete_removes_yml_before_yaml() {
    assert_eq!(sample_delete_file("user/x", true, true).expect("yml"), "x.yml");
    assert_eq!(sample_delete_file("x", false, true).expect("yaml"), "x.yaml");
    assert!(matches!(sample_delete_file("user/x", false, false), Err(SamplesError::NotFound)));
    assert!(matches!(sample_delete_file("oneshot/alpha", true, true), Err(SamplesError::Forbidden)));
}
