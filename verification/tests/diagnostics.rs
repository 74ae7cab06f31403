use boomerang::diagnostics::{
    compact_text, event_line, json_args, log_enabled_value, log_location, redact_token_like,
    LogLocation,
    sanitize_args_for_log, spawn_error_line, trim_trailing,
};

fn strings(items: &[&str]) -> Vec<String> {
    items.iter().map(|item| item.to_string()).collect()
}

#[test]
fn log_enabled_value_recognizes_common_enabled_values() {
    assert!(log_enabled_value(Some("1")));
    assert!(log_enabled_value(Some("debug")));
    assert!(log_enabled_value(Some("true")));
}

#[test]
fn log_enabled_value_recognizes_common_disabled_values() {
    assert!(!log_enabled_value(None));
    assert!(!log_enabled_value(Some("0")));
    assert!(!log_enabled_value(Some("false")));
}

#[test]
fn log_enabled_value_ignores_case_and_whitespace_and_enables_unknown_words() {
    assert!(!log_enabled_value(Some("  OFF ")));
    assert!(!log_enabled_value(Some("")));
    assert!(!log_enabled_value(Some("No")));
    assert!(log_enabled_value(Some("verbose")));
    assert!(log_enabled_value(Some(" Trace ")));
}

#[test]
fn sanitize_args_redacts_issue_title_and_body_values() {
    let args = strings(&[
        "issue",
        "edit",
        "42",
        "--title",
        "Private title",
        "--body",
        "Private body",
        "--add-label",
        "bug",
    ]);
    assert_eq!(
        sanitize_args_for_log(&args),
        strings(&[
            "issue",
            "edit",
            "42",
            "--title",
            "[redacted]",
            "--body",
            "[redacted]",
            "--add-label",
            "bug",
        ])
    );
}

#[test]
fn sanitize_args_redacts_token_like_arguments() {
    let args = strings(&["auth", "token", "ghp_secretvalue"]);
    assert_eq!(
        sanitize_args_for_log(&args),
        strings(&["auth", "token", "[redacted-token]"])
    );
}

#[test]
fn sanitize_args_redacted_title_flag_value_hides_nothing_after_it() {
    let args = strings(&["--title", "--title", "visible"]);
    assert_eq!(
        sanitize_args_for_log(&args),
        strings(&["--title", "[redacted]", "visible"])
    );
}

#[test]
fn redact_token_like_rejoins_words_with_single_spaces_only_when_a_marker_occurs() {
    assert_eq!(redact_token_like("a  b\tc"), "a  b\tc");
    assert_eq!(
        redact_token_like("token:  gho_abc\tend"),
        "token: [redacted-token] end"
    );
    assert_eq!(redact_token_like("x github_pat_123 y"), "x [redacted-token] y");
}

#[test]
fn compact_text_escapes_newlines_and_truncates() {
    assert_eq!(compact_text("a\nb\rc", 100), "a\\nb\\rc");
    assert_eq!(compact_text("abcdef", 3), "abc...[truncated]");
    assert_eq!(compact_text("abc", 3), "abc");
}

#[test]
fn trim_trailing_drops_only_line_ends() {
    assert_eq!(trim_trailing("out\r\n\n"), "out");
    assert_eq!(trim_trailing("out \n"), "out ");
}

#[test]
fn json_args_renders_sanitized_array() {
    let args = strings(&["issue", "create", "--title", "secret"]);
    assert_eq!(json_args(&args), "[\"issue\",\"create\",\"--title\",\"[redacted]\"]");
}

#[test]
fn event_line_has_timestamp_and_label() {
    assert_eq!(event_line(1234, "process_start"), "ts_ms=1234 event=process_start");
}

#[test]
fn spawn_error_line_compacts_the_error() {
    let args = strings(&["issue", "list"]);
    assert_eq!(
        spawn_error_line(7, &args, 15, "not\nfound"),
        "ts=7 gh args=[\"issue\",\"list\"] elapsed_ms=15 spawn_error=not\\nfound"
    );
}

#[test]
fn titles_and_bodies_sent_through_a_targeted_repo_are_redacted() {
    let args = boomerang::gh::with_repo_flag(
        Some("owner/repo".to_string()),
        &boomerang::gh::create_args("--body", "secret body", &strings(&["bug"])),
    );
    let logged = sanitize_args_for_log(&args);
    assert_eq!(logged[5], "[redacted]");
    assert_eq!(logged[7], "[redacted]");
    assert_eq!(logged[8], "--label");
}

#[test]
fn redacting_twice_changes_nothing_more() {
    for text in [
        "use ghp_abc and  gho_def\tthen github_pat_x",
        "plain  text\twith no token",
        "xghp_y ghp_",
        "",
    ] {
        let once = redact_token_like(text);
        assert!(!once.contains("ghp_"));
        assert!(!once.contains("gho_"));
        assert!(!once.contains("github_pat_"));
        assert_eq!(redact_token_like(&once), once);
    }
}

#[test]
fn redaction_replaces_every_marked_word_in_one_pass() {
    assert_eq!(
        redact_token_like("a ghp_1  b\tgho_2 c github_pat_3"),
        "a [redacted-token] b [redacted-token] c [redacted-token]"
    );
}

#[test]
fn json_args_escapes_quotes_backslashes_and_control_characters() {
    let args = strings(&["a\"b", "c\\d", "e\nf\tg", "h\u{1}i\u{1f}", "é\u{7f}"]);
    assert_eq!(
        json_args(&args),
        "[\"a\\\"b\",\"c\\\\d\",\"e\\nf\\tg\",\"h\\u0001i\\u001f\",\"é\u{7f}\"]"
    );
    assert_eq!(json_args(&[]), "[]");
    assert_eq!(
        json_args(&strings(&["\u{8}\u{c}\r"])),
        "[\"\\b\\f\\r\"]"
    );
}

#[test]
fn log_location_follows_the_settings_in_order() {
    assert_eq!(log_location(None, true, true, true), None);
    assert_eq!(log_location(Some("0"), true, true, true), None);
    assert_eq!(log_location(Some("1"), true, true, true), Some(LogLocation::Given));
    assert_eq!(
        log_location(Some("1"), false, true, true),
        Some(LogLocation::UnderCacheHome)
    );
    assert_eq!(log_location(Some("yes"), false, false, true), Some(LogLocation::UnderHome));
    assert_eq!(log_location(Some("1"), false, false, false), Some(LogLocation::InTempDir));
    assert_eq!(LogLocation::UnderCacheHome.file_below(), "boomerang/boomerang.log");
    assert_eq!(LogLocation::UnderHome.file_below(), ".cache/boomerang/boomerang.log");
    assert_eq!(LogLocation::InTempDir.file_below(), "boomerang.log");
}
