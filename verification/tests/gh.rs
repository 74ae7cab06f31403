use boomerang::gh::{
    close_args, create_args, edit_args, issues_from_raw, labels_from_raw, list_args,
    parse_created_issue_number, parse_repo_name, parse_repo_spec, parse_state, repo_name_args,
    GhCliSource, RawIssue, RawLabel, StateFilter,
};
use boomerang::model::{IssueState, Label};

fn strs(items: &[&str]) -> Vec<String> {
    items.iter().map(|s| s.to_string()).collect()
}

#[test]
fn list_args_includes_state_filter() {
    let args = list_args(StateFilter::Closed);
    assert!(args.contains(&"--state".to_string()));
    assert!(args.contains(&"closed".to_string()));
    assert!(
        args.iter().any(|a| a.contains("createdAt")),
        "must request createdAt for the description pane"
    );
}

#[test]
fn list_args_requests_a_500_item_limit() {
    let args = list_args(StateFilter::Open);
    let limit_index = args
        .iter()
        .position(|a| a == "--limit")
        .expect("list_args must pass --limit");
    assert_eq!(args[limit_index + 1], "500");
}

#[test]
fn state_filter_cycles_open_triage_closed_all() {
    assert_eq!(StateFilter::Open.cycle(), StateFilter::Triage);
    assert_eq!(StateFilter::Triage.cycle(), StateFilter::Closed);
    assert_eq!(StateFilter::Closed.cycle(), StateFilter::All);
    assert_eq!(StateFilter::All.cycle(), StateFilter::Open);
}

#[test]
fn list_args_treats_triage_as_open() {
    let args = list_args(StateFilter::Triage);
    assert!(args.contains(&"--state".to_string()));
    assert!(args.contains(&"open".to_string()));
}

#[test]
fn create_args_includes_title_body_and_labels() {
    let args = create_args(
        "Fix bug",
        "Steps...",
        &["bug".to_string(), "urgent".to_string()],
    );
    assert_eq!(
        args,
        strs(&[
            "issue", "create", "--title", "Fix bug", "--body", "Steps...", "--label", "bug",
            "--label", "urgent"
        ])
    );
}

#[test]
fn parse_created_issue_number_reads_the_trailing_url_segment() {
    assert_eq!(
        parse_created_issue_number("https://github.com/owner/repo/issues/71\n").unwrap(),
        71
    );
}

#[test]
fn parse_created_issue_number_errors_on_unparseable_output() {
    assert!(parse_created_issue_number("not a url").is_err());
}

#[test]
fn edit_args_includes_add_and_remove_labels() {
    let args = edit_args(
        42,
        "New title",
        "New body",
        &["bug".to_string()],
        &["wontfix".to_string()],
    );
    assert_eq!(
        args,
        strs(&[
            "issue",
            "edit",
            "42",
            "--title",
            "New title",
            "--body",
            "New body",
            "--add-label",
            "bug",
            "--remove-label",
            "wontfix"
        ])
    );
}

#[test]
fn close_args_targets_issue_number() {
    assert_eq!(close_args(7), strs(&["issue", "close", "7"]));
}

#[test]
fn repo_name_args_requests_name_with_owner() {
    let args = repo_name_args();
    assert_eq!(
        args,
        strs(&[
            "repo",
            "view",
            "--json",
            "nameWithOwner",
            "--jq",
            ".nameWithOwner"
        ])
    );
}

#[test]
fn parse_repo_name_trims_trailing_newline() {
    assert_eq!(parse_repo_name("jeffdt/boomerang\n"), "jeffdt/boomerang");
}

#[test]
fn parse_repo_spec_accepts_bare_owner_slash_repo() {
    assert_eq!(
        parse_repo_spec("jeffdt/rolomux"),
        Some("jeffdt/rolomux".to_string())
    );
}

#[test]
fn parse_repo_spec_trims_surrounding_whitespace() {
    assert_eq!(
        parse_repo_spec("  jeffdt/rolomux  "),
        Some("jeffdt/rolomux".to_string())
    );
}

#[test]
fn parse_repo_spec_accepts_https_github_url() {
    assert_eq!(
        parse_repo_spec("https://github.com/jeffdt/rolomux"),
        Some("jeffdt/rolomux".to_string())
    );
}

#[test]
fn parse_repo_spec_accepts_https_github_url_with_trailing_slash() {
    assert_eq!(
        parse_repo_spec("https://github.com/jeffdt/rolomux/"),
        Some("jeffdt/rolomux".to_string())
    );
}

#[test]
fn parse_repo_spec_drops_extra_path_segments_from_a_url() {
    assert_eq!(
        parse_repo_spec("https://github.com/jeffdt/rolomux/issues/20"),
        Some("jeffdt/rolomux".to_string())
    );
}

#[test]
fn parse_repo_spec_accepts_ssh_style_url() {
    assert_eq!(
        parse_repo_spec("git@github.com:jeffdt/rolomux.git"),
        Some("jeffdt/rolomux".to_string())
    );
}

#[test]
fn parse_repo_spec_rejects_owner_without_repo() {
    assert_eq!(parse_repo_spec("jeffdt"), None);
}

#[test]
fn parse_repo_spec_rejects_blank_input() {
    assert_eq!(parse_repo_spec("   "), None);
}

#[test]
fn parse_repo_spec_rejects_non_github_host() {
    assert_eq!(parse_repo_spec("https://gitlab.com/jeffdt/rolomux"), None);
}

#[test]
fn parse_repo_spec_rejects_host_first_text() {
    assert_eq!(parse_repo_spec("github.com/jeffdt/rolomux"), None);
    assert_eq!(parse_repo_spec("gitlab.com/jeffdt/rolomux"), None);
    assert_eq!(parse_repo_spec("jeffdt/rolomux/issues"), None);
    assert_eq!(
        parse_repo_spec("jeffdt/rolomux.rs"),
        Some("jeffdt/rolomux.rs".to_string())
    );
    assert_eq!(parse_repo_spec("my.org/repo"), Some("my.org/repo".to_string()));
    assert_eq!(parse_repo_spec("http://github.com/jeffdt/rolomux"), None);
    assert_eq!(parse_repo_spec("jeffdt/rolomux/"), Some("jeffdt/rolomux".to_string()));
}

#[test]
fn set_repo_prefixes_subsequent_calls_with_dash_r() {
    let source = GhCliSource::new();
    assert_eq!(source.current_repo(), None);
    source.set_repo(Some("jeffdt/rolomux".to_string()));
    assert_eq!(source.current_repo(), Some("jeffdt/rolomux".to_string()));
}

#[test]
fn a_new_source_follows_the_current_directory() {
    assert_eq!(GhCliSource::new().current_repo(), None);
}

#[test]
fn with_repo_starts_pre_targeted() {
    let source = GhCliSource::with_repo("jeffdt/rolomux".to_string());
    assert_eq!(source.current_repo(), Some("jeffdt/rolomux".to_string()));
}

#[test]
fn set_repo_is_visible_across_clones() {
    // Every clone shares the same underlying Arc<Mutex<_>>, so a switch
    // made through one handle (the UI thread) must be visible to another
    // handle already captured by a spawned worker thread.
    let source = GhCliSource::new();
    let clone = source.clone();
    clone.set_repo(Some("jeffdt/rolomux".to_string()));
    assert_eq!(source.current_repo(), Some("jeffdt/rolomux".to_string()));
}

fn raw_issue(number: u32, state: &str, labels: Vec<RawLabel>) -> RawIssue {
    RawIssue {
        number,
        title: "Fix login bug".to_string(),
        body: "Steps to repro...".to_string(),
        labels,
        state: state.to_string(),
        url: format!("https://github.com/owner/repo/issues/{number}"),
        created_at: "2026-06-01T12:00:00Z".to_string(),
    }
}

#[test]
fn issues_from_raw_keeps_every_field_and_reads_the_state() {
    let raws = vec![raw_issue(
        42,
        "OPEN",
        vec![RawLabel {
            name: "bug".to_string(),
            color: "d73a4a".to_string(),
        }],
    )];
    let issues = issues_from_raw(&raws).unwrap();
    assert_eq!(issues.len(), 1);
    assert_eq!(issues[0].number, 42);
    assert_eq!(issues[0].title, "Fix login bug");
    assert_eq!(issues[0].state, IssueState::Open);
    assert_eq!(issues[0].created_at, "2026-06-01T12:00:00Z");
    assert_eq!(
        issues[0].labels,
        vec![Label {
            name: "bug".into(),
            color: "d73a4a".into()
        }]
    );
}

#[test]
fn parse_state_reads_closed_in_any_case() {
    assert_eq!(parse_state("closed"), Ok(IssueState::Closed));
    assert_eq!(parse_state("Closed"), Ok(IssueState::Closed));
    assert_eq!(parse_state("OPEN"), Ok(IssueState::Open));
}

#[test]
fn issues_from_raw_rejects_an_unrecognized_state() {
    let raws = vec![raw_issue(1, "open", vec![]), raw_issue(2, "Weird", vec![])];
    assert_eq!(
        issues_from_raw(&raws),
        Err("unrecognized issue state from gh CLI: weird".to_string())
    );
}

#[test]
fn labels_from_raw_keeps_order_and_colors() {
    let raws = vec![
        RawLabel {
            name: "bug".to_string(),
            color: "d73a4a".to_string(),
        },
        RawLabel {
            name: "docs".to_string(),
            color: "0075ca".to_string(),
        },
    ];
    assert_eq!(
        labels_from_raw(&raws),
        vec![
            Label {
                name: "bug".into(),
                color: "d73a4a".into()
            },
            Label {
                name: "docs".into(),
                color: "0075ca".into()
            },
        ]
    );
}

#[test]
fn parsed_repo_specs_parse_to_themselves() {
    let once = parse_repo_spec("  https://github.com/jeffdt/boomerang/issues/20 ").unwrap();
    assert_eq!(once, "jeffdt/boomerang");
    assert_eq!(parse_repo_spec(&once), Some(once.clone()));
    let ssh = parse_repo_spec("git@github.com:jeffdt/rolomux.git").unwrap();
    assert_eq!(parse_repo_spec(&ssh), Some(ssh.clone()));
}

#[test]
fn parse_created_issue_number_quotes_the_output_it_could_not_read() {
    assert_eq!(
        parse_created_issue_number("  oops \"x\"\n"),
        Err("couldn't parse an issue number from gh's create output: \"oops \\\"x\\\"\"".to_string())
    );
}
