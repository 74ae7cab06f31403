use boomerang::cli::MutationRequest;
use boomerang::keys::{KeyCode, KeyPress};
use boomerang::model::{
    AppState, FormField, FormState, Issue, IssueState, Label, Mode, PendingOperation,
};
use boomerang::session::{
    apply_repo_name_result, capture_full_key, capture_key, copy_text, finish_capture,
    finish_copy, finish_initial_load, finish_mutation, finish_open, finish_refresh, handle_key,
    labels_loaded, open_target, show_pending_draft, CopyFormat, Effect, InitialLoad, Mutated,
    MutationDraft, Reloaded,
};
use ratatui_textarea::{Input, Key};

fn issue(number: u32, title: &str) -> Issue {
    Issue {
        number,
        title: title.into(),
        body: String::new(),
        labels: vec![],
        state: IssueState::Open,
        url: format!("https://example.com/{number}"),
        created_at: "2026-01-01T00:00:00Z".into(),
    }
}

fn status(state: &AppState) -> String {
    state.status.as_ref().expect("status should be set").0.clone()
}

fn no_edit() -> Input {
    Input {
        key: Key::Null,
        ctrl: false,
        alt: false,
        shift: false,
    }
}

fn char_edit(c: char) -> Input {
    Input {
        key: Key::Char(c),
        ctrl: false,
        alt: false,
        shift: false,
    }
}

fn key(code: KeyCode) -> KeyPress {
    KeyPress { code, ctrl: false }
}

fn press(state: &mut AppState, code: KeyCode) -> Effect {
    let edit = match code {
        KeyCode::Char(c) => char_edit(c),
        _ => no_edit(),
    };
    handle_key(state, key(code), edit)
}

fn copy_selected(state: &mut AppState, outcome: Result<(), String>) -> bool {
    match copy_text(state, CopyFormat::Reference) {
        Some(text) => finish_copy(state, &text, outcome),
        None => false,
    }
}

fn handle_quit(state: &mut AppState) -> bool {
    matches!(press(state, KeyCode::Char('q')), Effect::Quit)
}

fn form_title(state: &AppState) -> String {
    match &state.mode {
        Mode::Form(form) => form.title_text(),
        other => panic!("expected Form mode, got {other:?}"),
    }
}

#[test]
fn copy_selected_returns_true_when_exit_on_copy_yank_is_set() {
    let mut state = AppState::new(vec![issue(1, "test")], vec![]);
    state.exit_on_copy_yank = true;
    assert!(copy_selected(&mut state, Ok(())));
}

#[test]
fn copy_selected_returns_false_when_exit_on_copy_yank_is_off() {
    let mut state = AppState::new(vec![issue(1, "test")], vec![]);
    state.exit_on_copy_yank = false;
    assert!(!copy_selected(&mut state, Ok(())));
}

#[test]
fn copy_selected_returns_false_with_no_selected_issue_even_if_setting_is_on() {
    let mut state = AppState::new(vec![], vec![]);
    state.exit_on_copy_yank = true;
    assert!(!copy_selected(&mut state, Ok(())));
}

#[test]
fn copy_selected_falls_back_to_single_issue_when_nothing_checked() {
    let mut state = AppState::new(vec![issue(1, "one"), issue(2, "two")], vec![]);
    copy_selected(&mut state, Ok(()));
    assert_eq!(state.status.as_ref().unwrap().0, "copied: #1");
}

#[test]
fn copy_selected_sets_status_and_returns_false_when_copy_fails() {
    let mut state = AppState::new(vec![issue(1, "one")], vec![]);
    state.exit_on_copy_yank = true;
    assert!(!copy_selected(&mut state, Err("no clipboard".to_string())));
    assert_eq!(
        state.status.as_ref().unwrap().0,
        "copy failed: no clipboard"
    );
}

#[test]
fn copy_selected_joins_multiple_checked_issues_with_comma() {
    let mut state = AppState::new(
        vec![issue(1, "one"), issue(2, "two"), issue(3, "three")],
        vec![],
    );
    state.checked.insert(1);
    state.checked.insert(3);
    copy_selected(&mut state, Ok(()));
    assert_eq!(state.status.as_ref().unwrap().0, "copied 2: #1, #3");
}

#[test]
fn copy_selected_clears_checked_after_successful_multi_copy_even_when_exit_on_copy_yank_is_off() {
    let mut state = AppState::new(vec![issue(1, "one"), issue(2, "two")], vec![]);
    state.exit_on_copy_yank = false;
    state.checked.insert(1);
    state.checked.insert(2);
    copy_selected(&mut state, Ok(()));
    assert!(state.checked.is_empty());
}

#[test]
fn copy_selected_skips_checked_numbers_that_no_longer_resolve() {
    let mut state = AppState::new(vec![issue(1, "one")], vec![]);
    state.checked.insert(1);
    state.checked.insert(999);
    copy_selected(&mut state, Ok(()));
    assert_eq!(state.status.as_ref().unwrap().0, "copied 1: #1");
}

#[test]
fn handle_quit_clears_checked_and_does_not_quit_when_checks_active() {
    let mut state = AppState::new(vec![issue(1, "one")], vec![]);
    state.checked.insert(1);
    assert!(!handle_quit(&mut state));
    assert!(state.checked.is_empty());
}

#[test]
fn copying_checked_issues_orders_them_by_number_and_keeps_them_on_failure() {
    let mut state = AppState::new(
        vec![issue(5, "five"), issue(2, "two"), issue(9, "nine")],
        vec![],
    );
    state.checked.insert(9);
    state.checked.insert(2);
    assert_eq!(
        copy_text(&state, CopyFormat::Url),
        Some("https://example.com/2, https://example.com/9".to_string())
    );
    state.exit_on_copy_yank = true;
    assert!(!copy_selected(&mut state, Err("no clipboard".to_string())));
    assert_eq!(status(&state), "copy failed: no clipboard");
    assert_eq!(state.checked.len(), 2);
    assert!(copy_selected(&mut state, Ok(())));
    assert!(state.checked.is_empty());
}

#[test]
fn checked_numbers_that_all_vanished_copy_nothing() {
    let mut state = AppState::new(vec![issue(1, "one")], vec![]);
    state.checked.insert(7);
    assert_eq!(copy_text(&state, CopyFormat::Reference), None);
    assert!(matches!(press(&mut state, KeyCode::Char('y')), Effect::Stay));
}

#[test]
fn space_checks_and_unchecks_the_issue_under_the_cursor() {
    let mut state = AppState::new(vec![issue(1, "one"), issue(2, "two")], vec![]);
    press(&mut state, KeyCode::Char(' '));
    press(&mut state, KeyCode::Char('j'));
    press(&mut state, KeyCode::Char(' '));
    assert_eq!(state.checked.iter().copied().collect::<Vec<u32>>(), vec![1, 2]);
    press(&mut state, KeyCode::Char(' '));
    assert_eq!(state.checked.iter().copied().collect::<Vec<u32>>(), vec![1]);
    match press(&mut state, KeyCode::Char('y')) {
        Effect::Copy(text) => assert_eq!(text, "#1"),
        _ => panic!("expected a copy"),
    }
    assert!(matches!(press(&mut state, KeyCode::Esc), Effect::Stay));
    assert!(state.checked.is_empty());
    assert!(matches!(press(&mut state, KeyCode::Esc), Effect::Quit));
}

#[test]
fn handle_quit_quits_when_nothing_checked() {
    let mut state = AppState::new(vec![issue(1, "one")], vec![]);
    assert!(matches!(press(&mut state, KeyCode::Char('q')), Effect::Quit));
}

#[test]
fn finish_initial_load_populates_state_and_reports_timing() {
    let loaded = issue(7, "Loaded issue");
    let label = Label {
        name: "priority".into(),
        color: "faa29b".into(),
    };
    let mut state = AppState::loading();
    finish_initial_load(
        &mut state,
        Ok(InitialLoad {
            issues: vec![loaded.clone()],
            labels: vec![label.clone()],
            repo_name: None,
            took: "350ms".to_string(),
        }),
        false,
    );
    assert_eq!(state.issues, vec![loaded]);
    assert_eq!(state.all_labels, vec![label]);
    assert!(!state.is_loading());
    assert!(status(&state).ends_with("loaded 1 issues in 350ms"));
}

#[test]
fn finish_refresh_success_updates_issues_labels_and_reports_timing() {
    let refreshed = issue(9, "Refreshed issue");
    let label = Label {
        name: "priority".into(),
        color: "faa29b".into(),
    };
    let mut state = AppState::new(vec![], vec![]);
    state.begin_pending(PendingOperation::RefreshList);
    finish_refresh(
        &mut state,
        Ok(Reloaded {
            issues: vec![refreshed.clone()],
            labels: vec![label.clone()],
            took: "200ms".to_string(),
        }),
        false,
    );
    assert!(!state.is_pending());
    assert_eq!(state.issues, vec![refreshed]);
    assert_eq!(state.all_labels, vec![label]);
    assert!(status(&state).ends_with("refreshed 1 issues in 200ms"));
}

#[test]
fn finish_refresh_failure_clears_pending_and_reports_error() {
    let mut state = AppState::new(vec![issue(1, "Existing issue")], vec![]);
    state.begin_pending(PendingOperation::RefreshList);
    finish_refresh(&mut state, Err("network unreachable".to_string()), false);
    assert!(!state.is_pending());
    assert_eq!(state.issues, vec![issue(1, "Existing issue")]);
    assert!(status(&state).ends_with("gh error: network unreachable"));
}

#[test]
fn finish_initial_load_sets_repo_name_when_available() {
    let mut state = AppState::loading();
    finish_initial_load(
        &mut state,
        Ok(InitialLoad {
            issues: vec![],
            labels: vec![],
            repo_name: Some("jeffdt/boomerang".to_string()),
            took: "10ms".to_string(),
        }),
        false,
    );
    assert_eq!(
        state.repo_name_with_owner,
        Some("jeffdt/boomerang".to_string())
    );
}

#[test]
fn finish_initial_load_leaves_repo_name_none_when_unavailable() {
    let mut state = AppState::loading();
    finish_initial_load(
        &mut state,
        Ok(InitialLoad {
            issues: vec![],
            labels: vec![],
            repo_name: None,
            took: "10ms".to_string(),
        }),
        false,
    );
    assert_eq!(state.repo_name_with_owner, None);
}

#[test]
fn apply_repo_name_result_sets_repo_name_on_success() {
    let mut state = AppState::new(vec![], vec![]);
    apply_repo_name_result(&mut state, Ok("jeffdt/boomerang".to_string()));
    assert_eq!(
        state.repo_name_with_owner,
        Some("jeffdt/boomerang".to_string())
    );
}

#[test]
fn apply_repo_name_result_leaves_repo_name_none_on_failure() {
    let mut state = AppState::new(vec![], vec![]);
    apply_repo_name_result(&mut state, Err("gh not found".to_string()));
    assert_eq!(state.repo_name_with_owner, None);
}

#[test]
fn finish_initial_load_failure_clears_loading_and_reports_error() {
    let mut state = AppState::loading();
    finish_initial_load(&mut state, Err("repo unavailable".to_string()), false);
    assert!(!state.is_loading());
    assert!(status(&state).ends_with("gh error: repo unavailable"));
}

#[test]
fn finish_create_success_updates_issues_and_reports_timing() {
    let created = issue(42, "Created issue");
    let mut state = AppState::new(vec![], vec![]);
    state.begin_pending(PendingOperation::CreateIssue);
    finish_mutation(
        &mut state,
        None,
        Ok(Mutated {
            operation: PendingOperation::CreateIssue,
            issues: vec![created.clone()],
            action_took: "1.2s".to_string(),
            refresh_took: "50ms".to_string(),
            target_issue: None,
        }),
        false,
    );
    assert_eq!(state.issues, vec![created]);
    assert!(!state.is_pending());
    assert_eq!(state.mode, Mode::List);
    assert!(status(&state).ends_with("created issue in 1.2s, refresh 50ms"));
}

#[test]
fn finish_edit_success_updates_issues_and_reports_timing() {
    let updated = issue(42, "Updated issue");
    let draft = FormState {
        editing: Some(42),
        ..FormState::with_title_body("Pending edit", "")
    };
    let mut state = AppState::new(vec![], vec![]);
    state.mode = Mode::Form(Box::new(draft));
    state.begin_pending(PendingOperation::EditIssue);
    finish_mutation(
        &mut state,
        None,
        Ok(Mutated {
            operation: PendingOperation::EditIssue,
            issues: vec![updated.clone()],
            action_took: "950ms".to_string(),
            refresh_took: "75ms".to_string(),
            target_issue: Some(42),
        }),
        false,
    );
    assert_eq!(state.issues, vec![updated]);
    assert!(!state.is_pending());
    assert_eq!(state.mode, Mode::List);
    assert!(status(&state).ends_with("updated issue in 950ms, refresh 75ms"));
}

#[test]
fn finish_edit_success_keeps_edited_issue_selected() {
    let mut state = AppState::new(
        vec![issue(1, "First"), issue(42, "Second"), issue(7, "Third")],
        vec![],
    );
    state.mode = Mode::Form(Box::new(FormState {
        editing: Some(42),
        ..FormState::with_title_body("Pending edit", "")
    }));
    state.begin_pending(PendingOperation::EditIssue);
    finish_mutation(
        &mut state,
        None,
        Ok(Mutated {
            operation: PendingOperation::EditIssue,
            issues: vec![
                issue(42, "Second, updated"),
                issue(1, "First"),
                issue(7, "Third"),
            ],
            action_took: "950ms".to_string(),
            refresh_took: "75ms".to_string(),
            target_issue: Some(42),
        }),
        false,
    );
    assert_eq!(state.selected_issue().map(|i| i.number), Some(42));
}

#[test]
fn finish_close_success_updates_issues_and_reports_timing() {
    let remaining = issue(7, "Still open");
    let mut state = AppState::new(vec![issue(42, "To be closed"), remaining.clone()], vec![]);
    state.begin_pending(PendingOperation::CloseIssue);
    finish_mutation(
        &mut state,
        Some(MutationDraft::Nothing),
        Ok(Mutated {
            operation: PendingOperation::CloseIssue,
            issues: vec![remaining.clone()],
            action_took: "400ms".to_string(),
            refresh_took: "30ms".to_string(),
            target_issue: None,
        }),
        false,
    );
    assert_eq!(state.issues, vec![remaining]);
    assert!(!state.is_pending());
    assert_eq!(state.mode, Mode::List);
    assert!(status(&state).ends_with("closed issue in 400ms, refresh 30ms"));
}

#[test]
fn finish_close_failure_leaves_list_mode_and_reports_error() {
    let mut state = AppState::new(vec![issue(42, "To be closed")], vec![]);
    state.begin_pending(PendingOperation::CloseIssue);
    finish_mutation(
        &mut state,
        Some(MutationDraft::Nothing),
        Err("close failed".to_string()),
        false,
    );
    assert!(!state.is_pending());
    assert_eq!(state.mode, Mode::List);
    assert!(status(&state).ends_with("gh error: close failed"));
}

#[test]
fn pending_mutation_keeps_form_draft_visible() {
    let draft = FormState {
        editing: Some(42),
        ..FormState::with_title_body("Pending title", "Pending body")
    };
    let mut state = AppState::new(vec![], vec![]);
    show_pending_draft(&mut state, &MutationDraft::Form(Box::new(draft.clone())));
    state.begin_pending(PendingOperation::EditIssue);
    assert_eq!(state.mode, Mode::Form(Box::new(draft)));
    assert!(state
        .pending_message()
        .unwrap()
        .contains("Updating issue..."));
}

#[test]
fn finish_mutation_failure_restores_form_draft() {
    let draft = FormState::with_title_body("Draft title", "Draft body");
    let mut state = AppState::new(vec![], vec![]);
    state.begin_pending(PendingOperation::EditIssue);
    finish_mutation(
        &mut state,
        Some(MutationDraft::Form(Box::new(draft.clone()))),
        Err("network failed".to_string()),
        false,
    );
    assert_eq!(state.mode, Mode::Form(Box::new(draft)));
    assert!(status(&state).ends_with("gh error: network failed"));
}

// Further cases of the library's own.

#[test]
fn keys_move_the_cursor_and_search_in_the_list() {
    let mut state = AppState::new(vec![issue(1, "alpha"), issue(2, "beta")], vec![]);
    assert!(matches!(press(&mut state, KeyCode::Char('j')), Effect::Stay));
    assert_eq!(state.cursor, 1);
    press(&mut state, KeyCode::Char('/'));
    assert!(matches!(state.mode, Mode::Search));
    press(&mut state, KeyCode::Char('b'));
    assert_eq!(state.search_query, "b");
    press(&mut state, KeyCode::Enter);
    assert_eq!(state.mode, Mode::List);
    assert_eq!(state.cursor, 1);
}

#[test]
fn copy_and_open_keys_hand_out_the_selected_issue() {
    let mut state = AppState::new(vec![issue(5, "five")], vec![]);
    match press(&mut state, KeyCode::Char('Y')) {
        Effect::Copy(text) => assert_eq!(text, "[#5: five](https://example.com/5)"),
        _ => panic!("expected a copy"),
    }
    match handle_key(
        &mut state,
        KeyPress {
            code: KeyCode::Char('y'),
            ctrl: true,
        },
        no_edit(),
    ) {
        Effect::Copy(text) => assert_eq!(text, "https://example.com/5"),
        _ => panic!("expected a copy"),
    }
    match press(&mut state, KeyCode::Char('o')) {
        Effect::Open(url) => assert_eq!(url, "https://example.com/5"),
        _ => panic!("expected an open"),
    }
    assert!(matches!(press(&mut state, KeyCode::Char('r')), Effect::Refresh));
    let mut empty = AppState::new(vec![], vec![]);
    assert!(matches!(press(&mut empty, KeyCode::Char('y')), Effect::Stay));
}

#[test]
fn submitting_the_form_sends_a_create_and_keeps_the_form_visible() {
    let mut state = AppState::new(vec![], vec![]);
    press(&mut state, KeyCode::Char('C'));
    press(&mut state, KeyCode::Char('T'));
    let effect = handle_key(
        &mut state,
        KeyPress {
            code: KeyCode::Char('s'),
            ctrl: true,
        },
        no_edit(),
    );
    match effect {
        Effect::Mutate(MutationRequest::Create(c), MutationDraft::Form(draft)) => {
            assert_eq!(c.title, "T");
            assert_eq!(c.body, "");
            assert_eq!(draft.title_text(), "T");
        }
        _ => panic!("expected a create"),
    }
    assert!(state.is_pending());
    assert_eq!(form_title(&state), "T");
    // a second submission while the first is under way does nothing
    assert!(matches!(
        handle_key(
            &mut state,
            KeyPress {
                code: KeyCode::Char('s'),
                ctrl: true,
            },
            no_edit(),
        ),
        Effect::Stay
    ));
}

#[test]
fn closing_asks_then_sends_the_close() {
    let mut state = AppState::new(vec![issue(9, "close me")], vec![]);
    press(&mut state, KeyCode::Char('x'));
    assert!(matches!(state.mode, Mode::ConfirmClose(9)));
    match press(&mut state, KeyCode::Char('y')) {
        Effect::Mutate(MutationRequest::Close(9), MutationDraft::Nothing) => {}
        _ => panic!("expected a close"),
    }
    assert_eq!(state.mode, Mode::List);
    assert_eq!(
        state.pending.as_ref().map(|p| p.operation),
        Some(PendingOperation::CloseIssue)
    );
    // while it is under way the list can still be browsed
    assert!(matches!(press(&mut state, KeyCode::Char('h')), Effect::Stay));
    assert!(!state.pane_open);
    assert!(matches!(press(&mut state, KeyCode::Char('/')), Effect::Stay));
    assert_eq!(state.mode, Mode::List);
}

#[test]
fn keys_during_the_first_load_only_quit() {
    let mut state = AppState::loading();
    assert!(matches!(press(&mut state, KeyCode::Char('j')), Effect::Stay));
    assert!(matches!(press(&mut state, KeyCode::Esc), Effect::Quit));
}

#[test]
fn quick_create_in_the_picker_sends_the_trimmed_title() {
    let mut state = AppState::new(vec![], vec![]);
    press(&mut state, KeyCode::Char('c'));
    for c in " Fix it ".chars() {
        press(&mut state, KeyCode::Char(c));
    }
    match press(&mut state, KeyCode::Enter) {
        Effect::Mutate(MutationRequest::Create(c), MutationDraft::Nothing) => {
            assert_eq!(c.title, "Fix it");
            assert!(c.labels.is_empty());
        }
        _ => panic!("expected a create"),
    }
    assert_eq!(state.mode, Mode::List);
}

#[test]
fn open_target_and_finish_open_report_the_address() {
    let mut state = AppState::new(vec![issue(3, "three")], vec![]);
    let url = open_target(&state).unwrap();
    finish_open(&mut state, &url, Ok(()));
    assert_eq!(status(&state), "opened: https://example.com/3");
    finish_open(&mut state, &url, Err("no browser".to_string()));
    assert_eq!(status(&state), "failed to open: no browser");
}

#[test]
fn token_hint_is_added_to_access_errors_when_the_token_is_set() {
    let mut state = AppState::loading();
    finish_initial_load(&mut state, Err("HTTP 403 forbidden".to_string()), true);
    assert_eq!(
        status(&state),
        "gh error: HTTP 403 forbidden (GITHUB_TOKEN is set; try env -u GITHUB_TOKEN boomerang)"
    );
}

#[test]
fn capture_prompt_keeps_the_title_on_screen_while_it_is_sent() {
    let mut state = AppState::new(vec![], vec![]);
    state.enter_little_create();
    for c in "Bug".chars() {
        capture_key(&mut state, key(KeyCode::Char(c)));
    }
    match capture_key(&mut state, key(KeyCode::Enter)) {
        Effect::Mutate(MutationRequest::Create(c), _) => assert_eq!(c.title, "Bug"),
        _ => panic!("expected a create"),
    }
    assert!(matches!(&state.mode, Mode::LittleCreate(t) if t == "Bug"));
    assert!(state.is_pending());
    assert!(!finish_capture(&mut state, Err("boom".to_string()), false));
    assert!(!state.is_pending());
    assert_eq!(status(&state), "gh error: boom");
    assert!(matches!(capture_key(&mut state, key(KeyCode::Esc)), Effect::Quit));
    assert!(finish_capture(&mut state, Ok(()), false));
}

#[test]
fn capture_full_form_opens_with_labels_and_leaves_on_cancel() {
    let mut state = AppState::new(vec![], vec![]);
    state.begin_loading("labels");
    assert!(matches!(
        capture_full_key(&mut state, key(KeyCode::Char('a')), char_edit('a')),
        Effect::Stay
    ));
    labels_loaded(
        &mut state,
        vec![Label {
            name: "bug".into(),
            color: "d73a4a".into(),
        }],
    );
    assert!(!state.is_loading());
    match &state.mode {
        Mode::Form(form) => {
            assert_eq!(form.all_label_names, vec!["bug".to_string()]);
            assert_eq!(form.field, FormField::Title);
        }
        other => panic!("expected Form mode, got {other:?}"),
    }
    assert!(matches!(
        capture_full_key(&mut state, key(KeyCode::Esc), no_edit()),
        Effect::Quit
    ));
}

#[test]
fn capture_full_form_submits_a_create_with_the_checked_labels() {
    let mut state = AppState::new(vec![], vec![]);
    labels_loaded(
        &mut state,
        vec![Label {
            name: "bug".into(),
            color: "d73a4a".into(),
        }],
    );
    capture_full_key(&mut state, key(KeyCode::Char('T')), char_edit('T'));
    capture_full_key(&mut state, key(KeyCode::Tab), no_edit());
    capture_full_key(&mut state, key(KeyCode::Tab), no_edit());
    capture_full_key(&mut state, key(KeyCode::Char(' ')), char_edit(' '));
    capture_full_key(&mut state, key(KeyCode::Tab), no_edit());
    match capture_full_key(&mut state, key(KeyCode::Enter), no_edit()) {
        Effect::Mutate(MutationRequest::Create(c), MutationDraft::Nothing) => {
            assert_eq!(c.title, "T");
            assert_eq!(c.labels, vec!["bug".to_string()]);
        }
        _ => panic!("expected a create"),
    }
    assert!(state.is_pending());
    assert_eq!(form_title(&state), "T");
}

#[test]
fn a_failed_submission_puts_the_typed_form_back() {
    let mut state = AppState::new(vec![], vec![]);
    press(&mut state, KeyCode::Char('C'));
    for c in "Title".chars() {
        press(&mut state, KeyCode::Char(c));
    }
    let draft = match handle_key(
        &mut state,
        KeyPress {
            code: KeyCode::Char('s'),
            ctrl: true,
        },
        no_edit(),
    ) {
        Effect::Mutate(_, draft) => draft,
        _ => panic!("expected a change"),
    };
    state.mode = Mode::List;
    finish_mutation(&mut state, Some(draft), Err("offline".to_string()), false);
    assert!(!state.is_pending());
    assert_eq!(form_title(&state), "Title");
    assert_eq!(status(&state), "gh error: offline");
}

#[test]
fn comma_opens_settings_and_a_toggle_asks_to_store_them() {
    let mut state = AppState::new(vec![issue(1, "one")], vec![]);
    assert!(matches!(press(&mut state, KeyCode::Char(',')), Effect::Stay));
    assert_eq!(state.mode, Mode::Settings);
    assert!(matches!(press(&mut state, KeyCode::Enter), Effect::SaveSettings));
    assert!(state.exit_on_copy_yank);
    assert!(matches!(press(&mut state, KeyCode::Char('j')), Effect::Stay));
    assert!(matches!(press(&mut state, KeyCode::Char(' ')), Effect::SaveSettings));
    assert!(!state.zebra_striping);
    assert!(matches!(press(&mut state, KeyCode::Esc), Effect::Stay));
    assert_eq!(state.mode, Mode::List);
}

#[test]
fn a_key_skips_triage() {
    let mut state = AppState::new(vec![], vec![]);
    press(&mut state, KeyCode::Char('a'));
    assert_eq!(state.state_filter, boomerang::gh::StateFilter::Closed);
}

#[test]
fn finish_mutation_starts_flash_for_edit_target() {
    let mut state = AppState::new(vec![issue(1, "one"), issue(2, "two")], vec![]);
    finish_mutation(
        &mut state,
        None,
        Ok(Mutated {
            operation: PendingOperation::EditIssue,
            issues: vec![issue(1, "one"), issue(2, "two")],
            action_took: "1ms".to_string(),
            refresh_took: "1ms".to_string(),
            target_issue: Some(2),
        }),
        false,
    );
    assert_eq!(
        state.flash.map(|(number, _)| number),
        Some(2),
        "edit success should start a flash on the target issue"
    );
}

#[test]
fn finish_mutation_starts_flash_for_create_target() {
    let mut state = AppState::new(vec![issue(1, "one")], vec![]);
    finish_mutation(
        &mut state,
        None,
        Ok(Mutated {
            operation: PendingOperation::CreateIssue,
            issues: vec![issue(1, "one"), issue(42, "Created issue")],
            action_took: "1ms".to_string(),
            refresh_took: "1ms".to_string(),
            target_issue: Some(42),
        }),
        false,
    );
    assert_eq!(
        state.flash.map(|(number, _)| number),
        Some(42),
        "create success should start a flash on the newly created issue"
    );
    assert_eq!(state.selected_issue().map(|i| i.number), Some(42));
}

#[test]
fn finish_mutation_does_not_flash_when_there_is_no_target_issue() {
    let mut state = AppState::new(vec![issue(1, "one")], vec![]);
    finish_mutation(
        &mut state,
        None,
        Ok(Mutated {
            operation: PendingOperation::CloseIssue,
            issues: vec![],
            action_took: "1ms".to_string(),
            refresh_took: "1ms".to_string(),
            target_issue: None,
        }),
        false,
    );
    assert_eq!(
        state.flash, None,
        "close success has no target issue, so nothing should flash"
    );
}

#[test]
fn a_target_missing_from_the_new_list_selects_the_first_row() {
    let mut state = AppState::new(vec![issue(1, "one"), issue(2, "two")], vec![]);
    state.cursor = 1;
    finish_mutation(
        &mut state,
        None,
        Ok(Mutated {
            operation: PendingOperation::EditIssue,
            issues: vec![issue(1, "one"), issue(2, "two")],
            action_took: "1ms".to_string(),
            refresh_took: "1ms".to_string(),
            target_issue: Some(9),
        }),
        false,
    );
    assert_eq!(state.cursor, 0);
    assert_eq!(state.flash.map(|(number, _)| number), Some(9));
}

#[test]
fn refresh_key_shows_the_reload_under_way_and_holds_other_keys() {
    let mut state = AppState::new(vec![issue(1, "one"), issue(2, "two")], vec![]);
    assert!(matches!(press(&mut state, KeyCode::Char('r')), Effect::Refresh));
    assert!(state.is_pending());
    assert!(state.pending_message().unwrap().ends_with(" Refreshing issues..."));
    assert!(matches!(press(&mut state, KeyCode::Char('r')), Effect::Stay));
    assert!(matches!(press(&mut state, KeyCode::Char('c')), Effect::Stay));
    assert_eq!(state.mode, Mode::List);
    press(&mut state, KeyCode::Char('j'));
    assert_eq!(state.cursor, 1);
    finish_refresh(
        &mut state,
        Ok(Reloaded {
            issues: vec![issue(1, "one")],
            labels: vec![],
            took: "5ms".to_string(),
        }),
        false,
    );
    assert!(!state.is_pending());
}
