use boomerang::gh::StateFilter;
use boomerang::model::{
    AppState, FormField, Issue, IssueState, Label, LoadingAnimation, Mode, PendingOperation,
    FLASH_MS, STATUS_TOAST_MS,
};
use ratatui_textarea::{Input, Key};
use std::time::{Duration, Instant};

fn issue(number: u32, title: &str) -> Issue {
    Issue {
        number,
        title: title.into(),
        body: String::new(),
        labels: vec![],
        state: IssueState::Open,
        url: format!("https://example.com/{number}"),
        created_at: "2026-01-01T00:00:00Z".into(),
    }
}

fn label(name: &str, color: &str) -> Label {
    Label {
        name: name.into(),
        color: color.into(),
    }
}

fn press(state: &mut AppState, key: Key) {
    state.form_input(Input {
        key,
        ctrl: false,
        alt: false,
        shift: false,
    });
}

fn press_ctrl(state: &mut AppState, key: Key) {
    state.form_input(Input {
        key,
        ctrl: true,
        alt: false,
        shift: false,
    });
}

fn type_str(state: &mut AppState, s: &str) {
    for c in s.chars() {
        press(state, Key::Char(c));
    }
}

fn title_cursor(state: &AppState) -> (usize, usize) {
    match &state.mode {
        Mode::Form(form) => {
            let c = form.title_input.area.cursor();
            (c.0, c.1)
        }
        other => panic!("expected Form mode, got {other:?}"),
    }
}

fn body_cursor(state: &AppState) -> (usize, usize) {
    match &state.mode {
        Mode::Form(form) => {
            let c = form.body_input.area.cursor();
            (c.0, c.1)
        }
        other => panic!("expected Form mode, got {other:?}"),
    }
}

fn title_text(state: &AppState) -> String {
    match &state.mode {
        Mode::Form(form) => form.title_text(),
        other => panic!("expected Form mode, got {other:?}"),
    }
}

fn body_text(state: &AppState) -> String {
    match &state.mode {
        Mode::Form(form) => form.body_text(),
        other => panic!("expected Form mode, got {other:?}"),
    }
}

fn form_field(state: &AppState) -> FormField {
    match &state.mode {
        Mode::Form(form) => form.field,
        other => panic!("expected Form mode, got {other:?}"),
    }
}

fn has_selected(state: &AppState, name: &str) -> bool {
    match &state.mode {
        Mode::Form(form) => form.selected_labels.iter().any(|l| l == name),
        other => panic!("expected Form mode, got {other:?}"),
    }
}

#[test]
fn move_cursor_wraps_around() {
    let mut state = AppState::new(vec![issue(1, "a"), issue(2, "b")], vec![]);
    state.move_cursor(-1);
    assert_eq!(state.cursor, 1, "moving up from 0 wraps to the last row");
    state.move_cursor(1);
    assert_eq!(state.cursor, 0);
}

#[test]
fn search_filters_and_ranks_by_title() {
    let mut state = AppState::new(
        vec![issue(1, "a pretty big input"), issue(2, "api gateway")],
        vec![],
    );
    state.enter_search();
    state.search_push('a');
    state.search_push('p');
    state.search_push('i');
    assert_eq!(
        state.search_ranked.first().copied(),
        Some(1),
        "consecutive prefix match ranks first"
    );
}

#[test]
fn exit_search_parks_cursor_on_matched_issue() {
    let mut state = AppState::new(vec![issue(1, "alpha"), issue(2, "beta")], vec![]);
    state.enter_search();
    state.search_push('b');
    assert_eq!(state.cursor, 0, "only match is at ranked position 0");
    state.exit_search();
    assert_eq!(
        state.cursor, 1,
        "cursor lands on issue 2's absolute index in the full list"
    );
    assert_eq!(state.mode, Mode::List);
}

#[test]
fn search_delete_word_removes_last_word() {
    let mut state = AppState::new(vec![issue(1, "fix login error")], vec![]);
    state.enter_search();
    for c in "fix login".chars() {
        state.search_push(c);
    }
    assert_eq!(state.search_query, "fix login");
    state.search_delete_word();
    assert_eq!(state.search_query, "fix ");
}

#[test]
fn search_clear_empties_query() {
    let mut state = AppState::new(vec![issue(1, "test")], vec![]);
    state.enter_search();
    for c in "test query".chars() {
        state.search_push(c);
    }
    assert_eq!(state.search_query, "test query");
    state.search_clear();
    assert_eq!(state.search_query, "");
    assert_eq!(
        state.search_ranked.len(),
        1,
        "resets ranking to show all issues"
    );
}

#[test]
fn little_create_submit_returns_trimmed_title_and_resets_mode() {
    let mut state = AppState::new(vec![], vec![]);
    state.enter_little_create();
    for c in "  Fix the bug  ".chars() {
        state.little_create_push(c);
    }
    let submitted = state.little_create_submit();
    assert_eq!(submitted, Some("Fix the bug".to_string()));
    assert_eq!(state.mode, Mode::List);
}

#[test]
fn little_create_submit_rejects_blank_title() {
    let mut state = AppState::new(vec![], vec![]);
    state.enter_little_create();
    state.little_create_push(' ');
    assert_eq!(state.little_create_submit(), None);
    assert!(
        matches!(state.mode, Mode::LittleCreate(_)),
        "stays in create mode on blank submit"
    );
}

#[test]
fn enter_edit_prefills_form_from_selected_issue() {
    let mut issue1 = issue(1, "Fix bug");
    issue1.body = "steps to repro".into();
    issue1.labels = vec![label("bug", "d73a4a")];
    let mut state = AppState::new(
        vec![issue1],
        vec![label("bug", "d73a4a"), label("docs", "0075ca")],
    );
    state.enter_edit();
    match &state.mode {
        Mode::Form(form) => {
            assert_eq!(form.editing, Some(1));
            assert_eq!(form.title_text(), "Fix bug");
            assert_eq!(form.body_text(), "steps to repro");
            assert!(form.selected_labels.iter().any(|l| l == "bug"));
            assert_eq!(
                form.all_label_names,
                vec!["bug".to_string(), "docs".to_string()]
            );
        }
        other => panic!("expected Form mode, got {other:?}"),
    }
}

#[test]
fn form_toggle_label_only_applies_when_labels_field_focused() {
    let mut state = AppState::new(vec![], vec![label("bug", "d73a4a")]);
    state.enter_big_create();
    state.form_toggle_label(); // field is Title, should be ignored
    if let Mode::Form(form) = &state.mode {
        assert!(form.selected_labels.is_empty());
    }
    state.form_next_field(); // Body
    state.form_next_field(); // Labels
    state.form_toggle_label();
    assert!(has_selected(&state, "bug"));
}

#[test]
fn tab_cycle_now_includes_submit_after_labels() {
    let mut state = AppState::new(vec![], vec![]);
    state.enter_big_create();
    state.form_next_field(); // Body
    state.form_next_field(); // Labels
    state.form_next_field(); // Submit
    assert_eq!(form_field(&state), FormField::Submit);
    state.form_next_field(); // wraps back to Title
    assert_eq!(form_field(&state), FormField::Title);
}

#[test]
fn shift_tab_from_title_reaches_submit() {
    let mut state = AppState::new(vec![], vec![]);
    state.enter_big_create();
    state.form_prev_field();
    assert_eq!(form_field(&state), FormField::Submit);
}

#[test]
fn new_form_state_starts_cursor_at_end_of_existing_text() {
    let mut issue1 = issue(1, "Fix bug");
    issue1.body = "line one".to_string();
    let mut state = AppState::new(vec![issue1], vec![]);
    state.enter_edit();
    assert_eq!(title_cursor(&state), (0, "Fix bug".chars().count()));
    assert_eq!(body_cursor(&state), (0, "line one".chars().count()));
}

#[test]
fn form_input_inserts_at_cursor_not_always_at_end() {
    let mut state = AppState::new(vec![], vec![]);
    state.enter_big_create();
    type_str(&mut state, "foo");
    press(&mut state, Key::Left); // between the two 'o's
    press(&mut state, Key::Char('X'));
    assert_eq!(title_text(&state), "foXo");
    assert_eq!(title_cursor(&state), (0, 3));
}

#[test]
fn form_input_backspace_deletes_char_before_cursor_not_always_last_char() {
    let mut state = AppState::new(vec![], vec![]);
    state.enter_big_create();
    type_str(&mut state, "foo");
    press(&mut state, Key::Left);
    press(&mut state, Key::Backspace);
    assert_eq!(title_text(&state), "fo");
    assert_eq!(title_cursor(&state), (0, 1));
}

#[test]
fn form_input_backspace_at_start_of_field_is_a_no_op() {
    let mut state = AppState::new(vec![], vec![]);
    state.enter_big_create();
    type_str(&mut state, "a");
    press(&mut state, Key::Home);
    press(&mut state, Key::Backspace);
    assert_eq!(title_text(&state), "a");
    assert_eq!(title_cursor(&state), (0, 0));
}

#[test]
fn cursor_home_and_end_on_title_go_to_field_boundaries() {
    let mut state = AppState::new(vec![], vec![]);
    state.enter_big_create();
    type_str(&mut state, "hello");
    press(&mut state, Key::Home);
    assert_eq!(title_cursor(&state), (0, 0));
    press(&mut state, Key::End);
    assert_eq!(title_cursor(&state), (0, 5));
}

#[test]
fn cursor_home_and_end_on_body_are_scoped_to_current_line() {
    let mut state = AppState::new(vec![], vec![]);
    state.enter_big_create();
    state.form_next_field(); // Body
    type_str(&mut state, "one\ntwo");
    press(&mut state, Key::Home);
    assert_eq!(
        body_cursor(&state),
        (1, 0),
        "home should land at the start of the current line, not the start of the buffer"
    );
    press(&mut state, Key::End);
    assert_eq!(
        body_cursor(&state),
        (1, 3),
        "end should land at the end of the current line"
    );
}

#[test]
fn vertical_movement_preserves_column_across_explicit_lines() {
    let mut state = AppState::new(vec![], vec![]);
    state.enter_big_create();
    state.form_next_field(); // Body
    type_str(&mut state, "abcdef\nxy");
    press(&mut state, Key::Up);
    assert_eq!(body_cursor(&state), (0, 2));
}

#[test]
fn vertical_movement_clamps_to_shorter_line_length() {
    let mut state = AppState::new(vec![], vec![]);
    state.enter_big_create();
    state.form_next_field(); // Body
    type_str(&mut state, "abcdef\nxy");
    press(&mut state, Key::Up);
    press(&mut state, Key::Right);
    press(&mut state, Key::Right);
    press(&mut state, Key::Right); // (0, 5)
    press(&mut state, Key::Down); // "xy" is only 2 chars long
    assert_eq!(body_cursor(&state), (1, 2));
}

#[test]
fn vertical_movement_is_a_no_op_past_first_or_last_line() {
    let mut state = AppState::new(vec![], vec![]);
    state.enter_big_create();
    state.form_next_field(); // Body
    type_str(&mut state, "only one line");
    press(&mut state, Key::Up);
    press(&mut state, Key::Down);
    assert_eq!(body_cursor(&state), (0, "only one line".chars().count()));
}

#[test]
fn vertical_movement_on_title_is_a_no_op() {
    let mut state = AppState::new(vec![], vec![]);
    state.enter_big_create();
    type_str(&mut state, "a");
    press(&mut state, Key::Up);
    assert_eq!(title_cursor(&state), (0, 1));
}

#[test]
fn form_input_ctrl_w_deletes_word_immediately_before_cursor() {
    let mut state = AppState::new(vec![], vec![]);
    state.enter_big_create();
    type_str(&mut state, "fix the bug");
    press_ctrl(&mut state, Key::Char('w'));
    assert_eq!(title_text(&state), "fix the ");
    assert_eq!(title_cursor(&state), (0, 8));
}

#[test]
fn form_input_ctrl_w_skips_trailing_spaces_before_the_word() {
    let mut state = AppState::new(vec![], vec![]);
    state.enter_big_create();
    type_str(&mut state, "fix   ");
    press_ctrl(&mut state, Key::Char('w'));
    assert_eq!(title_text(&state), "");
    assert_eq!(title_cursor(&state), (0, 0));
}

#[test]
fn form_input_ctrl_w_in_body_does_not_cross_a_newline() {
    let mut state = AppState::new(vec![], vec![]);
    state.enter_big_create();
    state.form_next_field(); // Body
    type_str(&mut state, "one\ntwo");
    press_ctrl(&mut state, Key::Char('w'));
    assert_eq!(body_text(&state), "one\n");
}

#[test]
fn form_input_ctrl_j_clears_to_line_start_on_title() {
    let mut state = AppState::new(vec![], vec![]);
    state.enter_big_create();
    type_str(&mut state, "hello world");
    for _ in 0..5 {
        press(&mut state, Key::Left);
    }
    press_ctrl(&mut state, Key::Char('j'));
    assert_eq!(title_text(&state), "world");
    assert_eq!(title_cursor(&state), (0, 0));
}

#[test]
fn form_input_ctrl_j_on_body_is_scoped_to_current_line() {
    let mut state = AppState::new(vec![], vec![]);
    state.enter_big_create();
    state.form_next_field(); // Body
    type_str(&mut state, "one\ntwo");
    press_ctrl(&mut state, Key::Char('j'));
    assert_eq!(body_text(&state), "one\n");
    assert_eq!(body_cursor(&state), (1, 0));
}

#[test]
fn form_input_ctrl_u_then_ctrl_r_is_undo_then_redo() {
    let mut state = AppState::new(vec![], vec![]);
    state.enter_big_create();
    type_str(&mut state, "a");
    press_ctrl(&mut state, Key::Char('u'));
    assert_eq!(title_text(&state), "", "Ctrl+U undoes the last insertion");
    press_ctrl(&mut state, Key::Char('r'));
    assert_eq!(title_text(&state), "a", "Ctrl+R redoes it");
}

#[test]
fn form_input_cursor_tracks_correctly_through_a_soft_wrapped_body_line() {
    let mut state = AppState::new(vec![], vec![]);
    state.enter_big_create();
    state.form_next_field(); // Body
    let long_text = "word ".repeat(40);
    type_str(&mut state, long_text.trim_end());
    assert_eq!(
        body_cursor(&state),
        (0, long_text.trim_end().chars().count()),
        "still logically one line/row, no explicit newline was typed"
    );
}

#[test]
fn form_enter_on_title_advances_to_body_without_submitting() {
    let mut state = AppState::new(vec![], vec![]);
    state.enter_big_create();
    assert_eq!(state.form_enter(), None);
    assert_eq!(form_field(&state), FormField::Body);
}

#[test]
fn form_enter_on_labels_advances_to_submit() {
    let mut state = AppState::new(vec![], vec![label("bug", "d73a4a")]);
    state.enter_big_create();
    type_str(&mut state, "T");
    state.form_next_field();
    type_str(&mut state, "B");
    state.form_next_field();
    state.form_toggle_label();
    assert_eq!(
        state.form_enter(),
        None,
        "Enter on Labels should advance, not submit"
    );
    assert_eq!(form_field(&state), FormField::Submit);
}

#[test]
fn form_enter_on_submit_builds_submission_and_returns_to_list() {
    let mut state = AppState::new(vec![], vec![label("bug", "d73a4a")]);
    state.enter_big_create();
    type_str(&mut state, "T");
    state.form_next_field();
    type_str(&mut state, "B");
    state.form_next_field();
    state.form_toggle_label();
    state.form_next_field(); // Submit
    let submission = state
        .form_enter()
        .expect("submit field submits on enter");
    assert_eq!(submission.editing, None);
    assert_eq!(submission.title, "T");
    assert_eq!(submission.body, "B");
    assert_eq!(submission.add_labels, vec!["bug".to_string()]);
    assert!(submission.remove_labels.is_empty());
    assert_eq!(state.mode, Mode::List);
}

#[test]
fn form_submit_now_submits_regardless_of_focused_field() {
    let mut state = AppState::new(vec![], vec![label("bug", "d73a4a")]);
    state.enter_big_create();
    type_str(&mut state, "T");
    state.form_next_field();
    type_str(&mut state, "B");
    let submission = state
        .form_submit_now()
        .expect("Ctrl+S submits from any field");
    assert_eq!(submission.title, "T");
    assert_eq!(submission.body, "B");
    assert_eq!(state.mode, Mode::List);
}

#[test]
fn form_enter_while_editing_diffs_labels_against_original() {
    let mut issue1 = issue(1, "Fix bug");
    issue1.labels = vec![label("bug", "d73a4a"), label("keep", "0075ca")];
    let all_labels = vec![
        label("bug", "d73a4a"),
        label("keep", "0075ca"),
        label("docs", "0075ca"),
    ];
    let mut state = AppState::new(vec![issue1], all_labels);
    state.enter_edit();
    state.form_next_field(); // Body
    state.form_next_field(); // Labels, cursor starts at 0 ("bug")
    state.form_toggle_label(); // toggle "bug" off
    state.form_move_label_cursor(2); // to "docs"
    state.form_toggle_label(); // toggle "docs" on
    state.form_next_field(); // Submit
    let submission = state.form_enter().unwrap();
    assert_eq!(submission.editing, Some(1));
    assert_eq!(submission.add_labels, vec!["docs".to_string()]);
    assert_eq!(submission.remove_labels, vec!["bug".to_string()]);
}

#[test]
fn cancel_on_clean_form_returns_directly_to_list() {
    let mut state = AppState::new(vec![], vec![]);
    state.enter_big_create();
    state.cancel_form_or_create();
    assert_eq!(state.mode, Mode::List);
}

#[test]
fn cancel_on_dirty_form_asks_for_confirmation() {
    let mut state = AppState::new(vec![], vec![]);
    state.enter_big_create();
    type_str(&mut state, "T");
    state.cancel_form_or_create();
    assert!(
        matches!(state.mode, Mode::ConfirmDiscard(_)),
        "typed title should be treated as dirty"
    );
}

#[test]
fn cancel_on_dirty_form_via_label_toggle_asks_for_confirmation() {
    let mut state = AppState::new(vec![], vec![label("bug", "d73a4a")]);
    state.enter_big_create();
    state.form_next_field(); // Body
    state.form_next_field(); // Labels
    state.form_toggle_label();
    state.cancel_form_or_create();
    assert!(
        matches!(state.mode, Mode::ConfirmDiscard(_)),
        "a checked label box should be treated as dirty"
    );
}

#[test]
fn confirm_discard_yes_abandons_changes_and_returns_to_list() {
    let mut state = AppState::new(vec![], vec![]);
    state.enter_big_create();
    type_str(&mut state, "T");
    state.cancel_form_or_create();
    state.confirm_discard_yes();
    assert_eq!(state.mode, Mode::List);
}

#[test]
fn confirm_discard_no_restores_the_in_progress_form() {
    let mut state = AppState::new(vec![], vec![]);
    state.enter_big_create();
    type_str(&mut state, "T");
    state.cancel_form_or_create();
    state.confirm_discard_no();
    match &state.mode {
        Mode::Form(form) => assert_eq!(form.title_text(), "T"),
        other => panic!(
            "expected to return to Form mode with typed content intact, got {other:?}"
        ),
    }
}

#[test]
fn cancel_on_dirty_little_create_asks_for_confirmation() {
    let mut state = AppState::new(vec![], vec![]);
    state.enter_little_create();
    state.little_create_push('F');
    state.cancel_form_or_create();
    assert!(matches!(state.mode, Mode::ConfirmDiscard(_)));
    state.confirm_discard_no();
    assert_eq!(state.mode, Mode::LittleCreate("F".to_string()));
}

#[test]
fn cancel_on_blank_little_create_returns_directly_to_list() {
    let mut state = AppState::new(vec![], vec![]);
    state.enter_little_create();
    state.cancel_form_or_create();
    assert_eq!(state.mode, Mode::List);
}

#[test]
fn editing_an_issue_without_changes_is_not_dirty() {
    let mut issue1 = issue(1, "Fix bug");
    issue1.labels = vec![label("bug", "d73a4a")];
    let mut state = AppState::new(vec![issue1], vec![label("bug", "d73a4a")]);
    state.enter_edit();
    state.cancel_form_or_create();
    assert_eq!(
        state.mode,
        Mode::List,
        "re-opening an edit form unchanged should not be considered dirty"
    );
}

#[test]
fn confirm_close_flow() {
    let mut state = AppState::new(vec![issue(9, "close me")], vec![]);
    state.request_close();
    assert_eq!(state.mode, Mode::ConfirmClose(9));
    assert_eq!(state.confirm_close_yes(), Some(9));
    assert_eq!(state.mode, Mode::List);
}

#[test]
fn confirm_close_no_returns_to_list_without_closing() {
    let mut state = AppState::new(vec![issue(9, "close me")], vec![]);
    state.request_close();
    state.confirm_close_no();
    assert_eq!(state.mode, Mode::List);
}

#[test]
fn fresh_status_survives_expiry_check() {
    let mut state = AppState::new(vec![], vec![]);
    state.set_status("copied: #1".to_string());
    state.clear_expired_status();
    assert!(
        state.status.is_some(),
        "a just-set status hasn't reached the toast duration yet"
    );
}

#[test]
fn stale_status_is_cleared_by_expiry_check() {
    let mut state = AppState::new(vec![], vec![]);
    let toast = Duration::from_millis(STATUS_TOAST_MS as u64);
    let set_at = Instant::now() - toast - Duration::from_millis(1);
    state.status = Some(("copied: #1".to_string(), set_at));
    state.clear_expired_status();
    assert!(
        state.status.is_none(),
        "a status older than the toast duration should be cleared"
    );
}

#[test]
fn begin_create_pending_preserves_mode_and_reports_spinner_text() {
    let mut state = AppState::new(vec![], vec![]);
    state.enter_little_create();
    state.begin_pending(PendingOperation::CreateIssue);
    assert!(matches!(state.mode, Mode::LittleCreate(_)));
    assert!(state.is_pending());
    assert_eq!(
        state.pending.as_ref().map(|p| p.operation),
        Some(PendingOperation::CreateIssue)
    );
    assert!(state
        .pending_message()
        .unwrap()
        .contains("Creating issue..."));
}

#[test]
fn begin_edit_pending_preserves_mode_and_reports_spinner_text() {
    let mut state = AppState::new(vec![], vec![]);
    state.enter_big_create();
    state.begin_pending(PendingOperation::EditIssue);
    assert!(matches!(state.mode, Mode::Form(_)));
    assert!(state.is_pending());
    assert_eq!(
        state.pending.as_ref().map(|p| p.operation),
        Some(PendingOperation::EditIssue)
    );
    assert!(state
        .pending_message()
        .unwrap()
        .contains("Updating issue..."));
}

#[test]
fn begin_close_pending_reports_spinner_text() {
    let mut state = AppState::new(vec![], vec![]);
    state.begin_pending(PendingOperation::CloseIssue);
    assert!(state.is_pending());
    assert!(state.pending_message().unwrap().contains("Closing issue..."));
}

#[test]
fn finish_pending_clears_pending_state() {
    let mut state = AppState::new(vec![], vec![]);
    state.begin_pending(PendingOperation::CreateIssue);
    state.finish_pending();
    assert!(!state.is_pending());
    assert_eq!(state.pending_message(), None);
}

#[test]
fn loading_state_reports_message_and_selected_animation() {
    let state = AppState::loading();
    assert!(state.is_loading());
    assert!(state.loading.as_ref().is_some_and(|loading| matches!(
        loading.animation,
        LoadingAnimation::MatrixRain | LoadingAnimation::ColorRipple | LoadingAnimation::RainbowRipple
    )));
    assert!(state
        .loading_message()
        .expect("loading message")
        .contains("Loading issues..."));
}

#[test]
fn loading_message_uses_custom_what_label() {
    let mut state = AppState::new(vec![], vec![]);
    state.begin_loading("labels");
    assert!(state
        .loading_message()
        .expect("loading message")
        .contains("Loading labels..."));
}

#[test]
fn set_loaded_replaces_startup_data_and_clears_loading() {
    let loaded_issue = issue(7, "Loaded issue");
    let bug = label("bug", "d73a4a");
    let mut state = AppState::loading();
    state.set_loaded(vec![loaded_issue.clone()], vec![bug.clone()]);
    assert_eq!(state.issues, vec![loaded_issue]);
    assert_eq!(state.all_labels, vec![bug]);
    assert!(!state.is_loading());
    assert_eq!(state.loading_message(), None);
}

#[test]
fn loading_animation_parse_accepts_experiment_names() {
    assert_eq!(
        LoadingAnimation::parse("matrix-rain"),
        Some(LoadingAnimation::MatrixRain)
    );
    assert_eq!(
        LoadingAnimation::parse("bullseye"),
        Some(LoadingAnimation::ColorRipple)
    );
    assert_eq!(
        LoadingAnimation::parse("rainbow-ripple"),
        Some(LoadingAnimation::RainbowRipple)
    );
    assert_eq!(LoadingAnimation::parse("orbit"), None);
    assert_eq!(LoadingAnimation::parse("pipes"), None);
    assert_eq!(LoadingAnimation::parse("unknown"), None);
}

#[test]
fn toggle_pane_flips_the_flag_and_starts_open() {
    let mut state = AppState::new(vec![], vec![]);
    assert!(state.pane_open, "pane should be visible on a fresh AppState");
    state.toggle_pane();
    assert!(!state.pane_open);
    state.toggle_pane();
    assert!(state.pane_open);
}

#[test]
fn repo_name_with_owner_defaults_to_none() {
    let state = AppState::new(vec![], vec![]);
    assert_eq!(state.repo_name_with_owner, None);
}

// Further cases of the library's own.

#[test]
fn loading_animation_parse_ignores_case_and_surrounding_space() {
    assert_eq!(
        LoadingAnimation::parse("  Matrix \n"),
        Some(LoadingAnimation::MatrixRain)
    );
    assert_eq!(
        LoadingAnimation::parse("RINGS"),
        Some(LoadingAnimation::RainbowRipple)
    );
    assert_eq!(LoadingAnimation::parse(""), None);
}

#[test]
fn rotated_animation_takes_turns_by_the_millisecond() {
    assert_eq!(LoadingAnimation::rotated_at(0), LoadingAnimation::MatrixRain);
    assert_eq!(LoadingAnimation::rotated_at(4), LoadingAnimation::ColorRipple);
    assert_eq!(
        LoadingAnimation::rotated_at(5),
        LoadingAnimation::RainbowRipple
    );
}

#[test]
fn moving_the_cursor_on_an_empty_list_keeps_it_at_zero() {
    let mut state = AppState::new(vec![], vec![]);
    state.move_cursor(1);
    assert_eq!(state.cursor, 0);
    state.move_cursor(-1);
    assert_eq!(state.cursor, 0);
}

#[test]
fn visible_rows_are_the_whole_list_outside_search() {
    let mut closed = issue(2, "done");
    closed.state = IssueState::Closed;
    let mut state = AppState::new(vec![issue(1, "open"), closed], vec![]);
    assert_eq!(state.visible_indices(), vec![0, 1]);
    assert_eq!(state.cycle_state_filter(), StateFilter::Closed);
    assert_eq!(state.visible_indices(), vec![0, 1]);
    state.enter_search();
    state.search_push('d');
    assert_eq!(state.visible_indices(), vec![1]);
}

#[test]
fn pending_and_loading_messages_name_the_activity() {
    let mut state = AppState::new(vec![], vec![]);
    state.begin_pending(PendingOperation::CreateIssue);
    assert_eq!(
        state.pending_message_at(0),
        Some("| Creating issue...".to_string())
    );
    assert_eq!(
        state.pending_message_at(250),
        Some("- Creating issue...".to_string())
    );
    state.begin_loading("issues");
    assert!(state.loading_message_at(0).unwrap().contains("Loading issues..."));
}

#[test]
fn expire_status_keeps_a_message_younger_than_the_toast() {
    let mut state = AppState::new(vec![], vec![]);
    state.set_status("hello".to_string());
    state.expire_status(STATUS_TOAST_MS - 1);
    assert!(state.status.is_some());
    state.expire_status(STATUS_TOAST_MS);
    assert!(state.status.is_none());
}

#[test]
fn find_issue_and_selected_issue_follow_the_list() {
    let state = AppState::new(vec![issue(3, "c"), issue(5, "e")], vec![]);
    assert_eq!(state.find_issue(5).map(|i| i.title.clone()), Some("e".to_string()));
    assert!(state.find_issue(4).is_none());
    assert_eq!(state.selected_issue().map(|i| i.number), Some(3));
}

#[test]
fn little_create_backspace_removes_last_char() {
    let mut state = AppState::new(vec![], vec![]);
    state.enter_little_create();
    state.little_create_push('a');
    state.little_create_push('b');
    state.little_create_backspace();
    assert!(matches!(&state.mode, Mode::LittleCreate(title) if title == "a"));
}

#[test]
fn forms_with_the_same_text_but_different_cursors_differ() {
    let mut a = AppState::new(vec![], vec![]);
    a.enter_big_create();
    type_str(&mut a, "ab");
    let mut b = AppState::new(vec![], vec![]);
    b.enter_big_create();
    type_str(&mut b, "ab");
    assert_eq!(a.mode, b.mode);
    press(&mut b, Key::Left);
    assert_ne!(a.mode, b.mode);
    press(&mut b, Key::Right);
    assert_eq!(a.mode, b.mode);
}

#[test]
fn cycle_state_filter_advances_open_closed_all() {
    let mut state = AppState::new(vec![], vec![]);
    assert_eq!(state.cycle_state_filter(), StateFilter::Closed);
    assert_eq!(state.cycle_state_filter(), StateFilter::All);
    assert_eq!(state.cycle_state_filter(), StateFilter::Open);
}

#[test]
fn cycle_state_filter_leaves_triage_for_closed() {
    let mut state = AppState::new(vec![], vec![]);
    state.state_filter = StateFilter::Triage;
    assert_eq!(state.cycle_state_filter(), StateFilter::Closed);
    assert_eq!(state.state_filter, StateFilter::Closed);
}

#[test]
fn new_state_has_the_default_settings() {
    let state = AppState::new(vec![], vec![]);
    assert!(!state.exit_on_copy_yank);
    assert!(state.zebra_striping);
    assert_eq!(state.settings_cursor, 0);
}

#[test]
fn settings_cursor_wraps_round_the_two_rows() {
    let mut state = AppState::new(vec![], vec![]);
    state.enter_settings();
    assert_eq!(state.mode, Mode::Settings);
    assert_eq!(state.settings_cursor, 0);
    state.settings_move_cursor(1);
    assert_eq!(state.settings_cursor, 1);
    state.settings_move_cursor(1);
    assert_eq!(state.settings_cursor, 0);
    state.settings_move_cursor(-1);
    assert_eq!(state.settings_cursor, 1);
}

#[test]
fn settings_toggle_switches_the_row_under_the_cursor() {
    let mut state = AppState::new(vec![], vec![]);
    state.enter_settings();
    state.settings_toggle();
    assert!(state.exit_on_copy_yank);
    assert!(state.zebra_striping);
    state.settings_move_cursor(1);
    state.settings_toggle();
    assert!(state.exit_on_copy_yank);
    assert!(!state.zebra_striping);
    state.settings_toggle();
    assert!(state.zebra_striping);
    state.exit_settings();
    assert_eq!(state.mode, Mode::List);
}

#[test]
fn toggling_labels_never_lists_one_twice() {
    let mut state = AppState::new(
        vec![],
        vec![label("bug", "d73a4a"), label("docs", "0075ca")],
    );
    state.enter_big_create();
    state.form_next_field();
    state.form_next_field();
    for _ in 0..3 {
        state.form_toggle_label();
    }
    state.form_move_label_cursor(1);
    state.form_toggle_label();
    match &state.mode {
        Mode::Form(form) => {
            let mut names = form.selected_labels.clone();
            names.sort();
            assert_eq!(names, vec!["bug".to_string(), "docs".to_string()]);
        }
        other => panic!("expected Form mode, got {other:?}"),
    }
}

#[test]
fn launch_animation_defaults_to_matrix_rain() {
    assert_eq!(LoadingAnimation::for_launch(None), LoadingAnimation::MatrixRain);
    assert_eq!(
        LoadingAnimation::for_launch(Some(" Ripple ")),
        LoadingAnimation::ColorRipple
    );
    assert_eq!(
        LoadingAnimation::for_launch(Some("rainbow")),
        LoadingAnimation::RainbowRipple
    );
    assert_eq!(
        LoadingAnimation::for_launch(Some("sparkles")),
        LoadingAnimation::MatrixRain
    );
}

#[test]
fn loading_screen_starts_with_the_default_animation() {
    let state = AppState::loading();
    let loading = state.loading.as_ref().expect("loading");
    assert_eq!(loading.animation, LoadingAnimation::MatrixRain);
    assert_eq!(loading.what, "issues");
}

#[test]
fn flash_ends_after_its_duration() {
    let mut state = AppState::new(vec![issue(1, "one")], vec![]);
    state.start_flash(1);
    state.expire_flash(FLASH_MS - 1);
    assert_eq!(state.flash.map(|(n, _)| n), Some(1));
    state.expire_flash(FLASH_MS);
    assert!(state.flash.is_none());
}

#[test]
fn set_issues_selecting_puts_the_cursor_on_the_target() {
    let mut state = AppState::new(vec![], vec![]);
    state.set_issues_selecting(vec![issue(3, "a"), issue(8, "b")], Some(8));
    assert_eq!(state.cursor, 1);
    state.set_issues_selecting(vec![issue(3, "a"), issue(8, "b")], Some(5));
    assert_eq!(state.cursor, 0);
    state.set_issues_selecting(vec![issue(3, "a"), issue(8, "b")], None);
    assert_eq!(state.cursor, 0);
}
