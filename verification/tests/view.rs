use boomerang::model::{AppState, Issue, IssueState, Label};
use boomerang::view::{
    border_title, confirm_close_text, created_date, empty_list_message, format_repo_title, inset,
    label_items, label_palette_index, labels_width, list_header, list_row, little_create_footer,
    little_create_title, number_column, opened_line, pane_body, pane_title, framed_title,
    settings_rows, shortcuts_hint, striped_row, hint_segments, truncate_title, Area, Hint,
};
use boomerang::model::{FormState, Mode, PendingOperation};
use boomerang::gh::StateFilter;

fn issue(number: u32, title: &str) -> Issue {
    Issue {
        number,
        title: title.into(),
        body: String::new(),
        labels: vec![],
        state: IssueState::Open,
        url: format!("https://example.com/{number}"),
        created_at: "2026-01-01T00:00:00Z".into(),
    }
}

fn labels(names: &[&str]) -> Vec<Label> {
    names
        .iter()
        .map(|n| Label {
            name: n.to_string(),
            color: "ffffff".into(),
        })
        .collect()
}

#[test]
fn truncate_title_returns_unchanged_when_it_fits() {
    assert_eq!(truncate_title("Short title", 20), "Short title");
}

#[test]
fn truncate_title_returns_unchanged_at_exact_width() {
    assert_eq!(truncate_title("Exactly ten", 11), "Exactly ten");
}

#[test]
fn truncate_title_appends_ellipsis_when_too_long() {
    let title = "abcdefghijklmnopqrstuvwxyz";
    assert_eq!(truncate_title(title, 10), "abcdefg...");
}

#[test]
fn truncate_title_handles_tiny_width_without_panicking() {
    assert_eq!(truncate_title("Anything", 2), "..");
    assert_eq!(truncate_title("Anything", 0), "");
}

#[test]
fn truncate_title_counts_characters_not_bytes() {
    assert_eq!(truncate_title("héllo wörld", 8), "héllo...");
}

#[test]
fn format_repo_title_is_a_passthrough_today() {
    assert_eq!(format_repo_title("jeffdt/boomerang"), "jeffdt/boomerang");
}

#[test]
fn label_palette_color_is_deterministic_and_within_palette() {
    let all = labels(&["bug", "docs", "a", "b", "c", "d", "e"]);
    assert_eq!(label_palette_index(&all, "bug"), 0);
    assert_eq!(label_palette_index(&all, "docs"), 1);
    assert_eq!(label_palette_index(&all, "e"), 0, "seventh label wraps to the first colour");
    assert_eq!(label_palette_index(&all, "missing"), 0);
}

#[test]
fn inset_shrinks_and_never_collapses() {
    let area = Area { x: 0, y: 0, width: 80, height: 24 };
    assert_eq!(inset(area, 2), Area { x: 2, y: 2, width: 76, height: 20 });
    let tiny = Area { x: 5, y: 5, width: 3, height: 1 };
    assert_eq!(inset(tiny, 2), Area { x: 6, y: 5, width: 1, height: 1 });
}

#[test]
fn header_and_titles_read_as_the_screens_show_them() {
    assert_eq!(list_header(StateFilter::Closed, &None), "Issues (Closed)");
    assert_eq!(
        list_header(StateFilter::Open, &Some("| Closing issue...".to_string())),
        "Issues (Open)  | Closing issue..."
    );
    assert_eq!(
        empty_list_message(StateFilter::Triage),
        "No issues found for state filter Triage"
    );
    assert_eq!(border_title(&None), "issue-browser");
    assert_eq!(border_title(&Some("jeffdt/boomerang".into())), "jeffdt/boomerang");
    assert_eq!(little_create_title(&None), "New issue");
    assert_eq!(
        little_create_title(&Some("jeffdt/issue-browser".into())),
        "New issue in jeffdt/issue-browser"
    );
    assert_eq!(created_date("2026-06-01T12:00:00Z"), "2026-06-01");
}

#[test]
fn confirm_close_text_names_the_issue() {
    let state = AppState::new(vec![issue(9, "Close me")], vec![]);
    assert_eq!(confirm_close_text(&state, 9), "Close #9: Close me? (y/n)");
    assert_eq!(confirm_close_text(&state, 10), "Close #10: ? (y/n)");
}

#[test]
fn number_column_pads_to_six_so_titles_align() {
    assert_eq!(number_column(7), "#7    ");
    assert_eq!(number_column(12345), "#12345");
    assert_eq!(number_column(1234567), "#1234567");
}

#[test]
fn list_row_right_aligns_labels_and_truncates_the_title() {
    let mut short = issue(1, "Short");
    short.labels = labels(&["bug", "docs"]);
    assert_eq!(labels_width(&short.labels), 8);
    let row = list_row(&short, 40);
    assert_eq!(row.number, "#1    ");
    assert_eq!(row.title, "Short");
    assert_eq!(row.pad, 40 - 6 - 5 - 8);
    let mut long = issue(2, "A very long title that will not fit in the row");
    long.labels = labels(&["bug"]);
    let row = list_row(&long, 20);
    assert_eq!(row.title, "A very l...");
    assert_eq!(row.pad, 0);
    assert_eq!(row.number.chars().count() + row.title.chars().count() + row.pad + 3, 20);
    let plain = list_row(&issue(3, "No labels"), 40);
    assert_eq!(plain.pad, 0);
}

#[test]
fn shortcut_hints_follow_the_screen() {
    let mut state = AppState::new(vec![], vec![]);
    match shortcuts_hint(&state) {
        Hint::Keys(t) => assert!(t.starts_with("j/k move")),
        Hint::Plain(_) => panic!("expected shortcuts"),
    }
    state.enter_search();
    state.search_push('x');
    match shortcuts_hint(&state) {
        Hint::Plain(t) => assert_eq!(t, "/x"),
        Hint::Keys(_) => panic!("expected the query"),
    }
    state.exit_search();
    state.enter_big_create();
    match shortcuts_hint(&state) {
        Hint::Keys(t) => assert!(t.starts_with("tab/shift+tab field")),
        Hint::Plain(_) => panic!("expected shortcuts"),
    }
    state.begin_pending(PendingOperation::CreateIssue);
    match shortcuts_hint(&state) {
        Hint::Keys(t) => assert_eq!(t, "q quit"),
        Hint::Plain(_) => panic!("expected shortcuts"),
    }
}

#[test]
fn hint_segments_split_keys_from_descriptions() {
    let segments = hint_segments("enter create · esc cancel · q");
    assert_eq!(segments.len(), 3);
    assert_eq!(segments[0].key, "enter");
    assert_eq!(segments[0].desc.as_deref(), Some("create"));
    assert_eq!(segments[1].key, "esc");
    assert_eq!(segments[1].desc.as_deref(), Some("cancel"));
    assert_eq!(segments[2].key, "q");
    assert_eq!(segments[2].desc, None);
}

#[test]
fn little_create_footer_prefers_pending_then_status() {
    match little_create_footer(None, &None) {
        Hint::Keys(t) => assert_eq!(t, "enter create · esc cancel"),
        Hint::Plain(_) => panic!("expected shortcuts"),
    }
    let status = Some(("gh error: boom".to_string(), std::time::Instant::now()));
    match little_create_footer(None, &status) {
        Hint::Plain(t) => assert_eq!(t, "gh error: boom"),
        Hint::Keys(_) => panic!("expected the status"),
    }
    match little_create_footer(Some("| Creating issue...".to_string()), &status) {
        Hint::Plain(t) => assert_eq!(t, "| Creating issue..."),
        Hint::Keys(_) => panic!("expected the pending text"),
    }
}

#[test]
fn pane_texts_read_as_shown() {
    assert_eq!(pane_title(42), "#42");
    assert_eq!(framed_title("#42"), "‹ #42 ›");
    assert_eq!(opened_line("2026-01-01T00:00:00Z"), "opened 2026-01-01");
    assert_eq!(pane_body(""), "(no description)");
    assert_eq!(pane_body("steps"), "steps");
}

#[test]
fn label_items_show_check_boxes() {
    let mut state = AppState::new(vec![], labels(&["bug", "docs"]));
    state.enter_big_create();
    state.form_next_field();
    state.form_next_field();
    state.form_move_label_cursor(1);
    state.form_toggle_label();
    match &state.mode {
        Mode::Form(form) => {
            let form: &FormState = form;
            assert_eq!(label_items(form), vec!["[ ] bug".to_string(), "[x] docs".to_string()]);
        }
        _ => panic!("expected Form mode"),
    }
}

#[test]
fn distinct_labels_get_distinct_colors_within_palette_size() {
    let all = labels(&[
        "bug",
        "enhancement",
        "question",
        "documentation",
        "good first issue",
    ]);
    let slots: Vec<usize> = all
        .iter()
        .map(|l| label_palette_index(&all, &l.name))
        .collect();
    let unique: std::collections::HashSet<_> = slots.iter().collect();
    assert_eq!(
        unique.len(),
        slots.len(),
        "with fewer labels than palette colors, none should collide"
    );
}

#[test]
fn settings_rows_show_each_value() {
    let mut state = AppState::new(vec![], vec![]);
    assert_eq!(
        settings_rows(&state),
        vec![
            "Exit popup after copy/yank: Off".to_string(),
            "Zebra striping: On".to_string()
        ]
    );
    state.exit_on_copy_yank = true;
    state.zebra_striping = false;
    assert_eq!(
        settings_rows(&state),
        vec![
            "Exit popup after copy/yank: On".to_string(),
            "Zebra striping: Off".to_string()
        ]
    );
}

#[test]
fn settings_view_hint_names_its_keys() {
    let mut state = AppState::new(vec![], vec![]);
    state.enter_settings();
    match shortcuts_hint(&state) {
        Hint::Keys(t) => assert_eq!(t, "j/k move · enter/space toggle · q back"),
        Hint::Plain(t) => panic!("expected key segments, got {t}"),
    }
}

#[test]
fn zebra_striping_dims_odd_rows_but_not_the_cursor() {
    let mut state = AppState::new(vec![], vec![]);
    assert!(!striped_row(&state, 0));
    assert!(striped_row(&state, 1));
    assert!(!striped_row(&state, 2));
    assert!(striped_row(&state, 3));
    state.cursor = 3;
    assert!(!striped_row(&state, 3));
    state.zebra_striping = false;
    assert!(!striped_row(&state, 1));
}
