//! What the interactive loops decide. For each key press: the change to the
//! application state and the outside work to do next. For each finished piece
//! of outside work: the change its outcome brings. The terminal layer runs the
//! loops, does the work (`gh`, the clipboard, the browser) and hands the
//! outcome back here.

use crate::cli;
use crate::cli::{CreateRequest, EditRequest, MutationRequest};
use crate::copy;
use crate::keys::{
    confirm_binding, form_binding, list_binding, little_create_binding, map_confirm_key,
    map_form_key, map_list_key, map_little_create_key, map_search_key, map_settings_key,
    search_binding, settings_binding, ConfirmInput, FormInput, KeyCode, KeyPress, ListInput,
    LittleCreateInput, SearchInput, SettingsInput,
};
use crate::model::{
    number_index, without_last_char, without_last_word, AppState, FormState, FormSubmission, Issue,
    Label, Mode, PendingOperation,
};
use crate::text;
use crate::text::{append_str, chars_of, string_of};
use ratatui_textarea::Input;
use vstd::prelude::*;

verus! {

/// The form to show again should a change fail.
pub enum MutationDraft {
    Form(Box<FormState>),
    Nothing,
}

/// Which text a copy key puts on the clipboard.
#[derive(Debug, Clone, Copy, PartialEq, Eq, Structural)]
pub enum CopyFormat {
    Reference,
    MarkdownLink,
    Url,
}

/// What the terminal layer does after a key press.
pub enum Effect {
    /// Nothing beyond the change to the state.
    Stay,
    Quit,
    /// Put this text on the clipboard, then report with `finish_copy`.
    Copy(String),
    /// Open this address in the browser, then report with `finish_open`.
    Open(String),
    /// Load the issues and labels again (the state shows the reload under
    /// way), then report with `finish_refresh`.
    Refresh,
    /// Send this change, then report with `finish_mutation`, handing back the
    /// draft.
    Mutate(MutationRequest, MutationDraft),
    /// A setting changed: store the two settings the state now holds.
    SaveSettings,
}

// ---------------------------------------------------------------------------
// Copying and opening
// ---------------------------------------------------------------------------

/// The status line reads `m`.
pub open spec fn status_is(t: AppState, m: Seq<char>) -> bool {
    t.status matches Some(st) && st.0@ == m
}

pub open spec fn copy_text_of(format: CopyFormat, issue: Issue) -> Seq<char> {
    match format {
        CopyFormat::Reference => copy::reference_text(issue),
        CopyFormat::MarkdownLink => copy::markdown_link_text(issue),
        CopyFormat::Url => issue.url@,
    }
}

/// The text a copy key puts on the clipboard. With issues checked: the
/// checked issues still listed, by ascending number, each in `format`,
/// joined by `", "` (nothing when none of them is listed). Otherwise the
/// issue under the cursor in `format`, when there is one.
pub open spec fn copy_text_for(s: AppState, format: CopyFormat) -> Option<Seq<char>> {
    if !s.checked@.is_empty() {
        let items = s.checked_issues();
        if items.len() == 0 {
            None
        } else {
            Some(text::join(items.map_values(|i: Issue| copy_text_of(format, i)), ", "@))
        }
    } else {
        match s.selected_index() {
            Some(i) => Some(copy_text_of(format, s.issues@[i])),
            None => None,
        }
    }
}

fn format_issue(issue: &Issue, format: CopyFormat) -> (r: String)
    ensures
        r@ == copy_text_of(format, *issue),
{
    match format {
        CopyFormat::Reference => copy::format_reference(issue),
        CopyFormat::MarkdownLink => copy::format_markdown_link(issue),
        CopyFormat::Url => copy::format_url(issue),
    }
}

pub fn copy_text(state: &AppState, format: CopyFormat) -> (r: Option<String>)
    ensures
        match copy_text_for(*state, format) {
            Some(t) => r matches Some(x) && x@ == t,
            None => r is None,
        },
{
    if !state.checked.is_empty() {
        let items = state.checked_issue_list();
        if items.len() == 0 {
            return None;
        }
        let ghost want = state.checked_issues().map_values(|i: Issue| copy_text_of(format, i));
        let mut parts: Vec<Vec<char>> = Vec::new();
        let mut k: usize = 0;
        while k < items.len()
            invariant
                k <= items.len(),
                items@.len() == state.checked_issues().len(),
                forall|j: int| 0 <= j < items@.len() ==> *items@[j] == state.checked_issues()[j],
                want == state.checked_issues().map_values(|i: Issue| copy_text_of(format, i)),
                text::seqs_of(parts@) == want.take(k as int),
            decreases items.len() - k,
        {
            let t = format_issue(items[k], format);
            let ghost before = text::seqs_of(parts@);
            parts.push(chars_of(t.as_str()));
            assert(text::seqs_of(parts@) =~= before.push(t@));
            assert(want.take(k + 1) =~= want.take(k as int).push(t@));
            k = k + 1;
        }
        assert(want.take(items.len() as int) =~= want);
        let joined = text::join_chars(&parts, &chars_of(", "));
        return Some(string_of(&joined));
    }
    match state.selected_issue() {
        Some(issue) => Some(format_issue(issue, format)),
        None => None,
    }
}

pub open spec fn copy_status(text: Seq<char>, outcome: Result<(), String>) -> Seq<char> {
    match outcome {
        Ok(_) => "copied: "@ + text,
        Err(e) => "copy failed: "@ + e@,
    }
}

/// The status after the checked issues were copied as `text`.
pub open spec fn copied_checked_status(count: nat, text: Seq<char>) -> Seq<char> {
    "copied "@ + text::decimal(count) + ": "@ + text
}

/// After the clipboard was handed `text`: the status line says what was
/// copied or why not, and the answer is whether to leave, which is so only
/// after a copy that worked with the exit-after-copy setting on. A copy of
/// the checked issues that worked counts them in the status and unchecks
/// them all.
pub fn finish_copy(state: &mut AppState, text: &str, outcome: Result<(), String>) -> (quit: bool)
    ensures
        quit == (outcome is Ok && old(state).exit_on_copy_yank),
        if !old(state).checked@.is_empty() && outcome is Ok {
            &&& status_is(
                *final(state),
                copied_checked_status(old(state).checked_issues().len(), text@),
            )
            &&& final(state).checked@.is_empty()
            &&& *final(state) == (AppState {
                status: final(state).status,
                checked: final(state).checked,
                ..*old(state)
            })
        } else {
            &&& status_is(*final(state), copy_status(text@, outcome))
            &&& *final(state) == (AppState { status: final(state).status, ..*old(state) })
        },
{
    match outcome {
        Ok(_) => {
            if !state.checked.is_empty() {
                let count = state.checked_issue_list().len();
                let mut v = chars_of("copied ");
                text::push_decimal(&mut v, count as u128);
                append_str(&mut v, ": ");
                append_str(&mut v, text);
                state.set_status(string_of(&v));
                state.clear_checks();
            } else {
                let mut v = chars_of("copied: ");
                append_str(&mut v, text);
                state.set_status(string_of(&v));
            }
            state.exit_on_copy_yank
        },
        Err(e) => {
            let mut v = chars_of("copy failed: ");
            append_str(&mut v, e.as_str());
            state.set_status(string_of(&v));
            false
        },
    }
}

/// The address of the issue under the cursor, to open in the browser.
pub fn open_target(state: &AppState) -> (r: Option<String>)
    ensures
        match state.selected_index() {
            Some(i) => r matches Some(u) && u@ == state.issues@[i].url@,
            None => r is None,
        },
{
    match state.selected_issue() {
        Some(issue) => Some(issue.url.clone()),
        None => None,
    }
}

pub open spec fn open_status(url: Seq<char>, outcome: Result<(), String>) -> Seq<char> {
    match outcome {
        Ok(_) => "opened: "@ + url,
        Err(e) => "failed to open: "@ + e@,
    }
}

/// After the browser was asked to open `url`: the status line says so, or why
/// it could not.
pub fn finish_open(state: &mut AppState, url: &str, outcome: Result<(), String>)
    ensures
        status_is(*final(state), open_status(url@, outcome)),
        *final(state) == (AppState { status: final(state).status, ..*old(state) }),
{
    let mut v = match &outcome {
        Ok(_) => chars_of("opened: "),
        Err(_) => chars_of("failed to open: "),
    };
    match &outcome {
        Ok(_) => append_str(&mut v, url),
        Err(e) => append_str(&mut v, e.as_str()),
    }
    state.set_status(string_of(&v));
}

// ---------------------------------------------------------------------------
// Starting a change
// ---------------------------------------------------------------------------

/// The change that submitting the form sends: an edit of the issue being
/// edited, or a new issue with the checked labels.
pub open spec fn request_for(sub: FormSubmission) -> MutationRequest {
    match sub.editing {
        Some(n) => MutationRequest::Edit(
            EditRequest {
                number: n,
                title: sub.title,
                body: sub.body,
                add_labels: sub.add_labels,
                remove_labels: sub.remove_labels,
            },
        ),
        None => MutationRequest::Create(
            CreateRequest { title: sub.title, body: sub.body, labels: sub.add_labels },
        ),
    }
}

/// `m` is the mode that shows `draft`: a copy of its form, or the mode of `s`
/// as it was when there is no form.
pub open spec fn draft_mode(s: AppState, draft: MutationDraft, m: Mode) -> bool {
    match draft {
        MutationDraft::Form(f) => m matches Mode::Form(g) && f.same_form(*g),
        MutationDraft::Nothing => m == s.mode,
    }
}

/// Puts the draft's form back on screen.
pub fn show_pending_draft(state: &mut AppState, draft: &MutationDraft)
    ensures
        draft_mode(*old(state), *draft, final(state).mode),
        *final(state) == old(state).with_mode(final(state).mode),
{
    match draft {
        MutationDraft::Form(f) => {
            state.mode = Mode::Form(Box::new(f.snapshot()));
        },
        MutationDraft::Nothing => {},
    }
}

/// Puts the draft's form back on screen, when there is a draft.
pub fn restore_mutation_draft(state: &mut AppState, draft: Option<MutationDraft>)
    ensures
        match draft {
            Some(d) => draft_mode(*old(state), d, final(state).mode) && *final(state) == old(
                state,
            ).with_mode(final(state).mode),
            None => *final(state) == *old(state),
        },
{
    match draft {
        Some(d) => show_pending_draft(state, &d),
        None => {},
    }
}

/// `e` and `t` are what starting `request` from `s` gives: nothing while
/// another change is under way; otherwise the draft on screen, the change
/// marked as under way, and the request to send.
pub open spec fn mutation_started(
    s: AppState,
    t: AppState,
    e: Effect,
    draft: MutationDraft,
    request: MutationRequest,
) -> bool {
    if s.pending is Some {
        e is Stay && t == s
    } else {
        &&& e == Effect::Mutate(request, draft)
        &&& draft_mode(s, draft, t.mode)
        &&& t.pending matches Some(p) && p.operation == request.operation_spec()
        &&& t == (AppState { mode: t.mode, pending: t.pending, ..s })
    }
}

/// Starts a change unless one is already under way.
pub fn start_mutation(state: &mut AppState, draft: MutationDraft, request: MutationRequest) -> (e:
    Effect)
    ensures
        mutation_started(*old(state), *final(state), e, draft, request),
{
    if state.is_pending() {
        return Effect::Stay;
    }
    let operation = request.operation();
    show_pending_draft(state, &draft);
    state.begin_pending(operation);
    Effect::Mutate(request, draft)
}

/// Sends what the form submitted, keeping `form_draft` on screen meanwhile.
pub fn submit_form(state: &mut AppState, form_draft: FormState, submission: FormSubmission) -> (e:
    Effect)
    ensures
        mutation_started(
            *old(state),
            *final(state),
            e,
            MutationDraft::Form(Box::new(form_draft)),
            request_for(submission),
        ),
{
    let draft = MutationDraft::Form(Box::new(form_draft));
    let request = match submission.editing {
        Some(number) => MutationRequest::Edit(
            EditRequest {
                number,
                title: submission.title,
                body: submission.body,
                add_labels: submission.add_labels,
                remove_labels: submission.remove_labels,
            },
        ),
        None => MutationRequest::Create(
            CreateRequest {
                title: submission.title,
                body: submission.body,
                labels: submission.add_labels,
            },
        ),
    };
    start_mutation(state, draft, request)
}

// ---------------------------------------------------------------------------
// Key presses
// ---------------------------------------------------------------------------

/// A key while a change is under way: the list can still be browsed and the
/// program left; nothing else happens.
pub open spec fn pending_key_handled(s: AppState, t: AppState, input: ListInput, e: Effect) -> bool {
    if input == ListInput::Quit {
        e is Quit && t == s
    } else if s.mode is List && input == ListInput::Down {
        e is Stay && t == s.cursor_moved(1)
    } else if s.mode is List && input == ListInput::Up {
        e is Stay && t == s.cursor_moved(-1)
    } else if s.mode is List && input == ListInput::TogglePane {
        e is Stay && t == s.pane_toggled()
    } else {
        e is Stay && t == s
    }
}

fn pending_key(state: &mut AppState, input: ListInput) -> (e: Effect)
    ensures
        pending_key_handled(*old(state), *final(state), input, e),
{
    let in_list = match state.mode {
        Mode::List => true,
        _ => false,
    };
    if input == ListInput::Quit {
        return Effect::Quit;
    }
    if in_list {
        if input == ListInput::Down {
            state.move_cursor(1);
        } else if input == ListInput::Up {
            state.move_cursor(-1);
        } else if input == ListInput::TogglePane {
            state.toggle_pane();
        }
    }
    Effect::Stay
}

/// Copying in `format` what `copy_text_for` gives (nothing without it).
pub open spec fn copy_effect(s: AppState, format: CopyFormat, e: Effect) -> bool {
    match copy_text_for(s, format) {
        Some(t) => e matches Effect::Copy(x) && x@ == t,
        None => e is Stay,
    }
}

/// A key in the issue list.
pub open spec fn list_key_handled(s: AppState, t: AppState, input: ListInput, e: Effect) -> bool {
    match input {
        ListInput::Down => e is Stay && t == s.cursor_moved(1),
        ListInput::Up => e is Stay && t == s.cursor_moved(-1),
        ListInput::TogglePane => e is Stay && t == s.pane_toggled(),
        ListInput::EnterSearch => e is Stay && s.search_entered(t),
        ListInput::CycleStateFilter => e is Stay && t == s.filter_cycled(),
        ListInput::LittleCreate => e is Stay && s.prompt_opened(t),
        ListInput::BigCreate => e is Stay && s.form_opened(t, None),
        ListInput::Edit => e is Stay && s.edit_opened(t),
        ListInput::RequestClose => e is Stay && t == s.close_requested(),
        ListInput::CopyReference => t == s && copy_effect(s, CopyFormat::Reference, e),
        ListInput::CopyMarkdownLink => t == s && copy_effect(s, CopyFormat::MarkdownLink, e),
        ListInput::CopyUrl => t == s && copy_effect(s, CopyFormat::Url, e),
        ListInput::OpenInBrowser => t == s && match s.selected_index() {
            Some(i) => e matches Effect::Open(u) && u@ == s.issues@[i].url@,
            None => e is Stay,
        },
        ListInput::Refresh => e is Refresh && t == (AppState { pending: t.pending, ..s }) && (
        t.pending matches Some(p) && p.operation == PendingOperation::RefreshList),
        ListInput::EnterSettings => e is Stay && t == s.settings_entered(),
        ListInput::ToggleCheck => e is Stay && s.check_toggled(t),
        ListInput::Quit => if s.checked@.is_empty() {
            e is Quit && t == s
        } else {
            e is Stay && s.checks_cleared(t)
        },
        ListInput::Unbound => e is Stay && t == s,
    }
}

fn copy_key(state: &AppState, format: CopyFormat) -> (e: Effect)
    ensures
        copy_effect(*state, format, e),
{
    match copy_text(state, format) {
        Some(t) => Effect::Copy(t),
        None => Effect::Stay,
    }
}

fn list_key(state: &mut AppState, input: ListInput) -> (e: Effect)
    ensures
        list_key_handled(*old(state), *final(state), input, e),
{
    match input {
        ListInput::Down => state.move_cursor(1),
        ListInput::Up => state.move_cursor(-1),
        ListInput::TogglePane => state.toggle_pane(),
        ListInput::EnterSearch => state.enter_search(),
        ListInput::CycleStateFilter => {
            state.cycle_state_filter();
        },
        ListInput::LittleCreate => state.enter_little_create(),
        ListInput::BigCreate => state.enter_big_create(),
        ListInput::Edit => state.enter_edit(),
        ListInput::RequestClose => state.request_close(),
        ListInput::CopyReference => {
            return copy_key(state, CopyFormat::Reference);
        },
        ListInput::CopyMarkdownLink => {
            return copy_key(state, CopyFormat::MarkdownLink);
        },
        ListInput::CopyUrl => {
            return copy_key(state, CopyFormat::Url);
        },
        ListInput::OpenInBrowser => {
            return match open_target(state) {
                Some(u) => Effect::Open(u),
                None => Effect::Stay,
            };
        },
        ListInput::Refresh => {
            state.begin_pending(PendingOperation::RefreshList);
            return Effect::Refresh;
        },
        ListInput::EnterSettings => state.enter_settings(),
        ListInput::ToggleCheck => state.toggle_check(),
        ListInput::Quit => {
            if !state.checked.is_empty() {
                state.clear_checks();
                return Effect::Stay;
            }
            return Effect::Quit;
        },
        ListInput::Unbound => {},
    }
    Effect::Stay
}

/// A key in the Settings view: a toggle also asks for the settings to be
/// stored.
pub open spec fn settings_key_handled(
    s: AppState,
    t: AppState,
    input: SettingsInput,
    e: Effect,
) -> bool {
    match input {
        SettingsInput::Down => e is Stay && t == s.settings_cursor_moved(1),
        SettingsInput::Up => e is Stay && t == s.settings_cursor_moved(-1),
        SettingsInput::Toggle => e is SaveSettings && t == s.settings_toggled(),
        SettingsInput::Exit => e is Stay && t == s.with_mode(Mode::List),
        SettingsInput::Unbound => e is Stay && t == s,
    }
}

fn settings_key(state: &mut AppState, input: SettingsInput) -> (e: Effect)
    ensures
        settings_key_handled(*old(state), *final(state), input, e),
{
    match input {
        SettingsInput::Down => state.settings_move_cursor(1),
        SettingsInput::Up => state.settings_move_cursor(-1),
        SettingsInput::Toggle => {
            state.settings_toggle();
            return Effect::SaveSettings;
        },
        SettingsInput::Exit => state.exit_settings(),
        SettingsInput::Unbound => {},
    }
    Effect::Stay
}

/// A key while searching.
pub open spec fn search_key_handled(s: AppState, t: AppState, input: SearchInput) -> bool {
    match input {
        SearchInput::Char(c) => s.query_set(t, s.search_query@.push(c)),
        SearchInput::Backspace => s.query_set(t, without_last_char(s.search_query@)),
        SearchInput::DeleteWord => s.query_set(t, without_last_word(s.search_query@)),
        SearchInput::Clear => s.query_set(t, Seq::empty()),
        SearchInput::Exit => s.search_exited(t),
        SearchInput::Unbound => t == s,
    }
}

fn search_key(state: &mut AppState, input: SearchInput)
    ensures
        search_key_handled(*old(state), *final(state), input),
{
    match input {
        SearchInput::Char(c) => state.search_push(c),
        SearchInput::Backspace => state.search_backspace(),
        SearchInput::DeleteWord => state.search_delete_word(),
        SearchInput::Clear => state.search_clear(),
        SearchInput::Exit => state.exit_search(),
        SearchInput::Unbound => {},
    }
}

/// The new issue a quick-create title makes.
pub open spec fn quick_create_request(title: Seq<char>, r: MutationRequest) -> bool {
    r matches MutationRequest::Create(c) && c.title@ == title && c.body@.len() == 0
        && c.labels@.len() == 0
}

/// A key in the quick-create prompt of the full picker: Enter sends the
/// trimmed title (when there is one) and returns to the list.
pub open spec fn little_create_key_handled(
    s: AppState,
    t: AppState,
    input: LittleCreateInput,
    e: Effect,
) -> bool {
    match input {
        LittleCreateInput::Char(c) => e is Stay && s.prompt_edited(t, s.prompt_text().push(c)),
        LittleCreateInput::Backspace => e is Stay && s.prompt_edited(
            t,
            without_last_char(s.prompt_text()),
        ),
        LittleCreateInput::Submit => if s.mode is LittleCreate && text::trim(s.prompt_text()).len()
            > 0 {
            e matches Effect::Mutate(r, d) && quick_create_request(text::trim(s.prompt_text()), r)
                && d is Nothing && mutation_started(s.with_mode(Mode::List), t, e, d, r)
        } else {
            e is Stay && t == s
        },
        LittleCreateInput::Cancel => e is Stay && t == s.cancelled(),
        LittleCreateInput::Unbound => e is Stay && t == s,
    }
}

fn quick_create(title: String) -> (r: MutationRequest)
    ensures
        quick_create_request(title@, r),
{
    MutationRequest::Create(CreateRequest { title, body: String::new(), labels: Vec::new() })
}

fn little_create_key(state: &mut AppState, input: LittleCreateInput) -> (e: Effect)
    requires
        old(state).pending is None,
    ensures
        little_create_key_handled(*old(state), *final(state), input, e),
{
    match input {
        LittleCreateInput::Char(c) => state.little_create_push(c),
        LittleCreateInput::Backspace => state.little_create_backspace(),
        LittleCreateInput::Submit => {
            if let Some(title) = state.little_create_submit() {
                return start_mutation(state, MutationDraft::Nothing, quick_create(title));
            }
        },
        LittleCreateInput::Cancel => state.cancel_form_or_create(),
        LittleCreateInput::Unbound => {},
    }
    Effect::Stay
}

/// `t` is the state after `input` in a form; `r` is what it submitted, with a
/// copy of the form as it stood, when it submitted.
pub open spec fn form_stepped(
    s: AppState,
    t: AppState,
    input: FormInput,
    edit: Input,
    r: Option<(FormState, FormSubmission)>,
) -> bool {
    match input {
        FormInput::TextEdit => r is None && s.form_typed(t, edit),
        FormInput::NextField => r is None && t == s.field_advanced(),
        FormInput::PrevField => r is None && t == s.field_retreated(),
        FormInput::MoveUp => r is None && t == s.label_cursor_moved(-1),
        FormInput::MoveDown => r is None && t == s.label_cursor_moved(1),
        FormInput::ToggleLabel => r is None && s.label_toggled(t),
        FormInput::Cancel => r is None && t == s.cancelled(),
        FormInput::Enter => match r {
            Some(x) => s.mode matches Mode::Form(f) && f.same_form(x.0) && s.form_entered(
                t,
                Some(x.1),
            ),
            None => s.form_entered(t, None),
        },
        FormInput::SubmitNow => match r {
            Some(x) => s.mode matches Mode::Form(f) && f.same_form(x.0) && s.submitted_now(
                t,
                Some(x.1),
            ),
            None => s.submitted_now(t, None),
        },
        FormInput::Unbound => r is None && t == s,
    }
}

/// Applies a form key; on a submission, hands back a copy of the form as it
/// stood and what it submitted.
fn form_step(state: &mut AppState, input: FormInput, edit: Input) -> (r: Option<
    (FormState, FormSubmission),
>)
    ensures
        form_stepped(*old(state), *final(state), input, edit, r),
{
    let draft = match &state.mode {
        Mode::Form(f) => Some(f.snapshot()),
        _ => None,
    };
    match input {
        FormInput::TextEdit => state.form_input(edit),
        FormInput::NextField => state.form_next_field(),
        FormInput::PrevField => state.form_prev_field(),
        FormInput::MoveUp => state.form_move_label_cursor(-1),
        FormInput::MoveDown => state.form_move_label_cursor(1),
        FormInput::ToggleLabel => state.form_toggle_label(),
        FormInput::Cancel => state.cancel_form_or_create(),
        FormInput::Enter => {
            if let Some(sub) = state.form_enter() {
                if let Some(d) = draft {
                    return Some((d, sub));
                }
            }
        },
        FormInput::SubmitNow => {
            if let Some(sub) = state.form_submit_now() {
                if let Some(d) = draft {
                    return Some((d, sub));
                }
            }
        },
        FormInput::Unbound => {},
    }
    None
}

/// A key in the form of the full picker: a submission is sent, the form kept
/// on screen meanwhile.
pub open spec fn form_key_handled(
    s: AppState,
    t: AppState,
    input: FormInput,
    edit: Input,
    e: Effect,
) -> bool {
    ||| e is Stay && form_stepped(s, t, input, edit, None)
    ||| exists|mid: AppState, g: FormState, sub: FormSubmission|
        #[trigger] form_stepped(s, mid, input, edit, Some((g, sub))) && mutation_started(
            mid,
            t,
            e,
            MutationDraft::Form(Box::new(g)),
            request_for(sub),
        )
}

fn form_key(state: &mut AppState, input: FormInput, edit: Input) -> (e: Effect)
    ensures
        form_key_handled(*old(state), *final(state), input, edit, e),
{
    let ghost s = *state;
    match form_step(state, input, edit) {
        Some((draft, submission)) => {
            let ghost mid = *state;
            let ghost g = draft;
            let ghost sub = submission;
            let e = submit_form(state, draft, submission);
            assert(form_stepped(s, mid, input, edit, Some((g, sub))));
            e
        },
        None => Effect::Stay,
    }
}

/// A key on "close this issue?": yes sends the close.
pub open spec fn confirm_close_key_handled(
    s: AppState,
    t: AppState,
    input: ConfirmInput,
    e: Effect,
) -> bool {
    match input {
        ConfirmInput::Yes => match s.close_confirmed().1 {
            Some(n) => mutation_started(
                s.close_confirmed().0,
                t,
                e,
                MutationDraft::Nothing,
                MutationRequest::Close(n),
            ),
            None => e is Stay && t == s,
        },
        ConfirmInput::No => e is Stay && t == s.with_mode(Mode::List),
        ConfirmInput::Unbound => e is Stay && t == s,
    }
}

fn confirm_close_key(state: &mut AppState, input: ConfirmInput) -> (e: Effect)
    ensures
        confirm_close_key_handled(*old(state), *final(state), input, e),
{
    match input {
        ConfirmInput::Yes => {
            if let Some(number) = state.confirm_close_yes() {
                return start_mutation(state, MutationDraft::Nothing, MutationRequest::Close(number));
            }
        },
        ConfirmInput::No => state.confirm_close_no(),
        ConfirmInput::Unbound => {},
    }
    Effect::Stay
}

/// A key on "discard?".
pub open spec fn confirm_discard_key_handled(s: AppState, t: AppState, input: ConfirmInput) -> bool {
    match input {
        ConfirmInput::Yes => t == s.discard_accepted(),
        ConfirmInput::No => t == s.discard_declined(),
        ConfirmInput::Unbound => t == s,
    }
}

fn confirm_discard_key(state: &mut AppState, input: ConfirmInput)
    ensures
        confirm_discard_key_handled(*old(state), *final(state), input),
{
    match input {
        ConfirmInput::Yes => state.confirm_discard_yes(),
        ConfirmInput::No => state.confirm_discard_no(),
        ConfirmInput::Unbound => {},
    }
}

/// What a key press does in the full picker, by the state it finds.
pub open spec fn key_handled(s: AppState, key: KeyPress, edit: Input, t: AppState, e: Effect) -> bool {
    if s.loading is Some {
        t == s && if list_binding(key) == ListInput::Quit {
            e is Quit
        } else {
            e is Stay
        }
    } else if s.pending is Some {
        pending_key_handled(s, t, list_binding(key), e)
    } else {
        match s.mode {
            Mode::List => list_key_handled(s, t, list_binding(key), e),
            Mode::Search => e is Stay && search_key_handled(s, t, search_binding(key)),
            Mode::LittleCreate(_) => little_create_key_handled(s, t, little_create_binding(key), e),
            Mode::Form(f) => form_key_handled(s, t, form_binding(key, f.field), edit, e),
            Mode::ConfirmClose(_) => confirm_close_key_handled(s, t, confirm_binding(key), e),
            Mode::ConfirmDiscard(_) => e is Stay && confirm_discard_key_handled(
                s,
                t,
                confirm_binding(key),
            ),
            Mode::Settings => settings_key_handled(s, t, settings_binding(key), e),
        }
    }
}

/// One key press in the full picker. `edit` is the same key as the text
/// fields take it, used when the key edits the focused field.
pub fn handle_key(state: &mut AppState, key: KeyPress, edit: Input) -> (e: Effect)
    ensures
        key_handled(*old(state), key, edit, *final(state), e),
{
    if state.is_loading() {
        return if map_list_key(key) == ListInput::Quit {
            Effect::Quit
        } else {
            Effect::Stay
        };
    }
    if state.is_pending() {
        return pending_key(state, map_list_key(key));
    }
    let field = match &state.mode {
        Mode::Form(f) => Some(f.field),
        _ => None,
    };
    match &state.mode {
        Mode::List => list_key(state, map_list_key(key)),
        Mode::Search => {
            search_key(state, map_search_key(key));
            Effect::Stay
        },
        Mode::LittleCreate(_) => little_create_key(state, map_little_create_key(key)),
        Mode::Form(_) => {
            let input = match field {
                Some(f) => map_form_key(key, f),
                None => FormInput::Unbound,
            };
            form_key(state, input, edit)
        },
        Mode::ConfirmClose(_) => confirm_close_key(state, map_confirm_key(key)),
        Mode::ConfirmDiscard(_) => {
            confirm_discard_key(state, map_confirm_key(key));
            Effect::Stay
        },
        Mode::Settings => settings_key(state, map_settings_key(key)),
    }
}

/// While the issues load, a key changes nothing and can only quit; while a
/// change is under way, a key starts no other work (no change, reload, copy
/// or browser) and leaves the screen where it is.
pub proof fn lemma_busy_keys_start_nothing(
    s: AppState,
    key: KeyPress,
    edit: Input,
    t: AppState,
    e: Effect,
)
    requires
        key_handled(s, key, edit, t, e),
    ensures
        s.loading is Some ==> t == s && (e is Quit || e is Stay),
        s.pending is Some ==> (e is Quit || e is Stay) && t.mode == s.mode && t.pending
            == s.pending,
{
}

/// With issues checked, the quit key in the list does not quit: it unchecks
/// them all and changes nothing else; a second press then quits.
pub proof fn lemma_quit_first_clears_checks(
    s: AppState,
    key: KeyPress,
    edit: Input,
    t: AppState,
    e: Effect,
)
    requires
        s.loading is None,
        s.pending is None,
        s.mode is List,
        !s.checked@.is_empty(),
        list_binding(key) == ListInput::Quit,
        key_handled(s, key, edit, t, e),
    ensures
        e is Stay,
        s.checks_cleared(t),
        forall|t2: AppState, e2: Effect| #[trigger] key_handled(t, key, edit, t2, e2) ==> e2 is Quit,
{
}

/// In the list, `j` (or Down) moves the cursor to the next row, from the
/// last row back to the first, and `k` (or Up) to the row before, from the
/// first row round to the last; nothing else changes.
pub proof fn lemma_list_keys_move_one_row(
    s: AppState,
    key: KeyPress,
    edit: Input,
    t: AppState,
    e: Effect,
)
    requires
        s.loading is None,
        s.pending is None,
        s.mode is List,
        0 < s.issues@.len() <= usize::MAX,
        s.cursor < s.issues@.len(),
        key_handled(s, key, edit, t, e),
    ensures
        (key.code == KeyCode::Char('j') || key.code == KeyCode::Down) ==> e is Stay && t == (
        AppState {
            cursor: if s.cursor + 1 < s.issues@.len() {
                (s.cursor + 1) as usize
            } else {
                0
            },
            ..s
        }),
        (key.code == KeyCode::Char('k') || key.code == KeyCode::Up) ==> e is Stay && t == (
        AppState {
            cursor: if s.cursor > 0 {
                (s.cursor - 1) as usize
            } else {
                (s.issues@.len() - 1) as usize
            },
            ..s
        }),
{
    crate::model::lemma_cursor_steps_one_row(s);
}

/// In the list, `x` and then `y` send a request to close the issue under
/// the cursor, the one `selected_issue` gives, and no other.
pub proof fn lemma_x_then_y_closes_the_selected_issue(
    s: AppState,
    key1: KeyPress,
    edit1: Input,
    t: AppState,
    e1: Effect,
    key2: KeyPress,
    edit2: Input,
    u: AppState,
    e2: Effect,
)
    requires
        s.loading is None,
        s.pending is None,
        s.mode is List,
        list_binding(key1) == ListInput::RequestClose,
        key_handled(s, key1, edit1, t, e1),
        confirm_binding(key2) == ConfirmInput::Yes,
        key_handled(t, key2, edit2, u, e2),
    ensures
        e1 is Stay,
        match s.selected_index() {
            Some(i) => e2 == Effect::Mutate(
                MutationRequest::Close(s.issues@[i].number),
                MutationDraft::Nothing,
            ),
            None => t == s,
        },
{
    crate::model::lemma_close_asks_about_the_selected_issue(s);
}

/// Quitting leaves the state as it was.
pub proof fn lemma_quit_changes_nothing(
    s: AppState,
    key: KeyPress,
    edit: Input,
    t: AppState,
    e: Effect,
)
    requires
        key_handled(s, key, edit, t, e),
        e is Quit,
    ensures
        t == s,
{
    if s.loading is None && s.pending is None {
        match s.mode {
            Mode::Form(f) => {
                assert(!(e is Stay));
                assert forall|mid: AppState, g: FormState, sub: FormSubmission|
                    #[trigger] form_stepped(s, mid, form_binding(key, f.field), edit, Some((g, sub)))
                    implies !mutation_started(
                    mid,
                    t,
                    e,
                    MutationDraft::Form(Box::new(g)),
                    request_for(sub),
                ) by {}
            },
            Mode::LittleCreate(_) => {},
            Mode::ConfirmClose(_) => {},
            _ => {},
        }
    }
}

// ---------------------------------------------------------------------------
// Outcomes of outside work
// ---------------------------------------------------------------------------

/// What the first load brings: the issues, the labels, the repository's
/// `owner/repo` when it could be read, and how long it took, as shown.
pub struct InitialLoad {
    pub issues: Vec<Issue>,
    pub labels: Vec<Label>,
    pub repo_name: Option<String>,
    pub took: String,
}

/// What a reload brings.
pub struct Reloaded {
    pub issues: Vec<Issue>,
    pub labels: Vec<Label>,
    pub took: String,
}

/// What a finished change brings: the change, the issues read afterwards,
/// how long the change and the reload took, as shown, and the issue it was
/// about.
pub struct Mutated {
    pub operation: PendingOperation,
    pub issues: Vec<Issue>,
    pub action_took: String,
    pub refresh_took: String,
    /// The issue to select and highlight in the new list: the one created
    /// or edited (none after a close).
    pub target_issue: Option<u32>,
}

/// `"<what> <count> issues in <took>"`.
pub open spec fn count_status(what: Seq<char>, count: nat, took: Seq<char>) -> Seq<char> {
    what + " "@ + text::decimal(count) + " issues in "@ + took
}

fn count_message(what: &str, count: usize, took: &str) -> (r: String)
    ensures
        r@ == count_status(what@, count as nat, took@),
{
    let mut v = chars_of(what);
    append_str(&mut v, " ");
    text::push_decimal(&mut v, count as u128);
    append_str(&mut v, " issues in ");
    append_str(&mut v, took);
    string_of(&v)
}

fn gh_error_message(state: &mut AppState, error: &str, github_token_set: bool)
    ensures
        status_is(*final(state), cli::gh_error_text(error@, github_token_set)),
        *final(state) == (AppState { status: final(state).status, ..*old(state) }),
{
    state.set_status(cli::gh_error_status_with_token_hint(error, github_token_set));
}

/// The first load's outcome: the loaded issues and labels, the repository
/// name, and a status line with the count and the time; or the loading screen
/// gone and the error reported.
pub fn finish_initial_load(
    state: &mut AppState,
    outcome: Result<InitialLoad, String>,
    github_token_set: bool,
)
    ensures
        match outcome {
            Ok(l) => *final(state) == (AppState {
                issues: l.issues,
                all_labels: l.labels,
                repo_name_with_owner: l.repo_name,
                cursor: 0,
                loading: None,
                status: final(state).status,
                ..*old(state)
            }) && status_is(*final(state), count_status("loaded"@, l.issues@.len(), l.took@)),
            Err(e) => *final(state) == (AppState {
                loading: None,
                status: final(state).status,
                ..*old(state)
            }) && status_is(*final(state), cli::gh_error_text(e@, github_token_set)),
        },
{
    match outcome {
        Ok(l) => {
            let message = count_message("loaded", l.issues.len(), l.took.as_str());
            state.repo_name_with_owner = l.repo_name;
            state.set_loaded(l.issues, l.labels);
            state.set_status(message);
        },
        Err(e) => {
            state.finish_loading();
            gh_error_message(state, e.as_str(), github_token_set);
        },
    }
}

/// A reload's outcome: the new issues and labels with a status line, or the
/// error reported and the list left as it was; either way the reload is no
/// longer under way.
pub fn finish_refresh(state: &mut AppState, outcome: Result<Reloaded, String>, github_token_set: bool)
    ensures
        match outcome {
            Ok(l) => *final(state) == (AppState {
                issues: l.issues,
                all_labels: l.labels,
                cursor: 0,
                pending: None,
                status: final(state).status,
                ..*old(state)
            }) && status_is(*final(state), count_status("refreshed"@, l.issues@.len(), l.took@)),
            Err(e) => *final(state) == (AppState {
                pending: None,
                status: final(state).status,
                ..*old(state)
            }) && status_is(*final(state), cli::gh_error_text(e@, github_token_set)),
        },
{
    state.finish_pending();
    match outcome {
        Ok(l) => {
            let message = count_message("refreshed", l.issues.len(), l.took.as_str());
            state.all_labels = l.labels;
            state.set_issues(l.issues);
            state.set_status(message);
        },
        Err(e) => gh_error_message(state, e.as_str(), github_token_set),
    }
}

/// `"<done> in <action_took>, refresh <refresh_took>"`.
pub open spec fn mutation_status(m: Mutated) -> Seq<char> {
    cli::success_action(m.operation) + " in "@ + m.action_took@ + ", refresh "@ + m.refresh_took@
}

/// `t` is `s` after a change's outcome: the list of issues read afterwards
/// and a status line; or, on failure, the draft back on screen and the error
/// reported. Either way the change is no longer under way.
/// The row of the first issue numbered `target`, the first row without one.
pub open spec fn selecting_cursor(issues: Seq<Issue>, target: Option<u32>) -> usize {
    match target {
        Some(n) => match number_index(issues, n) {
            Some(i) => i as usize,
            None => 0,
        },
        None => 0,
    }
}

pub open spec fn mutation_finished(
    s: AppState,
    t: AppState,
    draft: Option<MutationDraft>,
    outcome: Result<Mutated, String>,
    github_token_set: bool,
) -> bool {
    &&& t.pending is None
    &&& match outcome {
        Ok(m) => t == (AppState {
            mode: Mode::List,
            issues: m.issues,
            cursor: selecting_cursor(m.issues@, m.target_issue),
            pending: None,
            status: t.status,
            flash: t.flash,
            ..s
        }) && status_is(t, mutation_status(m)) && match m.target_issue {
            Some(n) => t.flash matches Some(f) && f.0 == n,
            None => t.flash == s.flash,
        },
        Err(e) => t == (AppState { mode: t.mode, pending: None, status: t.status, ..s })
            && match draft {
            Some(d) => draft_mode(s, d, t.mode),
            None => t.mode == s.mode,
        } && status_is(t, cli::gh_error_text(e@, github_token_set)),
    }
}

/// Applies a change's outcome.
pub fn finish_mutation(
    state: &mut AppState,
    draft: Option<MutationDraft>,
    outcome: Result<Mutated, String>,
    github_token_set: bool,
)
    requires
        outcome matches Ok(m) ==> cli::is_change(m.operation),
    ensures
        mutation_finished(*old(state), *final(state), draft, outcome, github_token_set),
{
    state.finish_pending();
    match outcome {
        Ok(m) => {
            let mut v = chars_of(cli::success_status_action(m.operation));
            append_str(&mut v, " in ");
            append_str(&mut v, m.action_took.as_str());
            append_str(&mut v, ", refresh ");
            append_str(&mut v, m.refresh_took.as_str());
            state.mode = Mode::List;
            state.set_issues_selecting(m.issues, m.target_issue);
            if let Some(n) = m.target_issue {
                state.start_flash(n);
            }
            state.set_status(string_of(&v));
        },
        Err(e) => {
            restore_mutation_draft(state, draft);
            gh_error_message(state, e.as_str(), github_token_set);
        },
    }
}

/// A change submitted from the form that then fails puts the form back on
/// screen as it stood when it was submitted: nothing typed is lost.
pub proof fn lemma_failed_change_keeps_the_form(
    s: AppState,
    key: KeyPress,
    edit: Input,
    t: AppState,
    e: Effect,
    u: AppState,
    error: String,
    github_token_set: bool,
)
    requires
        s.loading is None,
        s.pending is None,
        s.mode is Form,
        key_handled(s, key, edit, t, e),
        e matches Effect::Mutate(_, d) && mutation_finished(
            t,
            u,
            Some(d),
            Err(error),
            github_token_set,
        ),
    ensures
        s.mode matches Mode::Form(f) && u.mode matches Mode::Form(h) && f.same_form(*h),
        u.pending is None,
{
    if let Mode::Form(f) = s.mode {
        let input = form_binding(key, f.field);
        assert(!(e is Stay));
        let (mid, g, sub) = choose|mid: AppState, g: FormState, sub: FormSubmission|
            #[trigger] form_stepped(s, mid, input, edit, Some((g, sub))) && mutation_started(
                mid,
                t,
                e,
                MutationDraft::Form(Box::new(g)),
                request_for(sub),
            );
        assert(mid.pending is None);
    }
}

/// The repository name, once read, goes into the title; a failed read leaves
/// it unknown.
pub fn apply_repo_name_result(state: &mut AppState, result: Result<String, String>)
    ensures
        *final(state) == match result {
            Ok(name) => AppState { repo_name_with_owner: Some(name), ..*old(state) },
            Err(_) => *old(state),
        },
{
    if let Ok(name) = result {
        state.repo_name_with_owner = Some(name);
    }
}

// ---------------------------------------------------------------------------
// The standalone capture prompts
// ---------------------------------------------------------------------------

/// A key in the standalone quick-create prompt: Enter sends the trimmed title
/// and keeps it on screen while it is sent; Esc leaves.
pub open spec fn capture_key_handled(s: AppState, key: KeyPress, t: AppState, e: Effect) -> bool {
    if s.pending is Some {
        t == s && if list_binding(key) == ListInput::Quit {
            e is Quit
        } else {
            e is Stay
        }
    } else {
        match little_create_binding(key) {
            LittleCreateInput::Char(c) => e is Stay && s.prompt_edited(t, s.prompt_text().push(c)),
            LittleCreateInput::Backspace => e is Stay && s.prompt_edited(
                t,
                without_last_char(s.prompt_text()),
            ),
            LittleCreateInput::Submit => if s.mode is LittleCreate && text::trim(
                s.prompt_text(),
            ).len() > 0 {
                let title = text::trim(s.prompt_text());
                &&& e matches Effect::Mutate(r, d) && quick_create_request(title, r) && d is Nothing
                &&& t.mode matches Mode::LittleCreate(b) && b@ == title
                &&& t.pending matches Some(p) && p.operation == PendingOperation::CreateIssue
                &&& t == (AppState { mode: t.mode, pending: t.pending, ..s })
            } else {
                e is Stay && t == s
            },
            LittleCreateInput::Cancel => e is Quit && t == s,
            LittleCreateInput::Unbound => e is Stay && t == s,
        }
    }
}

pub fn capture_key(state: &mut AppState, key: KeyPress) -> (e: Effect)
    ensures
        capture_key_handled(*old(state), key, *final(state), e),
{
    if state.is_pending() {
        return if map_list_key(key) == ListInput::Quit {
            Effect::Quit
        } else {
            Effect::Stay
        };
    }
    match map_little_create_key(key) {
        LittleCreateInput::Char(c) => state.little_create_push(c),
        LittleCreateInput::Backspace => state.little_create_backspace(),
        LittleCreateInput::Submit => {
            if let Some(title) = state.little_create_submit() {
                state.mode = Mode::LittleCreate(title.clone());
                state.begin_pending(PendingOperation::CreateIssue);
                return Effect::Mutate(quick_create(title), MutationDraft::Nothing);
            }
        },
        LittleCreateInput::Cancel => {
            return Effect::Quit;
        },
        LittleCreateInput::Unbound => {},
    }
    Effect::Stay
}

/// A finished create in a standalone prompt: leave on success; otherwise
/// report the error and let the prompt be used again. The answer is whether
/// to leave.
pub fn finish_capture(state: &mut AppState, outcome: Result<(), String>, github_token_set: bool) -> (quit:
    bool)
    ensures
        quit == outcome is Ok,
        outcome is Ok ==> *final(state) == *old(state),
        match outcome {
            Ok(_) => true,
            Err(e) => *final(state) == (AppState {
                pending: None,
                status: final(state).status,
                ..*old(state)
            }) && status_is(*final(state), cli::gh_error_text(e@, github_token_set)),
        },
{
    match outcome {
        Ok(_) => true,
        Err(e) => {
            state.finish_pending();
            gh_error_message(state, e.as_str(), github_token_set);
            false
        },
    }
}

/// The labels for the standalone full form have arrived: the form opens.
pub fn labels_loaded(state: &mut AppState, labels: Vec<Label>)
    ensures
        (AppState { all_labels: labels, loading: None, ..*old(state) }).form_opened(
            *final(state),
            None,
        ),
{
    state.all_labels = labels;
    state.finish_loading();
    state.enter_big_create();
}

/// A key in the standalone full form. A submission creates the issue, the
/// form kept on screen meanwhile; the prompt is left once the list would
/// show (the form cancelled or discarded).
pub open spec fn capture_full_key_handled(
    s: AppState,
    key: KeyPress,
    edit: Input,
    t: AppState,
    e: Effect,
) -> bool {
    if s.loading is Some || s.pending is Some {
        t == s && if list_binding(key) == ListInput::Quit {
            e is Quit
        } else {
            e is Stay
        }
    } else {
        match s.mode {
            Mode::Form(f) => {
                let input = form_binding(key, f.field);
                ||| form_stepped(s, t, input, edit, None) && if t.mode is List {
                    e is Quit
                } else {
                    e is Stay
                }
                ||| exists|mid: AppState, g: FormState, sub: FormSubmission|
                    #[trigger] form_stepped(s, mid, input, edit, Some((g, sub))) && {
                        &&& e matches Effect::Mutate(r, d) && d is Nothing && r
                            == MutationRequest::Create(
                            CreateRequest {
                                title: sub.title,
                                body: sub.body,
                                labels: sub.add_labels,
                            },
                        )
                        &&& t.mode matches Mode::Form(h) && g.same_form(*h)
                        &&& t.pending matches Some(p) && p.operation
                            == PendingOperation::CreateIssue
                        &&& t == (AppState { mode: t.mode, pending: t.pending, ..mid })
                    }
            },
            Mode::ConfirmDiscard(_) => confirm_discard_key_handled(s, t, confirm_binding(key)) && if t.mode is List {
                e is Quit
            } else {
                e is Stay
            },
            _ => t == s && if s.mode is List {
                e is Quit
            } else {
                e is Stay
            },
        }
    }
}

pub fn capture_full_key(state: &mut AppState, key: KeyPress, edit: Input) -> (e: Effect)
    ensures
        capture_full_key_handled(*old(state), key, edit, *final(state), e),
{
    if state.is_loading() || state.is_pending() {
        return if map_list_key(key) == ListInput::Quit {
            Effect::Quit
        } else {
            Effect::Stay
        };
    }
    let ghost s = *state;
    let field = match &state.mode {
        Mode::Form(f) => Some(f.field),
        _ => None,
    };
    match &state.mode {
        Mode::Form(_) => {
            let input = match field {
                Some(f) => map_form_key(key, f),
                None => FormInput::Unbound,
            };
            if let Some((draft, sub)) = form_step(state, input, edit) {
                let ghost mid = *state;
                let ghost g = draft;
                let ghost sb = sub;
                state.mode = Mode::Form(Box::new(draft.snapshot()));
                state.begin_pending(PendingOperation::CreateIssue);
                let request = MutationRequest::Create(
                    CreateRequest { title: sub.title, body: sub.body, labels: sub.add_labels },
                );
                assert(form_stepped(s, mid, input, edit, Some((g, sb))));
                return Effect::Mutate(request, MutationDraft::Nothing);
            }
        },
        Mode::ConfirmDiscard(_) => confirm_discard_key(state, map_confirm_key(key)),
        _ => {},
    }
    match state.mode {
        Mode::List => Effect::Quit,
        _ => Effect::Stay,
    }
}

} // verus!
