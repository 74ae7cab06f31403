//! Key bindings: what each key press means in each screen. A key press is
//! described by the library's own `KeyPress`; the terminal layer turns the
//! terminal's key events into it.

use crate::model::FormField;
use vstd::prelude::*;

verus! {

/// The keys the bindings tell apart; every other key is `Other`.
#[derive(Debug, Clone, Copy, PartialEq, Eq, Structural)]
pub enum KeyCode {
    Char(char),
    Enter,
    Esc,
    Backspace,
    Tab,
    BackTab,
    Up,
    Down,
    Left,
    Right,
    Home,
    End,
    Other,
}

#[derive(Debug, Clone, Copy, PartialEq, Eq, Structural)]
pub struct KeyPress {
    pub code: KeyCode,
    /// Whether Ctrl was held.
    pub ctrl: bool,
}

#[derive(Debug, Clone, Copy, PartialEq, Eq, Structural)]
pub enum ListInput {
    Up,
    Down,
    TogglePane,
    EnterSearch,
    CycleStateFilter,
    LittleCreate,
    BigCreate,
    Edit,
    RequestClose,
    /// Check or uncheck the issue under the cursor for copying together.
    ToggleCheck,
    CopyReference,
    CopyMarkdownLink,
    CopyUrl,
    OpenInBrowser,
    Refresh,
    EnterSettings,
    Quit,
    /// The key means nothing here.
    Unbound,
}

pub open spec fn list_binding(key: KeyPress) -> ListInput {
    match key.code {
        KeyCode::Char('j') | KeyCode::Down => ListInput::Down,
        KeyCode::Char('k') | KeyCode::Up => ListInput::Up,
        KeyCode::Char('h') => ListInput::TogglePane,
        KeyCode::Enter | KeyCode::Char('e') => ListInput::Edit,
        KeyCode::Char('/') => ListInput::EnterSearch,
        KeyCode::Char('a') => ListInput::CycleStateFilter,
        KeyCode::Char('c') => ListInput::LittleCreate,
        KeyCode::Char('C') => ListInput::BigCreate,
        KeyCode::Char('x') => ListInput::RequestClose,
        KeyCode::Char(' ') => ListInput::ToggleCheck,
        KeyCode::Char('o') => ListInput::OpenInBrowser,
        KeyCode::Char('r') => ListInput::Refresh,
        KeyCode::Char('y') => if key.ctrl {
            ListInput::CopyUrl
        } else {
            ListInput::CopyReference
        },
        KeyCode::Char('Y') => ListInput::CopyMarkdownLink,
        KeyCode::Char(',') => ListInput::EnterSettings,
        KeyCode::Char('q') | KeyCode::Esc => ListInput::Quit,
        _ => ListInput::Unbound,
    }
}

pub fn map_list_key(key: KeyPress) -> (r: ListInput)
    ensures
        r == list_binding(key),
{
    match key.code {
        KeyCode::Char('j') | KeyCode::Down => ListInput::Down,
        KeyCode::Char('k') | KeyCode::Up => ListInput::Up,
        KeyCode::Char('h') => ListInput::TogglePane,
        KeyCode::Enter | KeyCode::Char('e') => ListInput::Edit,
        KeyCode::Char('/') => ListInput::EnterSearch,
        KeyCode::Char('a') => ListInput::CycleStateFilter,
        KeyCode::Char('c') => ListInput::LittleCreate,
        KeyCode::Char('C') => ListInput::BigCreate,
        KeyCode::Char('x') => ListInput::RequestClose,
        KeyCode::Char(' ') => ListInput::ToggleCheck,
        KeyCode::Char('o') => ListInput::OpenInBrowser,
        KeyCode::Char('r') => ListInput::Refresh,
        KeyCode::Char('y') => if key.ctrl {
            ListInput::CopyUrl
        } else {
            ListInput::CopyReference
        },
        KeyCode::Char('Y') => ListInput::CopyMarkdownLink,
        KeyCode::Char(',') => ListInput::EnterSettings,
        KeyCode::Char('q') | KeyCode::Esc => ListInput::Quit,
        _ => ListInput::Unbound,
    }
}

#[derive(Debug, Clone, Copy, PartialEq, Eq, Structural)]
pub enum SearchInput {
    Char(char),
    Backspace,
    DeleteWord,
    Clear,
    Exit,
    /// The key means nothing here.
    Unbound,
}

pub open spec fn search_binding(key: KeyPress) -> SearchInput {
    match key.code {
        KeyCode::Esc | KeyCode::Enter => SearchInput::Exit,
        KeyCode::Backspace => SearchInput::Backspace,
        KeyCode::Char(c) => if key.ctrl {
            if c == 'w' {
                SearchInput::DeleteWord
            } else if c == 'u' {
                SearchInput::Clear
            } else {
                SearchInput::Unbound
            }
        } else {
            SearchInput::Char(c)
        },
        _ => SearchInput::Unbound,
    }
}

pub fn map_search_key(key: KeyPress) -> (r: SearchInput)
    ensures
        r == search_binding(key),
{
    match key.code {
        KeyCode::Esc | KeyCode::Enter => SearchInput::Exit,
        KeyCode::Backspace => SearchInput::Backspace,
        KeyCode::Char(c) => if key.ctrl {
            if c == 'w' {
                SearchInput::DeleteWord
            } else if c == 'u' {
                SearchInput::Clear
            } else {
                SearchInput::Unbound
            }
        } else {
            SearchInput::Char(c)
        },
        _ => SearchInput::Unbound,
    }
}

#[derive(Debug, Clone, Copy, PartialEq, Eq, Structural)]
pub enum LittleCreateInput {
    Char(char),
    Backspace,
    Submit,
    Cancel,
    /// The key means nothing here.
    Unbound,
}

pub open spec fn little_create_binding(key: KeyPress) -> LittleCreateInput {
    match key.code {
        KeyCode::Char(c) => LittleCreateInput::Char(c),
        KeyCode::Backspace => LittleCreateInput::Backspace,
        KeyCode::Enter => LittleCreateInput::Submit,
        KeyCode::Esc => LittleCreateInput::Cancel,
        _ => LittleCreateInput::Unbound,
    }
}

pub fn map_little_create_key(key: KeyPress) -> (r: LittleCreateInput)
    ensures
        r == little_create_binding(key),
{
    match key.code {
        KeyCode::Char(c) => LittleCreateInput::Char(c),
        KeyCode::Backspace => LittleCreateInput::Backspace,
        KeyCode::Enter => LittleCreateInput::Submit,
        KeyCode::Esc => LittleCreateInput::Cancel,
        _ => LittleCreateInput::Unbound,
    }
}

/// What a key press means in the form. `TextEdit` hands the key to the
/// focused text field.
#[derive(Debug, Clone, Copy, PartialEq, Eq, Structural)]
pub enum FormInput {
    NextField,
    PrevField,
    Enter,
    MoveUp,
    MoveDown,
    ToggleLabel,
    Cancel,
    SubmitNow,
    TextEdit,
    /// The key means nothing here.
    Unbound,
}

pub open spec fn form_binding(key: KeyPress, field: FormField) -> FormInput {
    if key.code == KeyCode::Char('s') && key.ctrl {
        FormInput::SubmitNow
    } else if key.code == KeyCode::Tab {
        FormInput::NextField
    } else if key.code == KeyCode::BackTab {
        FormInput::PrevField
    } else if key.code == KeyCode::Esc {
        FormInput::Cancel
    } else if (key.code == KeyCode::Enter || key.code == KeyCode::Char(' ')) && field
        == FormField::Submit {
        FormInput::Enter
    } else if key.code == KeyCode::Enter && field == FormField::Title {
        FormInput::Enter
    } else if key.code == KeyCode::Up && field == FormField::Labels {
        FormInput::MoveUp
    } else if key.code == KeyCode::Down && field == FormField::Labels {
        FormInput::MoveDown
    } else if key.code == KeyCode::Char(' ') && field == FormField::Labels {
        FormInput::ToggleLabel
    } else if field == FormField::Title || field == FormField::Body {
        FormInput::TextEdit
    } else {
        FormInput::Unbound
    }
}

pub fn map_form_key(key: KeyPress, field: FormField) -> (r: FormInput)
    ensures
        r == form_binding(key, field),
{
    let ctrl = key.ctrl;
    match key.code {
        KeyCode::Char('s') if ctrl => {
            return FormInput::SubmitNow;
        },
        KeyCode::Tab => {
            return FormInput::NextField;
        },
        KeyCode::BackTab => {
            return FormInput::PrevField;
        },
        KeyCode::Esc => {
            return FormInput::Cancel;
        },
        KeyCode::Enter if field == FormField::Submit => {
            return FormInput::Enter;
        },
        KeyCode::Char(' ') if field == FormField::Submit => {
            return FormInput::Enter;
        },
        KeyCode::Enter if field == FormField::Title => {
            return FormInput::Enter;
        },
        KeyCode::Up if field == FormField::Labels => {
            return FormInput::MoveUp;
        },
        KeyCode::Down if field == FormField::Labels => {
            return FormInput::MoveDown;
        },
        KeyCode::Char(' ') if field == FormField::Labels => {
            return FormInput::ToggleLabel;
        },
        _ => {},
    }
    match field {
        FormField::Title | FormField::Body => FormInput::TextEdit,
        FormField::Labels | FormField::Submit => FormInput::Unbound,
    }
}

#[derive(Debug, Clone, Copy, PartialEq, Eq, Structural)]
pub enum ConfirmInput {
    Yes,
    No,
    /// The key means nothing here.
    Unbound,
}

pub open spec fn confirm_binding(key: KeyPress) -> ConfirmInput {
    match key.code {
        KeyCode::Char('y') | KeyCode::Char('Y') => ConfirmInput::Yes,
        KeyCode::Char('n') | KeyCode::Char('N') | KeyCode::Esc => ConfirmInput::No,
        _ => ConfirmInput::Unbound,
    }
}

pub fn map_confirm_key(key: KeyPress) -> (r: ConfirmInput)
    ensures
        r == confirm_binding(key),
{
    match key.code {
        KeyCode::Char('y') | KeyCode::Char('Y') => ConfirmInput::Yes,
        KeyCode::Char('n') | KeyCode::Char('N') | KeyCode::Esc => ConfirmInput::No,
        _ => ConfirmInput::Unbound,
    }
}

#[derive(Debug, Clone, Copy, PartialEq, Eq, Structural)]
pub enum SettingsInput {
    Down,
    Up,
    Toggle,
    Exit,
    /// The key means nothing here.
    Unbound,
}

pub open spec fn settings_binding(key: KeyPress) -> SettingsInput {
    match key.code {
        KeyCode::Char('j') | KeyCode::Down => SettingsInput::Down,
        KeyCode::Char('k') | KeyCode::Up => SettingsInput::Up,
        KeyCode::Enter | KeyCode::Char(' ') | KeyCode::Char('h') | KeyCode::Char('l') => SettingsInput::Toggle,
        KeyCode::Char('q') | KeyCode::Esc => SettingsInput::Exit,
        _ => SettingsInput::Unbound,
    }
}

pub fn map_settings_key(key: KeyPress) -> (r: SettingsInput)
    ensures
        r == settings_binding(key),
{
    match key.code {
        KeyCode::Char('j') | KeyCode::Down => SettingsInput::Down,
        KeyCode::Char('k') | KeyCode::Up => SettingsInput::Up,
        KeyCode::Enter | KeyCode::Char(' ') | KeyCode::Char('h') | KeyCode::Char('l') => SettingsInput::Toggle,
        KeyCode::Char('q') | KeyCode::Esc => SettingsInput::Exit,
        _ => SettingsInput::Unbound,
    }
}

/// Esc always leaves: it quits the list, exits search, cancels quick-create
/// and the form, answers no to a confirmation and returns from Settings,
/// whatever else is held.
pub proof fn lemma_escape_always_leaves(ctrl: bool, field: FormField)
    ensures
        list_binding(KeyPress { code: KeyCode::Esc, ctrl }) == ListInput::Quit,
        search_binding(KeyPress { code: KeyCode::Esc, ctrl }) == SearchInput::Exit,
        little_create_binding(KeyPress { code: KeyCode::Esc, ctrl }) == LittleCreateInput::Cancel,
        form_binding(KeyPress { code: KeyCode::Esc, ctrl }, field) == FormInput::Cancel,
        confirm_binding(KeyPress { code: KeyCode::Esc, ctrl }) == ConfirmInput::No,
        settings_binding(KeyPress { code: KeyCode::Esc, ctrl }) == SettingsInput::Exit,
{
}

/// Ctrl+S submits the form from every field.
pub proof fn lemma_ctrl_s_submits_anywhere(field: FormField)
    ensures
        form_binding(KeyPress { code: KeyCode::Char('s'), ctrl: true }, field) == FormInput::SubmitNow,
{
}

} // verus!
