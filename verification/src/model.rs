//! The issue data the picker shows, and the application state machine that
//! every key press drives.

use crate::checks;
use crate::checks::{ascending, toggle_number, toggled};
use crate::clock;
use crate::editor;
use crate::editor::{
    cursor_of, cursor_to_last_line, cursor_to_line_end, feed_key, lines_of, new_textarea,
    plain_cursor_line, wrap_words, TextField,
};
use crate::gh::StateFilter;
use crate::search;
use crate::text;
use crate::text::{chars_of, join_chars, owned, slice_of, split_chars, string_of, trimmed};
use ratatui_textarea::Input;
use std::collections::BTreeSet;
use std::time::Instant;
use vstd::prelude::*;
use vstd::std_specs::cmp::PartialEqSpecImpl;

verus! {

#[derive(Debug, Clone, PartialEq)]
pub struct Label {
    pub name: String,
    pub color: String,
}

#[derive(Debug, Clone, Copy, PartialEq, Eq, Structural)]
pub enum IssueState {
    Open,
    Closed,
}

#[derive(Debug, Clone, PartialEq)]
pub struct Issue {
    pub number: u32,
    pub title: String,
    pub body: String,
    pub labels: Vec<Label>,
    pub state: IssueState,
    pub url: String,
    pub created_at: String,
}

/// How long a status message stays up.
pub const STATUS_TOAST_MS: u128 = 2000;

/// How long a row that was just created or edited stays highlighted.
pub const FLASH_MS: u128 = 800;

/// How long each frame of the activity spinner shows.
pub const ACTIVITY_SPINNER_INTERVAL_MS: u128 = 100;

#[derive(Debug, Clone, Copy, PartialEq, Eq, Structural)]
pub enum PendingOperation {
    CreateIssue,
    EditIssue,
    CloseIssue,
    /// Reading the issue list again.
    RefreshList,
}

#[derive(Debug, Clone)]
pub struct PendingState {
    pub operation: PendingOperation,
    pub started_at: Instant,
}

#[derive(Debug, Clone, Copy, PartialEq, Eq, Structural)]
pub enum LoadingAnimation {
    MatrixRain,
    ColorRipple,
    RainbowRipple,
}

/// The animation a (trimmed, ASCII-lowercased) name selects.
pub open spec fn animation_named(v: Seq<char>) -> Option<LoadingAnimation> {
    if v == "matrix"@ || v == "matrix-rain"@ || v == "rain"@ {
        Some(LoadingAnimation::MatrixRain)
    } else if v == "ripple"@ || v == "color-ripple"@ || v == "bullseye"@ {
        Some(LoadingAnimation::ColorRipple)
    } else if v == "rainbow"@ || v == "rainbow-ripple"@ || v == "rings"@ {
        Some(LoadingAnimation::RainbowRipple)
    } else {
        None
    }
}

/// The animation shown at a launch `millis` after the epoch: the three take
/// turns.
pub open spec fn animation_at(millis: u128) -> LoadingAnimation {
    if millis % 3 == 0 {
        LoadingAnimation::MatrixRain
    } else if millis % 3 == 1 {
        LoadingAnimation::ColorRipple
    } else {
        LoadingAnimation::RainbowRipple
    }
}

impl LoadingAnimation {
    /// The animation named by `value`, ignoring surrounding whitespace and
    /// ASCII case.
    pub fn parse(value: &str) -> (r: Option<Self>)
        ensures
            r == animation_named(text::lower(text::trim(value@))),
    {
        let v = text::lowered(&trimmed(&chars_of(value)));
        if text::eq_str(&v, "matrix") || text::eq_str(&v, "matrix-rain") || text::eq_str(&v, "rain") {
            Some(LoadingAnimation::MatrixRain)
        } else if text::eq_str(&v, "ripple") || text::eq_str(&v, "color-ripple") || text::eq_str(
            &v,
            "bullseye",
        ) {
            Some(LoadingAnimation::ColorRipple)
        } else if text::eq_str(&v, "rainbow") || text::eq_str(&v, "rainbow-ripple")
            || text::eq_str(&v, "rings") {
            Some(LoadingAnimation::RainbowRipple)
        } else {
            None
        }
    }

    pub fn rotated_at(millis: u128) -> (r: Self)
        ensures
            r == animation_at(millis),
    {
        let k = millis % 3;
        if k == 0 {
            LoadingAnimation::MatrixRain
        } else if k == 1 {
            LoadingAnimation::ColorRipple
        } else {
            LoadingAnimation::RainbowRipple
        }
    }

    /// The animation a launch shows, given the value of the animation
    /// setting in the environment: the one it names, Matrix rain otherwise.
    pub fn for_launch(value: Option<&str>) -> (r: Self)
        ensures
            r == match value {
                Some(v) => match animation_named(text::lower(text::trim(v@))) {
                    Some(a) => a,
                    None => LoadingAnimation::MatrixRain,
                },
                None => LoadingAnimation::MatrixRain,
            },
    {
        match value {
            Some(v) => match Self::parse(v) {
                Some(a) => a,
                None => LoadingAnimation::MatrixRain,
            },
            None => LoadingAnimation::MatrixRain,
        }
    }

    /// An animation chosen by the clock, so that launches take turns through
    /// the three.
    pub fn rotated() -> (r: Self)
        ensures
            exists|millis: u128| r == animation_at(millis),
    {
        Self::rotated_at(clock::unix_millis())
    }
}

#[derive(Debug, Clone)]
pub struct LoadingState {
    pub started_at: Instant,
    pub animation: LoadingAnimation,
    pub what: &'static str,
}

#[derive(Debug)]
pub enum Mode {
    List,
    Search,
    LittleCreate(String),
    Form(Box<FormState>),
    ConfirmClose(u32),
    ConfirmDiscard(Box<Mode>),
    Settings,
}

#[derive(Debug, Clone, Copy, PartialEq, Eq, Default, Structural)]
pub enum FormField {
    #[default]
    Title,
    Body,
    Labels,
    Submit,
}

impl FormField {
    /// Tab order: Title → Body → Labels → Submit → Title.
    pub open spec fn next(self) -> FormField {
        match self {
            FormField::Title => FormField::Body,
            FormField::Body => FormField::Labels,
            FormField::Labels => FormField::Submit,
            FormField::Submit => FormField::Title,
        }
    }

    pub open spec fn prev(self) -> FormField {
        match self {
            FormField::Title => FormField::Submit,
            FormField::Body => FormField::Title,
            FormField::Labels => FormField::Body,
            FormField::Submit => FormField::Labels,
        }
    }
}

/// Shift+Tab undoes Tab and the other way round; four Tabs come back to the
/// same field.
pub proof fn lemma_form_field_cycle(f: FormField)
    ensures
        f.next().prev() == f,
        f.prev().next() == f,
        f.next().next().next().next() == f,
{
}

#[derive(Debug, Clone)]
pub struct FormState {
    pub editing: Option<u32>,
    pub title_input: TextField,
    pub body_input: TextField,
    pub all_label_names: Vec<String>,
    /// The checked labels; the order carries no meaning.
    pub selected_labels: Vec<String>,
    pub label_cursor: usize,
    pub field: FormField,
    pub original_title: String,
    pub original_body: String,
    /// The labels checked when the form opened; the order carries no meaning.
    pub original_labels: Vec<String>,
}

/// The members of a list of strings, as a set.
pub open spec fn members(v: Seq<String>) -> Set<Seq<char>> {
    text::strs_of(v).to_set()
}

impl FormState {
    pub open spec fn title_spec(self) -> Seq<char> {
        text::join(editor::textarea_lines(self.title_input), "\n"@)
    }

    pub open spec fn body_spec(self) -> Seq<char> {
        text::join(editor::textarea_lines(self.body_input), "\n"@)
    }

    /// The form differs from what it was opened with.
    pub open spec fn dirty(self) -> bool {
        ||| self.title_spec() != self.original_title@
        ||| self.body_spec() != self.original_body@
        ||| members(self.selected_labels@) != members(self.original_labels@)
    }

    pub fn title_text(&self) -> (r: String)
        ensures
            r@ == self.title_spec(),
    {
        field_text(&self.title_input)
    }

    pub fn body_text(&self) -> (r: String)
        ensures
            r@ == self.body_spec(),
    {
        field_text(&self.body_input)
    }

    /// A blank create form whose fields hold `title` and `body`.
    pub fn with_title_body(title: &str, body: &str) -> (f: FormState)
        ensures
            f.title_spec() == title@,
            f.body_spec() == body@,
            f.editing is None,
            f.field == FormField::Title,
            f.label_cursor == 0,
            f.all_label_names@.len() == 0,
            f.selected_labels@.len() == 0,
            f.original_labels@.len() == 0,
            f.original_title@.len() == 0,
            f.original_body@.len() == 0,
    {
        FormState {
            editing: None,
            title_input: new_single_line_textarea(title),
            body_input: new_multi_line_textarea(body),
            all_label_names: Vec::new(),
            selected_labels: Vec::new(),
            label_cursor: 0,
            field: FormField::Title,
            original_title: String::new(),
            original_body: String::new(),
            original_labels: Vec::new(),
        }
    }

    pub fn is_dirty(&self) -> (r: bool)
        ensures
            r == self.dirty(),
    {
        let t = self.title_text();
        if t != self.original_title {
            return true;
        }
        let b = self.body_text();
        if b != self.original_body {
            return true;
        }
        !same_members(&self.selected_labels, &self.original_labels)
    }
}

impl FormState {
    /// `g` is a copy of this form: the same fields, its text fields holding
    /// the same lines.
    pub open spec fn same_form(self, g: FormState) -> bool {
        &&& g.editing == self.editing
        &&& editor::textarea_lines(g.title_input) == editor::textarea_lines(self.title_input)
        &&& editor::textarea_lines(g.body_input) == editor::textarea_lines(self.body_input)
        &&& g.all_label_names@ == self.all_label_names@
        &&& g.selected_labels@ == self.selected_labels@
        &&& g.label_cursor == self.label_cursor
        &&& g.field == self.field
        &&& g.original_title == self.original_title
        &&& g.original_body == self.original_body
        &&& g.original_labels@ == self.original_labels@
    }

    /// A copy of the form, kept to show again.
    pub fn snapshot(&self) -> (g: FormState)
        ensures
            self.same_form(g),
            g.title_spec() == self.title_spec(),
            g.body_spec() == self.body_spec(),
    {
        let g = FormState {
            editing: self.editing,
            title_input: self.title_input.clone(),
            body_input: self.body_input.clone(),
            all_label_names: self.all_label_names.clone(),
            selected_labels: self.selected_labels.clone(),
            label_cursor: self.label_cursor,
            field: self.field,
            original_title: self.original_title.clone(),
            original_body: self.original_body.clone(),
            original_labels: self.original_labels.clone(),
        };
        assert forall|k: int| 0 <= k < g.all_label_names@.len() implies g.all_label_names@[k]
            == self.all_label_names@[k] by {
            assert(cloned::<String>(self.all_label_names@[k], g.all_label_names@[k]));
        }
        assert forall|k: int| 0 <= k < g.selected_labels@.len() implies g.selected_labels@[k]
            == self.selected_labels@[k] by {
            assert(cloned::<String>(self.selected_labels@[k], g.selected_labels@[k]));
        }
        assert forall|k: int| 0 <= k < g.original_labels@.len() implies g.original_labels@[k]
            == self.original_labels@[k] by {
            assert(cloned::<String>(self.original_labels@[k], g.original_labels@[k]));
        }
        assert(g.all_label_names@ =~= self.all_label_names@);
        assert(g.selected_labels@ =~= self.selected_labels@);
        assert(g.original_labels@ =~= self.original_labels@);
        g
    }
}

impl FormState {
    /// Two forms read the same: the same fields, texts and cursors, and the
    /// same checked labels whatever their order.
    pub open spec fn same_content(self, other: FormState) -> bool {
        &&& self.editing == other.editing
        &&& self.title_spec() == other.title_spec()
        &&& self.body_spec() == other.body_spec()
        &&& editor::textarea_cursor(self.title_input) == editor::textarea_cursor(other.title_input)
        &&& editor::textarea_cursor(self.body_input) == editor::textarea_cursor(other.body_input)
        &&& text::strs_of(self.all_label_names@) == text::strs_of(other.all_label_names@)
        &&& members(self.selected_labels@) == members(other.selected_labels@)
        &&& self.label_cursor == other.label_cursor
        &&& self.field == other.field
        &&& self.original_title@ == other.original_title@
        &&& self.original_body@ == other.original_body@
        &&& members(self.original_labels@) == members(other.original_labels@)
    }
}

/// Whether two lists of strings are equal, element by element.
fn same_strings(a: &Vec<String>, b: &Vec<String>) -> (r: bool)
    ensures
        r == (text::strs_of(a@) == text::strs_of(b@)),
{
    if a.len() != b.len() {
        assert(text::strs_of(a@).len() != text::strs_of(b@).len());
        return false;
    }
    let mut i: usize = 0;
    while i < a.len()
        invariant
            i <= a.len(),
            a.len() == b.len(),
            forall|k: int| 0 <= k < i ==> (#[trigger] a@[k])@ == b@[k]@,
        decreases a.len() - i,
    {
        if a[i] != b[i] {
            assert(text::strs_of(a@)[i as int] != text::strs_of(b@)[i as int]);
            return false;
        }
        i = i + 1;
    }
    assert(text::strs_of(a@) =~= text::strs_of(b@));
    true
}

fn same_cursor(a: &TextField, b: &TextField) -> (r: bool)
    ensures
        r == (editor::textarea_cursor(*a) == editor::textarea_cursor(*b)),
{
    let x = cursor_of(a);
    let y = cursor_of(b);
    x.0 == y.0 && x.1 == y.1
}

impl PartialEq for FormState {
    fn eq(&self, other: &Self) -> (r: bool) {
        self.editing == other.editing && self.title_text() == other.title_text()
            && self.body_text() == other.body_text() && same_cursor(
            &self.title_input,
            &other.title_input,
        ) && same_cursor(&self.body_input, &other.body_input) && same_strings(
            &self.all_label_names,
            &other.all_label_names,
        ) && same_members(&self.selected_labels, &other.selected_labels) && self.label_cursor
            == other.label_cursor && self.field == other.field && self.original_title
            == other.original_title && self.original_body == other.original_body && same_members(
            &self.original_labels,
            &other.original_labels,
        )
    }
}

impl PartialEqSpecImpl for FormState {
    open spec fn obeys_eq_spec() -> bool {
        true
    }

    open spec fn eq_spec(&self, other: &FormState) -> bool {
        self.same_content(*other)
    }
}

/// Two modes read the same: the same screen with the same content.
pub open spec fn same_mode(a: Mode, b: Mode) -> bool
    decreases a,
{
    match a {
        Mode::List => b is List,
        Mode::Search => b is Search,
        Mode::LittleCreate(x) => b matches Mode::LittleCreate(y) && x@ == y@,
        Mode::Form(f) => b matches Mode::Form(g) && f.same_content(*g),
        Mode::ConfirmClose(n) => b matches Mode::ConfirmClose(m) && n == m,
        Mode::ConfirmDiscard(p) => match b {
            Mode::ConfirmDiscard(q) => same_mode(*p, *q),
            _ => false,
        },
        Mode::Settings => b is Settings,
    }
}

fn modes_equal(a: &Mode, b: &Mode) -> (r: bool)
    ensures
        r == same_mode(*a, *b),
    decreases a,
{
    match a {
        Mode::List => match b {
            Mode::List => true,
            _ => false,
        },
        Mode::Search => match b {
            Mode::Search => true,
            _ => false,
        },
        Mode::LittleCreate(x) => match b {
            Mode::LittleCreate(y) => *x == *y,
            _ => false,
        },
        Mode::Form(f) => match b {
            Mode::Form(g) => (**f).eq(&**g),
            _ => false,
        },
        Mode::ConfirmClose(n) => match b {
            Mode::ConfirmClose(m) => n == m,
            _ => false,
        },
        Mode::ConfirmDiscard(p) => match b {
            Mode::ConfirmDiscard(q) => modes_equal(p, q),
            _ => false,
        },
        Mode::Settings => match b {
            Mode::Settings => true,
            _ => false,
        },
    }
}

impl PartialEq for Mode {
    fn eq(&self, other: &Self) -> (r: bool) {
        modes_equal(self, other)
    }
}

impl PartialEqSpecImpl for Mode {
    open spec fn obeys_eq_spec() -> bool {
        true
    }

    open spec fn eq_spec(&self, other: &Mode) -> bool {
        same_mode(*self, *other)
    }
}

fn field_text(t: &TextField) -> (r: String)
    ensures
        r@ == text::join(editor::textarea_lines(*t), "\n"@),
{
    let lines = lines_of(t);
    let mut parts: Vec<Vec<char>> = Vec::new();
    let mut i: usize = 0;
    while i < lines.len()
        invariant
            i <= lines.len(),
            text::seqs_of(parts@) == text::strs_of(lines@).take(i as int),
        decreases lines.len() - i,
    {
        let cs = chars_of(lines[i].as_str());
        let ghost before = text::seqs_of(parts@);
        parts.push(cs);
        assert(text::seqs_of(parts@) =~= before.push(cs@));
        assert(text::strs_of(lines@).take(i + 1) =~= text::strs_of(lines@).take(i as int).push(
            cs@,
        ));
        i = i + 1;
    }
    assert(text::strs_of(lines@).take(lines.len() as int) =~= text::strs_of(lines@));
    let joined = join_chars(&parts, &chars_of("\n"));
    string_of(&joined)
}

/// The cursor stands after the last character of the last line.
pub open spec fn at_text_end(t: TextField) -> bool {
    let lines = editor::textarea_lines(t);
    lines.len() > 0 && editor::textarea_cursor(t) == ((lines.len() - 1) as usize, lines.last().len() as usize)
}

/// A one-line field holding `initial`, cursor at its end.
fn new_single_line_textarea(initial: &str) -> (t: TextField)
    ensures
        editor::textarea_lines(t) == seq![initial@],
        text::join(editor::textarea_lines(t), "\n"@) == initial@,
        editor::textarea_cursor(t) == (0usize, initial@.len() as usize),
{
    let line = owned(initial);
    let v = vec![line];
    assert(text::strs_of(v@) =~= seq![initial@]);
    let mut t = new_textarea(v);
    plain_cursor_line(&mut t);
    cursor_to_line_end(&mut t);
    t
}

/// A word-wrapping field holding the lines of `initial`, cursor at the end of
/// the last line.
fn new_multi_line_textarea(initial: &str) -> (t: TextField)
    ensures
        text::join(editor::textarea_lines(t), "\n"@) == initial@,
        at_text_end(t),
{
    let cs = chars_of(initial);
    let pieces = split_chars(&cs, '\n');
    let mut lines: Vec<String> = Vec::new();
    let mut i: usize = 0;
    while i < pieces.len()
        invariant
            i <= pieces.len(),
            text::strs_of(lines@) == text::seqs_of(pieces@).take(i as int),
        decreases pieces.len() - i,
    {
        let s = string_of(&pieces[i]);
        let ghost before = text::strs_of(lines@);
        lines.push(s);
        assert(text::strs_of(lines@) =~= before.push(s@));
        assert(text::seqs_of(pieces@).take(i + 1) =~= text::seqs_of(pieces@).take(i as int).push(
            s@,
        ));
        i = i + 1;
    }
    assert(text::seqs_of(pieces@).take(pieces.len() as int) =~= text::seqs_of(pieces@));
    proof {
        text::lemma_split_join(cs@, '\n');
        text::lemma_split_nonempty(cs@, '\n');
        reveal_strlit("\n");
        assert("\n"@ =~= seq!['\n']);
    }
    let mut t = new_textarea(lines);
    plain_cursor_line(&mut t);
    wrap_words(&mut t);
    cursor_to_last_line(&mut t);
    cursor_to_line_end(&mut t);
    t
}


// ---------------------------------------------------------------------------
// Lists of strings used as sets
// ---------------------------------------------------------------------------

proof fn lemma_push_contains(s: Seq<Seq<char>>, x: Seq<char>, y: Seq<char>)
    ensures
        s.push(x).contains(y) <==> (s.contains(y) || y == x),
{
    if s.push(x).contains(y) {
        let k = choose|k: int| 0 <= k < s.push(x).len() && s.push(x)[k] == y;
        if k < s.len() {
            assert(s[k] == y);
        }
    }
    if s.contains(y) {
        let k = choose|k: int| 0 <= k < s.len() && s[k] == y;
        assert(s.push(x)[k] == y);
    }
    if y == x {
        assert(s.push(x)[s.len() as int] == y);
    }
}

/// Appending keeps a sequence free of repeats exactly when what is appended
/// is new.
proof fn lemma_push_no_duplicates(s: Seq<Seq<char>>, x: Seq<char>)
    ensures
        s.push(x).no_duplicates() <==> (s.no_duplicates() && !s.contains(x)),
{
    let p = s.push(x);
    if s.no_duplicates() && !s.contains(x) {
        assert forall|i: int, j: int| 0 <= i < p.len() && 0 <= j < p.len() && i != j implies p[i]
            != p[j] by {
            if i == s.len() {
                assert(p[j] == s[j]);
            } else if j == s.len() {
                assert(p[i] == s[i]);
            }
        }
    }
    if p.no_duplicates() {
        assert forall|i: int, j: int| 0 <= i < s.len() && 0 <= j < s.len() && i != j implies s[i]
            != s[j] by {
            assert(p[i] == s[i] && p[j] == s[j]);
        }
        if s.contains(x) {
            let k = choose|k: int| 0 <= k < s.len() && s[k] == x;
            assert(p[k] == p[s.len() as int]);
        }
    }
}

/// Whether `x` is in `v`.
pub fn contains_string(v: &Vec<String>, x: &String) -> (b: bool)
    ensures
        b == text::strs_of(v@).contains(x@),
{
    let mut i: usize = 0;
    while i < v.len()
        invariant
            i <= v.len(),
            forall|k: int| 0 <= k < i ==> (#[trigger] v@[k])@ != x@,
        decreases v.len() - i,
    {
        if v[i] == *x {
            assert(text::strs_of(v@)[i as int] == x@);
            return true;
        }
        i = i + 1;
    }
    assert forall|k: int| 0 <= k < v@.len() implies text::strs_of(v@)[k] != x@ by {
        assert(text::strs_of(v@)[k] == v@[k]@);
    }
    false
}

/// Whether every member of `a` is in `b`.
fn all_within(a: &Vec<String>, b: &Vec<String>) -> (r: bool)
    ensures
        r == members(a@).subset_of(members(b@)),
{
    let mut i: usize = 0;
    while i < a.len()
        invariant
            i <= a.len(),
            forall|k: int| 0 <= k < i ==> text::strs_of(b@).contains(#[trigger] a@[k]@),
        decreases a.len() - i,
    {
        if !contains_string(b, &a[i]) {
            assert(members(a@).contains(a@[i as int]@)) by {
                assert(text::strs_of(a@)[i as int] == a@[i as int]@);
            }
            return false;
        }
        i = i + 1;
    }
    assert forall|x: Seq<char>| members(a@).contains(x) implies members(b@).contains(x) by {
        let k = choose|k: int| 0 <= k < text::strs_of(a@).len() && text::strs_of(a@)[k] == x;
        assert(text::strs_of(a@)[k] == a@[k]@);
    }
    true
}

/// Whether `a` and `b` have the same members.
fn same_members(a: &Vec<String>, b: &Vec<String>) -> (r: bool)
    ensures
        r == (members(a@) == members(b@)),
{
    let ab = all_within(a, b);
    let ba = all_within(b, a);
    proof {
        if ab && ba {
            assert(members(a@) =~= members(b@));
        }
    }
    ab && ba
}

/// The members of `a` that are not members of `b`, each once, in their order
/// in `a`.
fn difference(a: &Vec<String>, b: &Vec<String>) -> (r: Vec<String>)
    ensures
        members(r@) == members(a@).difference(members(b@)),
        text::strs_of(r@).no_duplicates(),
{
    let mut r: Vec<String> = Vec::new();
    let mut i: usize = 0;
    while i < a.len()
        invariant
            i <= a.len(),
            members(r@) == members(a@.take(i as int)).difference(members(b@)),
            text::strs_of(r@).no_duplicates(),
        decreases a.len() - i,
    {
        let ghost before = r@;
        assert(a@.take(i + 1) =~= a@.take(i as int).push(a@[i as int]));
        assert(text::strs_of(a@.take(i + 1)) =~= text::strs_of(a@.take(i as int)).push(a@[i as int]@));
        let in_b = contains_string(b, &a[i]);
        let in_r = contains_string(&r, &a[i]);
        if !in_b && !in_r {
            let x = a[i].clone();
            r.push(x);
            assert(text::strs_of(r@) =~= text::strs_of(before).push(x@));
        }
        proof {
            if in_b || in_r {
                assert(r@ == before);
            }
            let pre = text::strs_of(a@.take(i as int));
            let x = a@[i as int]@;
            assert forall|y: Seq<char>| members(r@).contains(y) == members(a@.take(i + 1)).difference(members(b@)).contains(y) by {
                lemma_push_contains(pre, x, y);
                lemma_push_contains(text::strs_of(before), x, y);
                assert(members(a@.take(i + 1)).contains(y) == text::strs_of(a@.take(i + 1)).contains(y));
                assert(members(a@.take(i as int)).contains(y) == pre.contains(y));
                assert(members(b@).contains(y) == text::strs_of(b@).contains(y));
                assert(members(r@).contains(y) == text::strs_of(r@).contains(y));
                assert(members(before).contains(y) == text::strs_of(before).contains(y));
            }
            assert(members(r@) =~= members(a@.take(i + 1)).difference(members(b@)));
            if text::strs_of(r@) != text::strs_of(before) {
                assert forall|p: int, q: int| 0 <= p < text::strs_of(r@).len() && 0 <= q < text::strs_of(r@).len() && p != q implies text::strs_of(r@)[p] != text::strs_of(r@)[q] by {
                    if p == before.len() as int {
                        assert(!text::strs_of(before).contains(x));
                        assert(text::strs_of(before)[q] == text::strs_of(r@)[q]);
                    } else if q == before.len() as int {
                        assert(!text::strs_of(before).contains(x));
                        assert(text::strs_of(before)[p] == text::strs_of(r@)[p]);
                    } else {
                        assert(text::strs_of(before)[p] == text::strs_of(r@)[p]);
                        assert(text::strs_of(before)[q] == text::strs_of(r@)[q]);
                    }
                }
            }
        }
        i = i + 1;
    }
    assert(a@.take(a.len() as int) =~= a@);
    r
}

/// `v` without any occurrence of `x`.
fn without_string(v: &Vec<String>, x: &String) -> (r: Vec<String>)
    ensures
        members(r@) == members(v@).remove(x@),
        text::strs_of(v@).no_duplicates() ==> text::strs_of(r@).no_duplicates(),
{
    let mut r: Vec<String> = Vec::new();
    let mut i: usize = 0;
    while i < v.len()
        invariant
            i <= v.len(),
            members(r@) == members(v@.take(i as int)).remove(x@),
            text::strs_of(v@.take(i as int)).no_duplicates() ==> text::strs_of(
                r@,
            ).no_duplicates(),
        decreases v.len() - i,
    {
        let ghost before = r@;
        assert(v@.take(i + 1) =~= v@.take(i as int).push(v@[i as int]));
        assert(text::strs_of(v@.take(i + 1)) =~= text::strs_of(v@.take(i as int)).push(v@[i as int]@));
        let same = v[i] == *x;
        if !same {
            let y = v[i].clone();
            r.push(y);
            assert(text::strs_of(r@) =~= text::strs_of(before).push(y@));
        }
        proof {
            if same {
                assert(r@ == before);
            }
            let pre = text::strs_of(v@.take(i as int));
            let z = v@[i as int]@;
            assert forall|y: Seq<char>| members(r@).contains(y) == members(v@.take(i + 1)).remove(x@).contains(y) by {
                lemma_push_contains(pre, z, y);
                lemma_push_contains(text::strs_of(before), z, y);
                assert(members(v@.take(i + 1)).contains(y) == text::strs_of(v@.take(i + 1)).contains(y));
                assert(members(v@.take(i as int)).contains(y) == pre.contains(y));
                assert(members(r@).contains(y) == text::strs_of(r@).contains(y));
                assert(members(before).contains(y) == text::strs_of(before).contains(y));
            }
            assert(members(r@) =~= members(v@.take(i + 1)).remove(x@));
            lemma_push_no_duplicates(pre, z);
            if !same {
                lemma_push_no_duplicates(text::strs_of(before), z);
                if text::strs_of(before).contains(z) {
                    assert(members(before).contains(z));
                }
            }
        }
        i = i + 1;
    }
    assert(v@.take(v.len() as int) =~= v@);
    r
}

/// The names of `labels`.
pub open spec fn names_of(labels: Seq<Label>) -> Seq<Seq<char>> {
    labels.map_values(|l: Label| l.name@)
}

/// The names of `labels`, in order.
fn label_names(labels: &Vec<Label>) -> (r: Vec<String>)
    ensures
        text::strs_of(r@) == names_of(labels@),
{
    let mut r: Vec<String> = Vec::new();
    let mut i: usize = 0;
    while i < labels.len()
        invariant
            i <= labels.len(),
            text::strs_of(r@) == names_of(labels@.take(i as int)),
        decreases labels.len() - i,
    {
        let n = labels[i].name.clone();
        let ghost before = text::strs_of(r@);
        r.push(n);
        assert(text::strs_of(r@) =~= before.push(n@));
        assert(names_of(labels@.take(i + 1)) =~= names_of(labels@.take(i as int)).push(n@));
        i = i + 1;
    }
    assert(labels@.take(labels.len() as int) =~= labels@);
    r
}

/// The names of `labels`, each once.
fn distinct_label_names(labels: &Vec<Label>) -> (r: Vec<String>)
    ensures
        members(r@) == names_of(labels@).to_set(),
        text::strs_of(r@).no_duplicates(),
{
    let names = label_names(labels);
    let none: Vec<String> = Vec::new();
    let r = difference(&names, &none);
    assert(members(none@) =~= Set::<Seq<char>>::empty());
    assert(members(r@) =~= members(names@));
    r
}

#[derive(Debug, Clone, PartialEq)]
pub struct FormSubmission {
    pub editing: Option<u32>,
    pub title: String,
    pub body: String,
    pub add_labels: Vec<String>,
    pub remove_labels: Vec<String>,
}

/// How many rows the Settings view has: exit after copy, zebra striping.
pub const SETTINGS_ROWS: usize = 2;

pub struct AppState {
    pub issues: Vec<Issue>,
    pub all_labels: Vec<Label>,
    pub state_filter: StateFilter,
    pub mode: Mode,
    pub cursor: usize,
    pub search_query: String,
    pub search_ranked: Vec<usize>,
    pub status: Option<(String, Instant)>,
    pub loading: Option<LoadingState>,
    pub pending: Option<PendingState>,
    pub pane_open: bool,
    pub repo_name_with_owner: Option<String>,
    /// A copy that worked ends the session.
    pub exit_on_copy_yank: bool,
    /// Every other list row is drawn dim.
    pub zebra_striping: bool,
    /// The row of the Settings view under the cursor.
    pub settings_cursor: usize,
    /// The numbers of the issues checked for copying together.
    pub checked: BTreeSet<u32>,
    /// The issue whose row is briefly highlighted, and since when.
    pub flash: Option<(u32, Instant)>,
}

/// `0, 1, ..., n - 1`.
pub open spec fn all_indices(n: nat) -> Seq<usize> {
    Seq::new(n, |i: int| i as usize)
}

fn index_list(n: usize) -> (r: Vec<usize>)
    ensures
        r@ == all_indices(n as nat),
{
    let mut r: Vec<usize> = Vec::new();
    let mut i: usize = 0;
    while i < n
        invariant
            i <= n,
            r@ == all_indices(i as nat),
        decreases n - i,
    {
        r.push(i);
        i = i + 1;
        assert(r@ =~= all_indices(i as nat));
    }
    r
}

/// For each number of `ns` in turn, the first issue that carries it, when
/// one does.
pub open spec fn resolved_issues(issues: Seq<Issue>, ns: Seq<u32>) -> Seq<Issue>
    decreases ns.len(),
{
    if ns.len() == 0 {
        seq![]
    } else {
        resolved_issues(issues, ns.drop_last()) + match number_index(issues, ns.last()) {
            Some(i) => seq![issues[i]],
            None => seq![],
        }
    }
}

/// Index of the first issue numbered `n`.
pub open spec fn number_index(issues: Seq<Issue>, n: u32) -> Option<int>
    decreases issues.len(),
{
    if issues.len() == 0 {
        None
    } else if issues[0].number == n {
        Some(0)
    } else {
        match number_index(issues.drop_first(), n) {
            Some(i) => Some(i + 1),
            None => None,
        }
    }
}

proof fn lemma_number_index(issues: Seq<Issue>, n: u32, i: int)
    requires
        0 <= i <= issues.len(),
        i < issues.len() ==> issues[i].number == n,
        forall|j: int| 0 <= j < i ==> (#[trigger] issues[j]).number != n,
    ensures
        number_index(issues, n) == if i < issues.len() {
            Some(i)
        } else {
            None::<int>
        },
    decreases issues.len(),
{
    if issues.len() > 0 && i > 0 {
        assert forall|j: int| 0 <= j < i - 1 implies (#[trigger] issues.drop_first()[j]).number != n by {
            assert(issues.drop_first()[j] == issues[j + 1]);
        }
        lemma_number_index(issues.drop_first(), n, i - 1);
    }
}

/// The query after Ctrl+W: trailing spaces, then the word before them, gone.
pub open spec fn without_last_word(q: Seq<char>) -> Seq<char> {
    strip_word(text::strip_trailing(q, ' '))
}

/// `q` without its last character (unchanged when empty).
pub open spec fn without_last_char(q: Seq<char>) -> Seq<char> {
    if q.len() == 0 {
        q
    } else {
        q.drop_last()
    }
}

/// Trailing characters other than a space removed.
pub open spec fn strip_word(q: Seq<char>) -> Seq<char>
    decreases q.len(),
{
    if q.len() > 0 && q.last() != ' ' {
        strip_word(q.drop_last())
    } else {
        q
    }
}

/// The spinner glyph shown `elapsed_ms` after an activity started.
pub open spec fn spinner_glyph(elapsed_ms: u128) -> Seq<char> {
    let k = (elapsed_ms / ACTIVITY_SPINNER_INTERVAL_MS) % 4;
    if k == 0 {
        "|"@
    } else if k == 1 {
        "/"@
    } else if k == 2 {
        "-"@
    } else {
        "\\"@
    }
}

fn spinner_frame_at(elapsed_ms: u128) -> (r: &'static str)
    ensures
        r@ == spinner_glyph(elapsed_ms),
{
    let k = (elapsed_ms / ACTIVITY_SPINNER_INTERVAL_MS) % 4;
    if k == 0 {
        "|"
    } else if k == 1 {
        "/"
    } else if k == 2 {
        "-"
    } else {
        "\\"
    }
}

pub open spec fn pending_action(op: PendingOperation) -> Seq<char> {
    match op {
        PendingOperation::CreateIssue => "Creating issue"@,
        PendingOperation::EditIssue => "Updating issue"@,
        PendingOperation::CloseIssue => "Closing issue"@,
        PendingOperation::RefreshList => "Refreshing issues"@,
    }
}

impl AppState {
    /// The rows the list shows, as indices into `issues`.
    pub open spec fn visible(self) -> Seq<usize> {
        match self.mode {
            Mode::Search => self.search_ranked@,
            _ => all_indices(self.issues@.len()),
        }
    }

    /// The index into `issues` of the issue under the cursor.
    pub open spec fn selected_index(self) -> Option<int> {
        let v = self.visible();
        if self.cursor < v.len() && (v[self.cursor as int] as int) < self.issues@.len() {
            Some(v[self.cursor as int] as int)
        } else {
            None
        }
    }

    /// The state after the cursor moves `delta` rows, wrapping around the
    /// visible rows (to 0 when there are none).
    pub open spec fn cursor_moved(self, delta: int) -> AppState {
        AppState {
            cursor: if self.visible().len() == 0 {
                0
            } else {
                ((self.cursor + delta) % (self.visible().len() as int)) as usize
            },
            ..self
        }
    }

    pub open spec fn pane_toggled(self) -> AppState {
        AppState { pane_open: !self.pane_open, ..self }
    }

    /// The state after Esc in a form or the quick-create prompt.
    pub open spec fn cancelled(self) -> AppState {
        self.with_mode(
            if self.has_unsaved() {
                Mode::ConfirmDiscard(Box::new(self.mode))
            } else {
                Mode::List
            },
        )
    }

    /// The state after answering no to "discard?".
    pub open spec fn discard_declined(self) -> AppState {
        self.with_mode(
            match self.mode {
                Mode::ConfirmDiscard(previous) => *previous,
                _ => Mode::List,
            },
        )
    }

    /// The state after Tab in a form.
    pub open spec fn field_advanced(self) -> AppState {
        self.with_mode(map_form(self.mode, |f: FormState| FormState { field: f.field.next(), ..f }))
    }

    /// The state after Shift+Tab in a form.
    pub open spec fn field_retreated(self) -> AppState {
        self.with_mode(map_form(self.mode, |f: FormState| FormState { field: f.field.prev(), ..f }))
    }

    /// The state with the mode replaced and nothing else changed.
    pub open spec fn with_mode(self, mode: Mode) -> AppState {
        AppState { mode, ..self }
    }

    /// `t` is the state after entering search: an empty query ranking every
    /// issue, cursor on the first row.
    pub open spec fn search_entered(self, t: AppState) -> bool {
        &&& t.search_query@.len() == 0
        &&& t.search_ranked@ == all_indices(self.issues@.len())
        &&& t == (AppState {
            mode: Mode::Search,
            cursor: 0,
            search_query: t.search_query,
            search_ranked: t.search_ranked,
            ..self
        })
    }

    /// `t` is the state after the query becomes `q`: re-ranked, cursor on the
    /// first row.
    pub open spec fn query_set(self, t: AppState, q: Seq<char>) -> bool {
        &&& t.search_query@ == q
        &&& t.search_ranked@ == self.ranking_for(q)
        &&& t == (AppState {
            cursor: 0,
            search_query: t.search_query,
            search_ranked: t.search_ranked,
            ..self
        })
    }

    /// The row of the full list that the search cursor stands on.
    pub open spec fn search_exit_cursor(self) -> usize {
        if self.cursor < self.search_ranked@.len() {
            self.search_ranked@[self.cursor as int]
        } else {
            self.cursor
        }
    }

    /// `t` is the list after leaving search, the query emptied.
    pub open spec fn search_exited(self, t: AppState) -> bool {
        &&& t.search_query@.len() == 0
        &&& t == (AppState {
            mode: Mode::List,
            cursor: self.search_exit_cursor(),
            search_query: t.search_query,
            ..self
        })
    }

    /// What the quick-create prompt holds (nothing outside it).
    pub open spec fn prompt_text(self) -> Seq<char> {
        match self.mode {
            Mode::LittleCreate(buf) => buf@,
            _ => Seq::empty(),
        }
    }

    /// `t` shows an empty quick-create prompt, nothing else changed.
    pub open spec fn prompt_opened(self, t: AppState) -> bool {
        &&& t.mode matches Mode::LittleCreate(b) && b@.len() == 0
        &&& t == self.with_mode(t.mode)
    }

    /// In the quick-create prompt, `t` holds `text` there; elsewhere nothing
    /// changes.
    pub open spec fn prompt_edited(self, t: AppState, text: Seq<char>) -> bool {
        if self.mode is LittleCreate {
            &&& t.mode matches Mode::LittleCreate(b) && b@ == text
            &&& t == self.with_mode(t.mode)
        } else {
            t == self
        }
    }

    /// Submitting the prompt gives its trimmed text and the list, unless
    /// nothing but blanks was typed.
    pub open spec fn prompt_submitted(self, t: AppState, r: Option<String>) -> bool {
        if self.mode is LittleCreate && text::trim(self.prompt_text()).len() > 0 {
            &&& r matches Some(title) && title@ == text::trim(self.prompt_text())
            &&& t == self.with_mode(Mode::List)
        } else {
            r is None && t == self
        }
    }

    /// Asking to close the issue under the cursor (nothing without one).
    pub open spec fn close_requested(self) -> AppState {
        match self.selected_index() {
            Some(i) => self.with_mode(Mode::ConfirmClose(self.issues@[i].number)),
            None => self,
        }
    }

    /// Answering yes to "close?": the list, and the issue to close.
    pub open spec fn close_confirmed(self) -> (AppState, Option<u32>) {
        match self.mode {
            Mode::ConfirmClose(n) => (self.with_mode(Mode::List), Some(n)),
            _ => (self, None),
        }
    }

    /// Answering yes to "discard?": the list.
    pub open spec fn discard_accepted(self) -> AppState {
        if self.mode is ConfirmDiscard {
            self.with_mode(Mode::List)
        } else {
            self
        }
    }

    /// The filter key: the next filter of the Open → Closed → All round.
    pub open spec fn filter_cycled(self) -> AppState {
        AppState { state_filter: self.state_filter.next_visible(), ..self }
    }

    /// `t` has the issue under the cursor checked, or unchecked when it was
    /// checked; without one nothing changes.
    pub open spec fn check_toggled(self, t: AppState) -> bool {
        match self.selected_index() {
            Some(i) => {
                &&& t.checked@ == toggled(self.checked@, self.issues@[i].number)
                &&& t == (AppState { checked: t.checked, ..self })
            },
            None => t == self,
        }
    }

    /// `t` is `self` with no issue checked.
    pub open spec fn checks_cleared(self, t: AppState) -> bool {
        &&& t.checked@.is_empty()
        &&& t == (AppState { checked: t.checked, ..self })
    }

    /// The checked issues that are still listed, by ascending number; a
    /// checked number no issue carries is left out.
    pub open spec fn checked_issues(self) -> Seq<Issue> {
        resolved_issues(self.issues@, ascending(self.checked@))
    }

    /// The Settings view, its cursor on the first row.
    pub open spec fn settings_entered(self) -> AppState {
        AppState { mode: Mode::Settings, settings_cursor: 0, ..self }
    }

    /// The Settings cursor moved by `delta`, wrapping round the rows.
    pub open spec fn settings_cursor_moved(self, delta: int) -> AppState {
        AppState {
            settings_cursor: ((self.settings_cursor + delta) % (SETTINGS_ROWS as int)) as usize,
            ..self
        }
    }

    /// The setting on the cursor's row switched; off the rows nothing changes.
    pub open spec fn settings_toggled(self) -> AppState {
        if self.settings_cursor == 0 {
            AppState { exit_on_copy_yank: !self.exit_on_copy_yank, ..self }
        } else if self.settings_cursor == 1 {
            AppState { zebra_striping: !self.zebra_striping, ..self }
        } else {
            self
        }
    }

    /// `t` shows the form that opens for `editing`, nothing else changed.
    pub open spec fn form_opened(self, t: AppState, editing: Option<u32>) -> bool {
        &&& t.mode matches Mode::Form(f) && self.opens_form(editing, *f)
        &&& t == self.with_mode(t.mode)
    }

    /// `t` shows the edit form for the issue under the cursor (nothing changes
    /// without one).
    pub open spec fn edit_opened(self, t: AppState) -> bool {
        match self.selected_index() {
            Some(i) => self.form_opened(t, Some(self.issues@[i].number)),
            None => t == self,
        }
    }

    /// `t` is the state after `input` reaches the focused text field of a
    /// form: that field holds the lines and the cursor its own key handling
    /// gives; the other field and everything else stay. Outside a form, or on
    /// the Labels or Submit field, nothing changes.
    pub open spec fn form_typed(self, t: AppState, input: Input) -> bool {
        &&& t == self.with_mode(t.mode)
        &&& match self.mode {
            Mode::Form(f) => t.mode matches Mode::Form(g) && g.editing == f.editing
                && g.all_label_names == f.all_label_names && g.selected_labels == f.selected_labels
                && g.label_cursor == f.label_cursor && g.field == f.field && g.original_title
                == f.original_title && g.original_body == f.original_body && g.original_labels
                == f.original_labels && (if f.field == FormField::Title {
                (editor::textarea_lines(g.title_input), editor::textarea_cursor(g.title_input))
                    == editor::key_result(f.title_input, input)
            } else {
                g.title_input == f.title_input
            }) && (if f.field == FormField::Body {
                (editor::textarea_lines(g.body_input), editor::textarea_cursor(g.body_input))
                    == editor::key_result(f.body_input, input)
            } else {
                g.body_input == f.body_input
            }),
            _ => t.mode == self.mode,
        }
    }

    /// The label cursor moved `delta` rows, wrapping; unchanged without labels.
    pub open spec fn label_cursor_moved(self, delta: int) -> AppState {
        self.with_mode(
            map_form(
                self.mode,
                |f: FormState|
                    if f.all_label_names@.len() == 0 {
                        f
                    } else {
                        FormState {
                            label_cursor: ((f.label_cursor + delta) % (
                            f.all_label_names@.len() as int)) as usize,
                            ..f
                        }
                    },
            ),
        )
    }

    /// `t` has the label under the cursor checked or unchecked, when the
    /// Labels field has focus, no label being listed twice that was not
    /// already; otherwise nothing changes.
    pub open spec fn label_toggled(self, t: AppState) -> bool {
        &&& t == self.with_mode(t.mode)
        &&& match self.mode {
            Mode::Form(f) => if f.field == FormField::Labels && f.label_cursor
                < f.all_label_names@.len() {
                let name = f.all_label_names@[f.label_cursor as int]@;
                t.mode matches Mode::Form(g) && *g == (FormState {
                    selected_labels: g.selected_labels,
                    ..*f
                }) && members(g.selected_labels@) == (if members(f.selected_labels@).contains(
                    name,
                ) {
                    members(f.selected_labels@).remove(name)
                } else {
                    members(f.selected_labels@).insert(name)
                }) && (text::strs_of(f.selected_labels@).no_duplicates()
                    ==> text::strs_of(g.selected_labels@).no_duplicates())
            } else {
                t.mode == self.mode
            },
            _ => t.mode == self.mode,
        }
    }

    /// Ctrl+S in a form: what it sends, and the list.
    pub open spec fn submitted_now(self, t: AppState, r: Option<FormSubmission>) -> bool {
        match self.mode {
            Mode::Form(f) => r matches Some(sub) && self.submits(*f, sub) && t == self.with_mode(
                Mode::List,
            ),
            _ => r is None && t == self,
        }
    }

    /// Enter in a form: Title moves to Body, Labels to Submit, Submit
    /// submits; Body is left alone.
    pub open spec fn form_entered(self, t: AppState, r: Option<FormSubmission>) -> bool {
        match self.mode {
            Mode::Form(f) => match f.field {
                FormField::Title => r is None && t == self.with_mode(
                    Mode::Form(Box::new(FormState { field: FormField::Body, ..*f })),
                ),
                FormField::Body => r is None && t == self,
                FormField::Labels => r is None && t == self.with_mode(
                    Mode::Form(Box::new(FormState { field: FormField::Submit, ..*f })),
                ),
                FormField::Submit => self.submitted_now(t, r),
            },
            _ => r is None && t == self,
        }
    }

    pub fn new(issues: Vec<Issue>, all_labels: Vec<Label>) -> (s: Self)
        ensures
            s.issues == issues,
            s.all_labels == all_labels,
            s.state_filter == StateFilter::Open,
            s.mode is List,
            s.cursor == 0,
            s.search_query@.len() == 0,
            s.search_ranked@.len() == 0,
            s.status is None,
            s.loading is None,
            s.pending is None,
            s.pane_open,
            s.repo_name_with_owner is None,
            !s.exit_on_copy_yank,
            s.zebra_striping,
            s.settings_cursor == 0,
            s.checked@.is_empty(),
            s.flash is None,
    {
        AppState {
            issues,
            all_labels,
            state_filter: StateFilter::Open,
            mode: Mode::List,
            cursor: 0,
            search_query: String::new(),
            search_ranked: Vec::new(),
            status: None,
            loading: None,
            pending: None,
            pane_open: true,
            repo_name_with_owner: None,
            exit_on_copy_yank: false,
            zebra_striping: true,
            settings_cursor: 0,
            checked: BTreeSet::new(),
            flash: None,
        }
    }

    /// A fresh state showing the issues loading screen.
    pub fn loading() -> (s: Self)
        ensures
            s.issues@.len() == 0,
            s.all_labels@.len() == 0,
            s.state_filter == StateFilter::Open,
            s.mode is List,
            s.cursor == 0,
            s.search_query@.len() == 0,
            s.search_ranked@.len() == 0,
            s.status is None,
            s.loading matches Some(l) && l.what@ == "issues"@ && l.animation == LoadingAnimation::MatrixRain,
            s.pending is None,
            s.pane_open,
            s.repo_name_with_owner is None,
            !s.exit_on_copy_yank,
            s.zebra_striping,
            s.settings_cursor == 0,
            s.checked@.is_empty(),
            s.flash is None,
    {
        let mut state = Self::new(Vec::new(), Vec::new());
        state.begin_loading("issues");
        state
    }

    pub fn set_loaded(&mut self, issues: Vec<Issue>, all_labels: Vec<Label>)
        ensures
            *final(self) == (AppState {
                issues,
                all_labels,
                cursor: 0,
                loading: None,
                ..*old(self)
            }),
    {
        self.all_labels = all_labels;
        self.set_issues(issues);
        self.finish_loading();
    }

    pub fn visible_indices(&self) -> (r: Vec<usize>)
        ensures
            r@ == self.visible(),
    {
        match self.mode {
            Mode::Search => self.search_ranked.clone(),
            _ => index_list(self.issues.len()),
        }
    }

    pub fn selected_issue(&self) -> (r: Option<&Issue>)
        ensures
            match self.selected_index() {
                Some(i) => r matches Some(issue) && *issue == self.issues@[i],
                None => r is None,
            },
    {
        let visible = self.visible_indices();
        if self.cursor < visible.len() && visible[self.cursor] < self.issues.len() {
            Some(&self.issues[visible[self.cursor]])
        } else {
            None
        }
    }

    /// The first issue numbered `number`.
    pub fn find_issue(&self, number: u32) -> (r: Option<&Issue>)
        ensures
            match number_index(self.issues@, number) {
                Some(i) => r matches Some(issue) && *issue == self.issues@[i],
                None => r is None,
            },
    {
        let mut i: usize = 0;
        while i < self.issues.len()
            invariant
                i <= self.issues.len(),
                forall|j: int| 0 <= j < i ==> (#[trigger] self.issues@[j]).number != number,
            decreases self.issues.len() - i,
        {
            if self.issues[i].number == number {
                proof {
                    lemma_number_index(self.issues@, number, i as int);
                }
                return Some(&self.issues[i]);
            }
            i = i + 1;
        }
        proof {
            lemma_number_index(self.issues@, number, i as int);
        }
        None
    }

    /// Moves the cursor `delta` rows, wrapping around the visible rows.
    pub fn move_cursor(&mut self, delta: isize)
        ensures
            *final(self) == old(self).cursor_moved(delta as int),
    {
        let len = self.visible_indices().len();
        if len == 0 {
            self.cursor = 0;
            return;
        }
        self.cursor = wrap_index(self.cursor, delta, len);
    }

    pub fn toggle_pane(&mut self)
        ensures
            *final(self) == old(self).pane_toggled(),
    {
        self.pane_open = !self.pane_open;
    }

    pub fn set_issues(&mut self, issues: Vec<Issue>)
        ensures
            *final(self) == (AppState { issues, cursor: 0, ..*old(self) }),
    {
        self.issues = issues;
        self.cursor = 0;
    }

    /// Checks or unchecks the issue under the cursor.
    pub fn toggle_check(&mut self)
        ensures
            old(self).check_toggled(*final(self)),
    {
        let number = match self.selected_issue() {
            Some(issue) => Some(issue.number),
            None => None,
        };
        if let Some(n) = number {
            toggle_number(&mut self.checked, n);
        }
    }

    pub fn clear_checks(&mut self)
        ensures
            old(self).checks_cleared(*final(self)),
    {
        self.checked.clear();
    }

    /// The checked issues still listed, by ascending number.
    pub fn checked_issue_list(&self) -> (r: Vec<&Issue>)
        ensures
            r@.len() == self.checked_issues().len(),
            forall|k: int| 0 <= k < r@.len() ==> *r@[k] == self.checked_issues()[k],
    {
        let numbers = checks::ascending_numbers(&self.checked);
        let ghost ns = numbers@;
        let mut r: Vec<&Issue> = Vec::new();
        let mut i: usize = 0;
        while i < numbers.len()
            invariant
                i <= numbers.len(),
                numbers@ == ns,
                ns == ascending(self.checked@),
                r@.len() == resolved_issues(self.issues@, ns.take(i as int)).len(),
                forall|k: int| 0 <= k < r@.len() ==> *r@[k] == resolved_issues(self.issues@, ns.take(i as int))[k],
            decreases numbers.len() - i,
        {
            assert(ns.take(i + 1).drop_last() =~= ns.take(i as int));
            let found = self.find_issue(numbers[i]);
            if let Some(issue) = found {
                r.push(issue);
            }
            i = i + 1;
        }
        assert(ns.take(numbers.len() as int) =~= ns);
        r
    }

    pub fn enter_settings(&mut self)
        ensures
            *final(self) == old(self).settings_entered(),
    {
        self.mode = Mode::Settings;
        self.settings_cursor = 0;
    }

    pub fn settings_move_cursor(&mut self, delta: isize)
        ensures
            *final(self) == old(self).settings_cursor_moved(delta as int),
    {
        self.settings_cursor = wrap_index(self.settings_cursor, delta, SETTINGS_ROWS);
    }

    pub fn settings_toggle(&mut self)
        ensures
            *final(self) == old(self).settings_toggled(),
    {
        if self.settings_cursor == 0 {
            self.exit_on_copy_yank = !self.exit_on_copy_yank;
        } else if self.settings_cursor == 1 {
            self.zebra_striping = !self.zebra_striping;
        }
    }

    pub fn exit_settings(&mut self)
        ensures
            *final(self) == old(self).with_mode(Mode::List),
    {
        self.mode = Mode::List;
    }

    /// Shows `issues`, the cursor on the first issue numbered `target` when
    /// there is one (on the first row otherwise). The rows are the whole
    /// list outside search.
    pub fn set_issues_selecting(&mut self, issues: Vec<Issue>, target: Option<u32>)
        ensures
            *final(self) == (AppState {
                issues,
                cursor: match target {
                    Some(n) => match number_index(issues@, n) {
                        Some(i) => i as usize,
                        None => 0,
                    },
                    None => 0,
                },
                ..*old(self)
            }),
    {
        let mut cursor: usize = 0;
        if let Some(n) = target {
            let mut i: usize = 0;
            while i < issues.len() && issues[i].number != n
                invariant
                    i <= issues.len(),
                    forall|j: int| 0 <= j < i ==> (#[trigger] issues@[j]).number != n,
                decreases issues.len() - i,
            {
                i = i + 1;
            }
            proof {
                lemma_number_index(issues@, n, i as int);
            }
            if i < issues.len() {
                cursor = i;
            }
        }
        self.issues = issues;
        self.cursor = cursor;
    }

    pub fn cycle_state_filter(&mut self) -> (r: StateFilter)
        ensures
            r == old(self).state_filter.next_visible(),
            *final(self) == old(self).filter_cycled(),
    {
        self.state_filter = match self.state_filter {
            StateFilter::Open => StateFilter::Closed,
            StateFilter::Triage => StateFilter::Closed,
            StateFilter::Closed => StateFilter::All,
            StateFilter::All => StateFilter::Open,
        };
        self.state_filter
    }
}

/// `(cursor + delta)` wrapped into `0..len`.
fn wrap_index(cursor: usize, delta: isize, len: usize) -> (r: usize)
    requires
        len > 0,
    ensures
        r == (cursor + delta) % (len as int),
        r < len,
{
    let n = len as u128;
    let c = cursor as u128;
    if delta >= 0 {
        let d = delta as u128;
        let r = ((c + d) % n) as usize;
        r
    } else {
        let back = ((-(delta as i128)) as u128) % n;
        let r = ((c + n - back) % n) as usize;
        proof {
            let b = -(delta as int);
            assert(back == b % (len as int));
            vstd::arithmetic::div_mod::lemma_mod_adds(c as int + n as int - back as int, 0, len as int);
            assert((c + n - back) as int % (len as int) == (cursor + delta) % (len as int)) by {
                vstd::arithmetic::div_mod::lemma_fundamental_div_mod(b, len as int);
                let q = b / (len as int);
                assert(c + n - back == cursor + delta + (q + 1) * len) by (nonlinear_arith)
                    requires
                        b == len * q + back,
                        b == -delta,
                        c == cursor,
                        n == len,
                ;
                vstd::arithmetic::div_mod::lemma_mod_multiples_vanish(q + 1, cursor + delta, len as int);
            }
        }
        r
    }
}

impl AppState {
    fn take_mode(&mut self) -> (m: Mode)
        ensures
            m == old(self).mode,
            *final(self) == old(self).with_mode(Mode::List),
    {
        let mut m = Mode::List;
        std::mem::swap(&mut m, &mut self.mode);
        m
    }

    pub fn enter_search(&mut self)
        ensures
            old(self).search_entered(*final(self)),
    {
        self.mode = Mode::Search;
        self.search_query = String::new();
        self.search_ranked = index_list(self.issues.len());
        self.cursor = 0;
    }

    /// The titles of the issues, in list order.
    pub open spec fn titles(self) -> Seq<Seq<char>> {
        self.issues@.map_values(|i: Issue| i.title@)
    }

    /// The ranking the search shows for `query`: every issue for an empty
    /// query, the ranked matches otherwise.
    pub open spec fn ranking_for(self, query: Seq<char>) -> Seq<usize> {
        if query.len() == 0 {
            all_indices(self.issues@.len())
        } else {
            search::ranked(query, self.titles())
        }
    }

    /// Sets the query and re-ranks, cursor back on the first row.
    fn set_query(&mut self, query: String)
        ensures
            old(self).query_set(*final(self), query@),
    {
        if query.as_str().unicode_len() == 0 {
            self.search_ranked = index_list(self.issues.len());
        } else {
            let mut titles: Vec<String> = Vec::new();
            let mut i: usize = 0;
            while i < self.issues.len()
                invariant
                    i <= self.issues.len(),
                    text::strs_of(titles@) == self.titles().take(i as int),
                decreases self.issues.len() - i,
            {
                let t = self.issues[i].title.clone();
                let ghost before = text::strs_of(titles@);
                titles.push(t);
                assert(text::strs_of(titles@) =~= before.push(t@));
                assert(self.titles().take(i + 1) =~= self.titles().take(i as int).push(t@));
                i = i + 1;
            }
            assert(self.titles().take(self.issues.len() as int) =~= self.titles());
            self.search_ranked = search::rank(query.as_str(), &titles);
        }
        self.search_query = query;
        self.cursor = 0;
    }

    pub fn search_push(&mut self, c: char)
        ensures
            old(self).query_set(*final(self), old(self).search_query@.push(c)),
    {
        let mut q = chars_of(self.search_query.as_str());
        q.push(c);
        self.set_query(string_of(&q));
    }

    pub fn search_backspace(&mut self)
        ensures
            old(self).query_set(*final(self), without_last_char(old(self).search_query@)),
    {
        let q = chars_of(self.search_query.as_str());
        let kept = if q.len() == 0 {
            slice_of(&q, 0, 0)
        } else {
            slice_of(&q, 0, q.len() - 1)
        };
        assert(q@.len() == 0 ==> kept@ =~= q@);
        self.set_query(string_of(&kept));
    }

    /// Ctrl+W: drops trailing spaces, then the word before them.
    pub fn search_delete_word(&mut self)
        ensures
            old(self).query_set(*final(self), without_last_word(old(self).search_query@)),
    {
        let q = text::strip_trailing_char(&chars_of(self.search_query.as_str()), ' ');
        let mut k = q.len();
        assert(q@.subrange(0, k as int) =~= q@);
        while k > 0 && q[k - 1] != ' '
            invariant
                k <= q.len(),
                strip_word(q@) == strip_word(q@.subrange(0, k as int)),
            decreases k,
        {
            assert(q@.subrange(0, k as int).drop_last() =~= q@.subrange(0, k - 1));
            k = k - 1;
        }
        let kept = slice_of(&q, 0, k);
        self.set_query(string_of(&kept));
    }

    pub fn search_clear(&mut self)
        ensures
            old(self).query_set(*final(self), Seq::empty()),
            final(self).search_ranked@ == all_indices(old(self).issues@.len()),
    {
        self.set_query(String::new());
    }

    /// Leaves search with the cursor on the chosen issue's row in the full
    /// list.
    pub fn exit_search(&mut self)
        ensures
            old(self).search_exited(*final(self)),
    {
        if self.cursor < self.search_ranked.len() {
            self.cursor = self.search_ranked[self.cursor];
        }
        self.mode = Mode::List;
        self.search_query = String::new();
    }

    pub fn enter_little_create(&mut self)
        ensures
            old(self).prompt_opened(*final(self)),
    {
        self.mode = Mode::LittleCreate(String::new());
    }

    pub fn little_create_push(&mut self, c: char)
        ensures
            old(self).prompt_edited(*final(self), old(self).prompt_text().push(c)),
    {
        let mode = self.take_mode();
        self.mode = match mode {
            Mode::LittleCreate(buf) => {
                let mut v = chars_of(buf.as_str());
                v.push(c);
                Mode::LittleCreate(string_of(&v))
            },
            other => other,
        };
    }

    pub fn little_create_backspace(&mut self)
        ensures
            old(self).prompt_edited(*final(self), without_last_char(old(self).prompt_text())),
    {
        let mode = self.take_mode();
        self.mode = match mode {
            Mode::LittleCreate(buf) => {
                let v = chars_of(buf.as_str());
                let kept = if v.len() == 0 {
                    slice_of(&v, 0, 0)
                } else {
                    slice_of(&v, 0, v.len() - 1)
                };
                assert(v@.len() == 0 ==> kept@ =~= v@);
                Mode::LittleCreate(string_of(&kept))
            },
            other => other,
        };
    }

    /// Submits the quick-create title: trimmed, and only when something is
    /// left; the list comes back on success.
    pub fn little_create_submit(&mut self) -> (r: Option<String>)
        ensures
            old(self).prompt_submitted(*final(self), r),
    {
        let title = match &self.mode {
            Mode::LittleCreate(buf) => string_of(&trimmed(&chars_of(buf.as_str()))),
            _ => {
                return None;
            },
        };
        if title.as_str().unicode_len() == 0 {
            return None;
        }
        self.mode = Mode::List;
        Some(title)
    }

    /// Whether leaving the current mode would lose typed input.
    pub open spec fn has_unsaved(self) -> bool {
        match self.mode {
            Mode::Form(form) => form.dirty(),
            Mode::LittleCreate(buf) => text::trim(buf@).len() > 0,
            _ => false,
        }
    }

    /// Esc in a form or the quick-create prompt: asks before throwing typed
    /// input away, leaves at once otherwise.
    pub fn cancel_form_or_create(&mut self)
        ensures
            *final(self) == old(self).cancelled(),
    {
        let dirty = match &self.mode {
            Mode::Form(form) => form.is_dirty(),
            Mode::LittleCreate(buf) => trimmed(&chars_of(buf.as_str())).len() > 0,
            _ => false,
        };
        if dirty {
            let previous = self.take_mode();
            self.mode = Mode::ConfirmDiscard(Box::new(previous));
        } else {
            self.mode = Mode::List;
        }
    }

    pub fn confirm_discard_yes(&mut self)
        ensures
            *final(self) == old(self).discard_accepted(),
    {
        if let Mode::ConfirmDiscard(_) = self.mode {
            self.mode = Mode::List;
        }
    }

    /// Goes back to what was being typed; any other mode becomes the list.
    pub fn confirm_discard_no(&mut self)
        ensures
            *final(self) == old(self).discard_declined(),
    {
        let mode = self.take_mode();
        if let Mode::ConfirmDiscard(previous) = mode {
            self.mode = *previous;
        }
    }

    pub fn request_close(&mut self)
        ensures
            *final(self) == old(self).close_requested(),
    {
        let number = match self.selected_issue() {
            Some(issue) => issue.number,
            None => {
                return ;
            },
        };
        self.mode = Mode::ConfirmClose(number);
    }

    pub fn confirm_close_yes(&mut self) -> (r: Option<u32>)
        ensures
            r == old(self).close_confirmed().1,
            *final(self) == old(self).close_confirmed().0,
    {
        if let Mode::ConfirmClose(number) = self.mode {
            self.mode = Mode::List;
            Some(number)
        } else {
            None
        }
    }

    pub fn confirm_close_no(&mut self)
        ensures
            *final(self) == old(self).with_mode(Mode::List),
    {
        self.mode = Mode::List;
    }

    pub fn set_status(&mut self, message: String)
        ensures
            final(self).status matches Some(st) && st.0 == message,
            *final(self) == (AppState { status: final(self).status, ..*old(self) }),
    {
        self.status = Some((message, clock::now()));
    }

    /// Starts the loading screen for `what`, showing the default animation,
    /// Matrix rain.
    pub fn begin_loading(&mut self, what: &'static str)
        ensures
            final(self).loading matches Some(l) && l.what == what && l.animation
                == LoadingAnimation::MatrixRain,
            *final(self) == (AppState { loading: final(self).loading, ..*old(self) }),
    {
        self.loading = Some(
            LoadingState {
                started_at: clock::now(),
                animation: LoadingAnimation::MatrixRain,
                what,
            },
        );
    }

    pub fn finish_loading(&mut self)
        ensures
            *final(self) == (AppState { loading: None, ..*old(self) }),
    {
        self.loading = None;
    }

    pub fn is_loading(&self) -> (r: bool)
        ensures
            r == self.loading is Some,
    {
        self.loading.is_some()
    }

    /// The loading header `elapsed_ms` into the load.
    pub fn loading_message_at(&self, elapsed_ms: u128) -> (r: Option<String>)
        ensures
            match self.loading {
                Some(l) => r matches Some(m) && m@ == spinner_glyph(elapsed_ms) + " Loading "@
                    + l.what@ + "..."@,
                None => r is None,
            },
    {
        match &self.loading {
            Some(l) => {
                let mut v = chars_of(spinner_frame_at(elapsed_ms));
                text::append_str(&mut v, " Loading ");
                text::append_str(&mut v, l.what);
                text::append_str(&mut v, "...");
                Some(string_of(&v))
            },
            None => None,
        }
    }

    /// The loading header, spinner frame taken from the clock.
    pub fn loading_message(&self) -> (r: Option<String>)
        ensures
            match self.loading {
                Some(l) => r matches Some(m) && exists|ms: u128|
                    m@ == #[trigger] spinner_glyph(ms) + " Loading "@ + l.what@ + "..."@,
                None => r is None,
            },
    {
        match &self.loading {
            Some(l) => {
                let ms = clock::millis_since(&l.started_at);
                self.loading_message_at(ms)
            },
            None => None,
        }
    }

    pub fn begin_pending(&mut self, operation: PendingOperation)
        ensures
            final(self).pending matches Some(p) && p.operation == operation,
            *final(self) == (AppState { pending: final(self).pending, ..*old(self) }),
    {
        self.pending = Some(PendingState { operation, started_at: clock::now() });
    }

    pub fn finish_pending(&mut self)
        ensures
            *final(self) == (AppState { pending: None, ..*old(self) }),
    {
        self.pending = None;
    }

    pub fn is_pending(&self) -> (r: bool)
        ensures
            r == self.pending is Some,
    {
        self.pending.is_some()
    }

    /// The pending-operation text `elapsed_ms` after it started.
    pub fn pending_message_at(&self, elapsed_ms: u128) -> (r: Option<String>)
        ensures
            match self.pending {
                Some(p) => r matches Some(m) && m@ == spinner_glyph(elapsed_ms) + " "@
                    + pending_action(p.operation) + "..."@,
                None => r is None,
            },
    {
        match &self.pending {
            Some(p) => {
                let action = match p.operation {
                    PendingOperation::CreateIssue => "Creating issue",
                    PendingOperation::EditIssue => "Updating issue",
                    PendingOperation::CloseIssue => "Closing issue",
                    PendingOperation::RefreshList => "Refreshing issues",
                };
                let mut v = chars_of(spinner_frame_at(elapsed_ms));
                text::append_str(&mut v, " ");
                text::append_str(&mut v, action);
                text::append_str(&mut v, "...");
                Some(string_of(&v))
            },
            None => None,
        }
    }

    /// The pending-operation text, spinner frame taken from the clock.
    pub fn pending_message(&self) -> (r: Option<String>)
        ensures
            match self.pending {
                Some(p) => r matches Some(m) && exists|ms: u128|
                    m@ == #[trigger] spinner_glyph(ms) + " "@ + pending_action(p.operation) + "..."@,
                None => r is None,
            },
    {
        match &self.pending {
            Some(p) => {
                let ms = clock::millis_since(&p.started_at);
                self.pending_message_at(ms)
            },
            None => None,
        }
    }

    /// Drops the status message once it has been up `age_ms` milliseconds or
    /// more, `age_ms` being its age.
    /// Highlights the row of issue `number` for a moment.
    pub fn start_flash(&mut self, number: u32)
        ensures
            final(self).flash matches Some(f) && f.0 == number,
            *final(self) == (AppState { flash: final(self).flash, ..*old(self) }),
    {
        self.flash = Some((number, clock::now()));
    }

    /// Drops the highlight once it has been up `age_ms` milliseconds, when
    /// that is the flash duration or more.
    pub fn expire_flash(&mut self, age_ms: u128)
        ensures
            *final(self) == if old(self).flash is Some && age_ms >= FLASH_MS {
                AppState { flash: None, ..*old(self) }
            } else {
                *old(self)
            },
    {
        if self.flash.is_some() && age_ms >= FLASH_MS {
            self.flash = None;
        }
    }

    /// Drops the highlight once it has been up for the flash duration.
    pub fn clear_expired_flash(&mut self)
        ensures
            *final(self) == *old(self) || *final(self) == (AppState { flash: None, ..*old(self) }),
            old(self).flash is None ==> *final(self) == *old(self),
    {
        let age = match &self.flash {
            Some(f) => clock::millis_since(&f.1),
            None => {
                return ;
            },
        };
        self.expire_flash(age);
    }

    pub fn expire_status(&mut self, age_ms: u128)
        ensures
            *final(self) == if old(self).status is Some && age_ms >= STATUS_TOAST_MS {
                AppState { status: None, ..*old(self) }
            } else {
                *old(self)
            },
    {
        if self.status.is_some() && age_ms >= STATUS_TOAST_MS {
            self.status = None;
        }
    }

    /// Drops the status message once it has been up for the toast duration.
    pub fn clear_expired_status(&mut self)
        ensures
            *final(self) == *old(self) || *final(self) == (AppState { status: None, ..*old(self) }),
            old(self).status is None ==> *final(self) == *old(self),
    {
        let age = match &self.status {
            Some(st) => clock::millis_since(&st.1),
            None => {
                return ;
            },
        };
        self.expire_status(age);
    }
}

/// The form state `f` after `change` is made to it, when the mode is a form.
pub open spec fn map_form(mode: Mode, change: spec_fn(FormState) -> FormState) -> Mode {
    match mode {
        Mode::Form(f) => Mode::Form(Box::new(change(*f))),
        m => m,
    }
}

impl AppState {
    /// What an edit form for `editing` opens with: the issue's title, body and
    /// label names, or blanks for a new issue (or an issue no longer listed).
    pub open spec fn prefill(self, editing: Option<u32>) -> (Seq<char>, Seq<char>, Set<Seq<char>>) {
        match editing {
            Some(n) => match number_index(self.issues@, n) {
                Some(i) => (
                    self.issues@[i].title@,
                    self.issues@[i].body@,
                    names_of(self.issues@[i].labels@).to_set(),
                ),
                None => (Seq::empty(), Seq::empty(), Set::empty()),
            },
            None => (Seq::empty(), Seq::empty(), Set::empty()),
        }
    }

    /// `f` is the form that opens for `editing`, each text field's cursor
    /// after its text.
    pub open spec fn opens_form(self, editing: Option<u32>, f: FormState) -> bool {
        let (title, body, labels) = self.prefill(editing);
        &&& f.editing == editing
        &&& f.title_spec() == title
        &&& f.body_spec() == body
        &&& text::strs_of(f.all_label_names@) == names_of(self.all_labels@)
        &&& members(f.selected_labels@) == labels
        &&& f.selected_labels@ == f.original_labels@
        &&& text::strs_of(f.original_labels@).no_duplicates()
        &&& f.label_cursor == 0
        &&& f.field == FormField::Title
        &&& f.original_title@ == title
        &&& f.original_body@ == body
        &&& at_text_end(f.title_input)
        &&& at_text_end(f.body_input)
    }

    fn new_form_state(&self, editing: Option<u32>) -> (f: FormState)
        ensures
            self.opens_form(editing, f),
            !f.dirty(),
    {
        let all_label_names = label_names(&self.all_labels);
        let found = match editing {
            Some(n) => self.find_issue(n),
            None => None,
        };
        let (title, body, selected) = match found {
            Some(issue) => (issue.title.clone(), issue.body.clone(), distinct_label_names(&issue.labels)),
            None => {
                let none: Vec<String> = Vec::new();
                assert(members(none@) =~= Set::<Seq<char>>::empty());
                (String::new(), String::new(), none)
            },
        };
        let f = FormState {
            editing,
            title_input: new_single_line_textarea(title.as_str()),
            body_input: new_multi_line_textarea(body.as_str()),
            all_label_names,
            selected_labels: selected.clone(),
            label_cursor: 0,
            field: FormField::Title,
            original_title: title,
            original_body: body,
            original_labels: selected,
        };
        assert forall|k: int| 0 <= k < f.selected_labels@.len() implies f.selected_labels@[k] == f.original_labels@[k] by {
            assert(cloned::<String>(f.original_labels@[k], f.selected_labels@[k]));
        }
        assert(f.selected_labels@ =~= f.original_labels@);
        f
    }

    pub fn enter_big_create(&mut self)
        ensures
            old(self).form_opened(*final(self), None),
    {
        let f = self.new_form_state(None);
        self.mode = Mode::Form(Box::new(f));
    }

    pub fn enter_edit(&mut self)
        ensures
            old(self).edit_opened(*final(self)),
    {
        let number = match self.selected_issue() {
            Some(issue) => issue.number,
            None => {
                return ;
            },
        };
        let f = self.new_form_state(Some(number));
        self.mode = Mode::Form(Box::new(f));
    }

    /// A key for the focused text field; other fields ignore text input.
    pub fn form_input(&mut self, input: Input)
        ensures
            old(self).form_typed(*final(self), input),
    {
        let mode = self.take_mode();
        self.mode = match mode {
            Mode::Form(form) => {
                let mut f = *form;
                match f.field {
                    FormField::Title => feed_key(&mut f.title_input, input),
                    FormField::Body => feed_key(&mut f.body_input, input),
                    FormField::Labels | FormField::Submit => {},
                }
                Mode::Form(Box::new(f))
            },
            other => other,
        };
    }

    pub fn form_next_field(&mut self)
        ensures
            *final(self) == old(self).field_advanced(),
    {
        let mode = self.take_mode();
        self.mode = match mode {
            Mode::Form(form) => {
                let mut f = *form;
                f.field = match f.field {
                    FormField::Title => FormField::Body,
                    FormField::Body => FormField::Labels,
                    FormField::Labels => FormField::Submit,
                    FormField::Submit => FormField::Title,
                };
                Mode::Form(Box::new(f))
            },
            other => other,
        };
    }

    pub fn form_prev_field(&mut self)
        ensures
            *final(self) == old(self).field_retreated(),
    {
        let mode = self.take_mode();
        self.mode = match mode {
            Mode::Form(form) => {
                let mut f = *form;
                f.field = match f.field {
                    FormField::Title => FormField::Submit,
                    FormField::Body => FormField::Title,
                    FormField::Labels => FormField::Body,
                    FormField::Submit => FormField::Labels,
                };
                Mode::Form(Box::new(f))
            },
            other => other,
        };
    }

    /// Moves the label cursor `delta` rows, wrapping; nothing happens when the
    /// repository has no labels.
    pub fn form_move_label_cursor(&mut self, delta: isize)
        ensures
            *final(self) == old(self).label_cursor_moved(delta as int),
    {
        let mode = self.take_mode();
        self.mode = match mode {
            Mode::Form(form) => {
                let mut f = *form;
                let len = f.all_label_names.len();
                if len > 0 {
                    f.label_cursor = wrap_index(f.label_cursor, delta, len);
                }
                Mode::Form(Box::new(f))
            },
            other => other,
        };
    }

    /// Space on the Labels field: checks or unchecks the label under the
    /// cursor.
    pub fn form_toggle_label(&mut self)
        ensures
            old(self).label_toggled(*final(self)),
    {
        let mode = self.take_mode();
        self.mode = match mode {
            Mode::Form(form) => {
                let mut f = *form;
                if f.field == FormField::Labels && f.label_cursor < f.all_label_names.len() {
                    let name = f.all_label_names[f.label_cursor].clone();
                    if contains_string(&f.selected_labels, &name) {
                        f.selected_labels = without_string(&f.selected_labels, &name);
                    } else {
                        let ghost before = f.selected_labels@;
                        f.selected_labels.push(name);
                        proof {
                            assert forall|y: Seq<char>| members(f.selected_labels@).contains(y) == members(before).insert(name@).contains(y) by {
                                assert(text::strs_of(f.selected_labels@) =~= text::strs_of(before).push(name@));
                                lemma_push_contains(text::strs_of(before), name@, y);
                            }
                            assert(members(f.selected_labels@) =~= members(before).insert(name@));
                            assert(text::strs_of(f.selected_labels@) =~= text::strs_of(before).push(name@));
                            lemma_push_no_duplicates(text::strs_of(before), name@);
                        }
                    }
                }
                Mode::Form(Box::new(f))
            },
            other => other,
        };
    }

    /// The labels an issue had when the form is submitted.
    pub open spec fn labels_now(self, editing: Option<u32>) -> Set<Seq<char>> {
        self.prefill(editing).2
    }

    /// `sub` is what submitting form `f` sends: its text, and the labels to
    /// add and to remove against the issue's labels now.
    pub open spec fn submits(self, f: FormState, sub: FormSubmission) -> bool {
        let before = self.labels_now(f.editing);
        &&& sub.editing == f.editing
        &&& sub.title@ == f.title_spec()
        &&& sub.body@ == f.body_spec()
        &&& members(sub.add_labels@) == members(f.selected_labels@).difference(before)
        &&& members(sub.remove_labels@) == before.difference(members(f.selected_labels@))
        &&& text::strs_of(sub.add_labels@).no_duplicates()
        &&& text::strs_of(sub.remove_labels@).no_duplicates()
    }

    /// Ctrl+S: submits the form whatever field has focus, back to the list.
    pub fn form_submit_now(&mut self) -> (r: Option<FormSubmission>)
        ensures
            old(self).submitted_now(*final(self), r),
    {
        let editing = match &self.mode {
            Mode::Form(form) => form.editing,
            _ => {
                return None;
            },
        };
        let found = match editing {
            Some(n) => self.find_issue(n),
            None => None,
        };
        let original = match found {
            Some(issue) => distinct_label_names(&issue.labels),
            None => {
                let none: Vec<String> = Vec::new();
                assert(members(none@) =~= Set::<Seq<char>>::empty());
                none
            },
        };
        let submission = match &self.mode {
            Mode::Form(form) => {
                let add_labels = difference(&form.selected_labels, &original);
                let remove_labels = difference(&original, &form.selected_labels);
                FormSubmission {
                    editing,
                    title: form.title_text(),
                    body: form.body_text(),
                    add_labels,
                    remove_labels,
                }
            },
            _ => {
                return None;
            },
        };
        self.mode = Mode::List;
        Some(submission)
    }

    /// Enter in the form: Title moves to Body, Labels moves to Submit, and
    /// Submit submits. (Enter in Body is a newline, routed to `form_input`.)
    pub fn form_enter(&mut self) -> (r: Option<FormSubmission>)
        ensures
            old(self).form_entered(*final(self), r),
    {
        let field = match &self.mode {
            Mode::Form(form) => form.field,
            _ => {
                return None;
            },
        };
        match field {
            FormField::Title => {
                let mode = self.take_mode();
                self.mode = match mode {
                    Mode::Form(form) => {
                        let mut f = *form;
                        f.field = FormField::Body;
                        Mode::Form(Box::new(f))
                    },
                    other => other,
                };
                None
            },
            FormField::Body => None,
            FormField::Labels => {
                let mode = self.take_mode();
                self.mode = match mode {
                    Mode::Form(form) => {
                        let mut f = *form;
                        f.field = FormField::Submit;
                        Mode::Form(Box::new(f))
                    },
                    other => other,
                };
                None
            },
            FormField::Submit => self.form_submit_now(),
        }
    }
}

// ---------------------------------------------------------------------------
// Laws
// ---------------------------------------------------------------------------

/// Declining to discard puts back exactly what was being typed: Esc on
/// unsaved input, then "no", changes nothing.
pub proof fn lemma_cancel_then_keep_restores(s: AppState)
    requires
        s.has_unsaved(),
    ensures
        s.cancelled().discard_declined() == s,
{
}

/// Esc on a form or prompt with nothing typed goes straight back to the list.
pub proof fn lemma_cancel_clean_returns_to_list(s: AppState)
    requires
        !s.has_unsaved(),
    ensures
        s.cancelled().mode is List,
        s.cancelled() == s.with_mode(Mode::List),
{
}

/// A form as it opens, for a new issue or an existing one, is not dirty.
pub proof fn lemma_opened_form_is_clean(s: AppState, editing: Option<u32>, f: FormState)
    requires
        s.opens_form(editing, f),
    ensures
        !f.dirty(),
{
}

/// A form's checked labels never list a label twice: a form opens that way
/// (`opens_form` says so), and checking or unchecking a label in a form
/// without a repeat brings none in.
pub proof fn lemma_toggle_keeps_labels_distinct(s: AppState, t: AppState)
    requires
        s.mode matches Mode::Form(f) && text::strs_of(f.selected_labels@).no_duplicates(),
        s.label_toggled(t),
    ensures
        t.mode matches Mode::Form(g) && text::strs_of(g.selected_labels@).no_duplicates(),
{
}

/// Toggling the same Settings row twice leaves every setting as it was, and
/// the Settings cursor, however far it moves, stays on one of the rows.
pub proof fn lemma_settings_toggle_twice(s: AppState, delta: int)
    ensures
        s.settings_toggled().settings_toggled() == s,
        s.settings_cursor_moved(delta).settings_cursor < SETTINGS_ROWS,
{
}

/// Checking the issue under the cursor and pressing the key again leaves
/// the checked set as it was.
pub proof fn lemma_check_toggle_twice(s: AppState, t: AppState, u: AppState)
    requires
        s.check_toggled(t),
        t.check_toggled(u),
    ensures
        u.checked@ == s.checked@,
        u == (AppState { checked: u.checked, ..s }),
{
    if let Some(i) = s.selected_index() {
        assert(t.selected_index() == s.selected_index());
        let n = s.issues@[i].number;
        if s.checked@.contains(n) {
            assert(s.checked@.remove(n).insert(n) =~= s.checked@);
        } else {
            assert(s.checked@.insert(n).remove(n) =~= s.checked@);
        }
    }
}

/// The pane key shows a hidden pane and hides a shown one, changing nothing
/// else; so pressing it twice shows the pane as it was.
pub proof fn lemma_pane_toggle_involution(s: AppState)
    ensures
        s.pane_toggled().pane_open == !s.pane_open,
        s.pane_toggled() == (AppState { pane_open: s.pane_toggled().pane_open, ..s }),
        s.pane_toggled().pane_toggled() == s,
{
}

/// Two cursor moves in a row land where one move by their sum lands.
pub proof fn lemma_cursor_moves_add_up(s: AppState, a: int, b: int)
    requires
        0 < s.visible().len() <= usize::MAX,
    ensures
        s.cursor_moved(a).cursor_moved(b) == s.cursor_moved(a + b),
{
    let n = s.visible().len() as int;
    let c1 = (s.cursor + a) % n;
    vstd::arithmetic::div_mod::lemma_mod_bound(s.cursor + a, n);
    assert(s.cursor_moved(a).cursor as int == c1);
    vstd::arithmetic::div_mod::lemma_add_mod_noop(s.cursor + a, b, n);
    vstd::arithmetic::div_mod::lemma_add_mod_noop(c1, b, n);
    vstd::arithmetic::div_mod::lemma_mod_twice(s.cursor + a, n);
    assert((c1 + b) % n == (s.cursor + a + b) % n);
}

/// Tab then Shift+Tab (or the other way round) leaves the form as it was.
pub proof fn lemma_field_moves_undo(s: AppState)
    ensures
        s.field_advanced().field_retreated() == s,
        s.field_retreated().field_advanced() == s,
{
    match s.mode {
        Mode::Form(f) => {
            assert(FormState { field: f.field.next().prev(), ..*f } == *f);
            assert(FormState { field: f.field.prev().next(), ..*f } == *f);
        },
        _ => {},
    }
}

/// The cursor always lands on a visible row, and moving back by the same
/// amount returns it to where it was.
pub proof fn lemma_cursor_move_undo(s: AppState, delta: int)
    requires
        0 < s.visible().len() <= usize::MAX,
        s.cursor < s.visible().len(),
    ensures
        s.cursor_moved(delta).cursor < s.visible().len(),
        s.cursor_moved(delta).cursor_moved(-delta) == s,
{
    let n = s.visible().len() as int;
    let m = s.cursor_moved(delta);
    assert(m.visible() == s.visible());
    let c = (s.cursor + delta) % n;
    vstd::arithmetic::div_mod::lemma_mod_bound(s.cursor + delta, n);
    assert(m.cursor as int == c);
    vstd::arithmetic::div_mod::lemma_fundamental_div_mod(s.cursor + delta, n);
    let q = (s.cursor + delta) / n;
    assert(c - delta == s.cursor as int - q * n) by (nonlinear_arith)
        requires
            s.cursor + delta == n * q + c,
    ;
    vstd::arithmetic::div_mod::lemma_mod_multiples_vanish(-q, s.cursor as int, n);
    assert((s.cursor as int - q * n) % n == (s.cursor as int + (-q) * n) % n) by {
        assert(s.cursor as int - q * n == s.cursor as int + (-q) * n) by (nonlinear_arith);
    }
    vstd::arithmetic::div_mod::lemma_small_mod(s.cursor as nat, n as nat);
    assert(m.cursor_moved(-delta) == s);
}

/// Moving down goes to the next row, and from the last row to the first;
/// moving up goes to the row before, and from the first row to the last.
/// Nothing else changes.
pub proof fn lemma_cursor_steps_one_row(s: AppState)
    requires
        0 < s.visible().len() <= usize::MAX,
        s.cursor < s.visible().len(),
    ensures
        s.cursor_moved(1).cursor == (if s.cursor + 1 < s.visible().len() {
            s.cursor + 1
        } else {
            0
        }),
        s.cursor_moved(-1).cursor == (if s.cursor > 0 {
            s.cursor - 1
        } else {
            s.visible().len() - 1
        }),
        s.cursor_moved(1) == (AppState { cursor: s.cursor_moved(1).cursor, ..s }),
        s.cursor_moved(-1) == (AppState { cursor: s.cursor_moved(-1).cursor, ..s }),
{
    let n = s.visible().len() as int;
    let c = s.cursor as int;
    if c + 1 < n {
        vstd::arithmetic::div_mod::lemma_small_mod((c + 1) as nat, n as nat);
    } else {
        vstd::arithmetic::div_mod::lemma_mod_self_0(n);
    }
    if c > 0 {
        vstd::arithmetic::div_mod::lemma_small_mod((c - 1) as nat, n as nat);
    } else {
        vstd::arithmetic::div_mod::lemma_mod_add_multiples_vanish(-1, n);
        vstd::arithmetic::div_mod::lemma_small_mod((n - 1) as nat, n as nat);
    }
}

/// Asking to close asks about the issue under the cursor, the one
/// `selected_issue` gives, and answering yes closes exactly that issue;
/// without an issue under the cursor nothing happens.
pub proof fn lemma_close_asks_about_the_selected_issue(s: AppState)
    ensures
        match s.selected_index() {
            Some(i) => {
                &&& s.close_requested().mode == Mode::ConfirmClose(s.issues@[i].number)
                &&& s.close_requested().close_confirmed().1 == Some(s.issues@[i].number)
                &&& s.close_requested() == s.with_mode(s.close_requested().mode)
            },
            None => s.close_requested() == s,
        },
{
}

/// What a submission sends never both adds and removes a label, and applying
/// it to the issue's labels gives exactly the checked labels.
pub proof fn lemma_submission_consistent(s: AppState, f: FormState, sub: FormSubmission)
    requires
        s.submits(f, sub),
    ensures
        members(sub.add_labels@).disjoint(members(sub.remove_labels@)),
        s.labels_now(f.editing).difference(members(sub.remove_labels@)).union(
            members(sub.add_labels@),
        ) == members(f.selected_labels@),
{
    let before = s.labels_now(f.editing);
    let sel = members(f.selected_labels@);
    assert(before.difference(members(sub.remove_labels@)).union(members(sub.add_labels@)) =~= sel);
}

/// Leaving search keeps the issue that was selected among the matches
/// selected in the full list.
pub proof fn lemma_exit_search_keeps_selection(s: AppState, t: AppState)
    requires
        s.mode is Search,
        s.selected_index() is Some,
        s.search_exited(t),
    ensures
        t.selected_index() == s.selected_index(),
{
}

/// Toggling the same label twice leaves the checked set as it was.
pub proof fn lemma_toggle_twice(checked: Set<Seq<char>>, name: Seq<char>)
    ensures
        ({
            let once = if checked.contains(name) {
                checked.remove(name)
            } else {
                checked.insert(name)
            };
            let twice = if once.contains(name) {
                once.remove(name)
            } else {
                once.insert(name)
            };
            twice == checked
        }),
{
    if checked.contains(name) {
        assert(checked.remove(name).insert(name) =~= checked);
    } else {
        assert(checked.insert(name).remove(name) =~= checked);
    }
}

} // verus!
