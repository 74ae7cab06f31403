//! What the screens say and where things go: the texts and sizes the
//! terminal layer draws. Drawing itself is the terminal layer's.

use crate::gh::StateFilter;
use crate::model::{contains_string, members, AppState, FormState, Issue, Label, Mode, SETTINGS_ROWS};
use crate::text;
use crate::text::{append_str, chars_of, owned, push_decimal, slice_of, string_of};
use vstd::prelude::*;

verus! {

/// How many colours the label palette has.
pub const LABEL_PALETTE_SIZE: usize = 6;

/// `count` dots.
pub open spec fn dots(count: nat) -> Seq<char> {
    Seq::new(count, |i: int| '.')
}

/// The title cut to `max` characters, its tail replaced by `...` when it
/// does not fit.
pub open spec fn truncated(title: Seq<char>, max: nat) -> Seq<char> {
    if title.len() <= max {
        title
    } else if max <= 3 {
        dots(max)
    } else {
        title.take(max - 3) + "..."@
    }
}

/// Truncates `title` to `max_width` characters, replacing the tail with `...`
/// when it does not fit. Widths count characters, not bytes.
pub fn truncate_title(title: &str, max_width: usize) -> (r: String)
    ensures
        r@ == truncated(title@, max_width as nat),
{
    let cs = chars_of(title);
    if cs.len() <= max_width {
        return string_of(&cs);
    }
    if max_width <= 3 {
        let mut v: Vec<char> = Vec::new();
        let mut i: usize = 0;
        while i < max_width
            invariant
                i <= max_width,
                v@ == dots(i as nat),
            decreases max_width - i,
        {
            v.push('.');
            i = i + 1;
            assert(v@ =~= dots(i as nat));
        }
        return string_of(&v);
    }
    let mut kept = slice_of(&cs, 0, max_width - 3);
    append_str(&mut kept, "...");
    assert(cs@.subrange(0, max_width - 3) =~= cs@.take(max_width - 3));
    string_of(&kept)
}

/// A truncated title never exceeds the width, keeps the title whole when it
/// fits, and otherwise fills the width exactly.
pub proof fn lemma_truncated_width(title: Seq<char>, max: nat)
    ensures
        truncated(title, max).len() == if title.len() <= max {
            title.len()
        } else {
            max
        },
{
    reveal_strlit("...");
}

/// The border title for a repository; the name as it is.
pub fn format_repo_title(repo: &str) -> (r: String)
    ensures
        r@ == repo@,
{
    owned(repo)
}

/// The palette slot of the label called `name`: its position in the
/// repository's label list, cycling through the palette (0 when unknown).
pub open spec fn palette_slot(all_labels: Seq<Label>, name: Seq<char>) -> nat {
    let found = crate::model::names_of(all_labels).index_of_first(name);
    match found {
        Some(i) => (i as nat) % (LABEL_PALETTE_SIZE as nat),
        None => 0,
    }
}

pub fn label_palette_index(all_labels: &Vec<Label>, name: &str) -> (r: usize)
    ensures
        r == palette_slot(all_labels@, name@),
        r < LABEL_PALETTE_SIZE,
{
    let target = owned(name);
    let mut i: usize = 0;
    while i < all_labels.len()
        invariant
            i <= all_labels.len(),
            target@ == name@,
            forall|k: int| 0 <= k < i ==> crate::model::names_of(all_labels@)[k] != name@,
        decreases all_labels.len() - i,
    {
        if all_labels[i].name == target {
            proof {
                let ns = crate::model::names_of(all_labels@);
                assert(ns[i as int] == name@);
                ns.index_of_first_ensures(name@);
            }
            return i % LABEL_PALETTE_SIZE;
        }
        i = i + 1;
    }
    proof {
        let ns = crate::model::names_of(all_labels@);
        ns.index_of_first_ensures(name@);
        assert(!ns.contains(name@));
    }
    0
}

/// With no more labels than palette colours, two different labels of the
/// repository never share a colour.
pub proof fn lemma_palette_slots_distinct(all_labels: Seq<Label>, a: Seq<char>, b: Seq<char>)
    requires
        all_labels.len() <= LABEL_PALETTE_SIZE,
        crate::model::names_of(all_labels).contains(a),
        crate::model::names_of(all_labels).contains(b),
        a != b,
    ensures
        palette_slot(all_labels, a) != palette_slot(all_labels, b),
{
    let ns = crate::model::names_of(all_labels);
    ns.index_of_first_ensures(a);
    ns.index_of_first_ensures(b);
}

/// A rectangle of terminal cells.
#[derive(Debug, Clone, Copy, PartialEq, Eq, Structural)]
pub struct Area {
    pub x: u16,
    pub y: u16,
    pub width: u16,
    pub height: u16,
}

/// How far `inset` moves in from each side: `margin`, reduced so that at
/// least one cell is left.
pub open spec fn shrink(size: u16, margin: u16) -> u16 {
    let half = (if size >= 1 {
        size - 1
    } else {
        0
    }) / 2;
    if margin <= half {
        margin
    } else {
        half as u16
    }
}

/// `area` shrunk by `margin` cells on every side, the margin reduced toward
/// zero rather than failing when the area is too small.
pub fn inset(area: Area, margin: u16) -> (r: Area)
    requires
        area.x + area.width <= u16::MAX,
        area.y + area.height <= u16::MAX,
    ensures
        r == (Area {
            x: (area.x + shrink(area.width, margin)) as u16,
            y: (area.y + shrink(area.height, margin)) as u16,
            width: (area.width - 2 * shrink(area.width, margin)) as u16,
            height: (area.height - 2 * shrink(area.height, margin)) as u16,
        }),
        area.width > 0 ==> r.width > 0,
        area.height > 0 ==> r.height > 0,
{
    let hw = (if area.width >= 1 { area.width - 1 } else { 0 }) / 2;
    let hh = (if area.height >= 1 { area.height - 1 } else { 0 }) / 2;
    let mx = if margin <= hw { margin } else { hw };
    let my = if margin <= hh { margin } else { hh };
    Area {
        x: area.x + mx,
        y: area.y + my,
        width: area.width - 2 * mx,
        height: area.height - 2 * my,
    }
}

/// How a state filter reads in the list header.
pub open spec fn filter_name(f: StateFilter) -> Seq<char> {
    match f {
        StateFilter::Open => "Open"@,
        StateFilter::Triage => "Triage"@,
        StateFilter::Closed => "Closed"@,
        StateFilter::All => "All"@,
    }
}

pub fn state_filter_name(f: StateFilter) -> (r: &'static str)
    ensures
        r@ == filter_name(f),
{
    match f {
        StateFilter::Open => "Open",
        StateFilter::Triage => "Triage",
        StateFilter::Closed => "Closed",
        StateFilter::All => "All",
    }
}

/// `Issues (<filter>)`, followed by the pending operation's text when one
/// runs.
pub fn list_header(f: StateFilter, pending: &Option<String>) -> (r: String)
    ensures
        r@ == "Issues ("@ + filter_name(f) + ")"@ + match pending {
            Some(p) => "  "@ + p@,
            None => Seq::empty(),
        },
{
    let mut v = chars_of("Issues (");
    append_str(&mut v, state_filter_name(f));
    append_str(&mut v, ")");
    match pending {
        Some(p) => {
            append_str(&mut v, "  ");
            append_str(&mut v, p.as_str());
        },
        None => {},
    }
    string_of(&v)
}

/// What the list shows when no issue matches.
pub fn empty_list_message(f: StateFilter) -> (r: String)
    ensures
        r@ == "No issues found for state filter "@ + filter_name(f),
{
    let mut v = chars_of("No issues found for state filter ");
    append_str(&mut v, state_filter_name(f));
    string_of(&v)
}

/// The border title: the repository when known, the program's name
/// otherwise.
pub fn border_title(repo: &Option<String>) -> (r: String)
    ensures
        r@ == match repo {
            Some(name) => name@,
            None => "issue-browser"@,
        },
{
    match repo {
        Some(name) => format_repo_title(name.as_str()),
        None => owned("issue-browser"),
    }
}

/// The quick-create prompt's title.
pub fn little_create_title(repo: &Option<String>) -> (r: String)
    ensures
        r@ == match repo {
            Some(name) => "New issue in "@ + name@,
            None => "New issue"@,
        },
{
    match repo {
        Some(name) => {
            let mut v = chars_of("New issue in ");
            append_str(&mut v, name.as_str());
            string_of(&v)
        },
        None => owned("New issue"),
    }
}

/// `Close #<n>: <title>? (y/n)`, the title empty when the issue is gone.
pub fn confirm_close_text(state: &AppState, number: u32) -> (r: String)
    ensures
        r@ == "Close #"@ + text::decimal(number as nat) + ": "@ + match crate::model::number_index(
            state.issues@,
            number,
        ) {
            Some(i) => state.issues@[i].title@,
            None => Seq::empty(),
        } + "? (y/n)"@,
{
    let mut v = chars_of("Close #");
    push_decimal(&mut v, number as u128);
    append_str(&mut v, ": ");
    match state.find_issue(number) {
        Some(issue) => append_str(&mut v, issue.title.as_str()),
        None => {},
    }
    append_str(&mut v, "? (y/n)");
    string_of(&v)
}

/// The question asked before throwing typed input away.
pub fn confirm_discard_text(previous: &Mode) -> (r: String)
    ensures
        r@ == match previous {
            Mode::Form(form) => match form.editing {
                Some(n) => "Discard unsaved changes to #"@ + text::decimal(n as nat) + "? (y/n)"@,
                None => "Discard this new issue? (y/n)"@,
            },
            Mode::LittleCreate(_) => "Discard this new issue title? (y/n)"@,
            _ => "Discard unsaved changes? (y/n)"@,
        },
{
    match previous {
        Mode::Form(form) => match form.editing {
            Some(n) => {
                let mut v = chars_of("Discard unsaved changes to #");
                push_decimal(&mut v, n as u128);
                append_str(&mut v, "? (y/n)");
                string_of(&v)
            },
            None => owned("Discard this new issue? (y/n)"),
        },
        Mode::LittleCreate(_) => owned("Discard this new issue title? (y/n)"),
        _ => owned("Discard unsaved changes? (y/n)"),
    }
}

/// The date part of a `created_at` timestamp: everything before the first
/// `T`.
pub fn created_date(created_at: &str) -> (r: String)
    ensures
        r@ == created_at@.take(text::find_char(created_at@, 'T') as int),
{
    let cs = chars_of(created_at);
    let i = text::find(&cs, 'T');
    assert(cs@.subrange(0, i as int) =~= cs@.take(i as int));
    string_of(&slice_of(&cs, 0, i))
}

/// The footer message: the pending operation when one runs, the status
/// otherwise (`pending` being the pending text, if any).
pub fn toast_text(pending: Option<String>, status: &Option<(String, std::time::Instant)>) -> (r:
    String)
    ensures
        r@ == match pending {
            Some(p) => p@,
            None => match status {
                Some(st) => st.0@,
                None => Seq::empty(),
            },
        },
{
    match pending {
        Some(p) => p,
        None => match status {
            Some(st) => st.0.clone(),
            None => String::new(),
        },
    }
}


// ---------------------------------------------------------------------------
// List rows
// ---------------------------------------------------------------------------

/// The width of the issue-number column.
pub const NUMBER_COLUMN_WIDTH: usize = 6;

/// `count` spaces.
pub open spec fn spaces(count: nat) -> Seq<char> {
    Seq::new(count, |i: int| ' ')
}

pub open spec fn number_tag(n: u32) -> Seq<char> {
    "#"@ + text::decimal(n as nat)
}

/// `#<n>`, padded with spaces on the right to the column width.
pub open spec fn number_column_text(n: u32) -> Seq<char> {
    let tag = number_tag(n);
    if tag.len() >= NUMBER_COLUMN_WIDTH {
        tag
    } else {
        tag + spaces((NUMBER_COLUMN_WIDTH - tag.len()) as nat)
    }
}

fn push_spaces(v: &mut Vec<char>, count: usize)
    ensures
        final(v)@ == old(v)@ + spaces(count as nat),
{
    let mut i: usize = 0;
    while i < count
        invariant
            i <= count,
            v@ == old(v)@ + spaces(i as nat),
        decreases count - i,
    {
        v.push(' ');
        i = i + 1;
        assert(v@ =~= old(v)@ + spaces(i as nat));
    }
}

pub fn number_column(n: u32) -> (r: String)
    ensures
        r@ == number_column_text(n),
{
    let mut v = chars_of("#");
    text::push_decimal(&mut v, n as u128);
    proof {
        reveal_strlit("#");
    }
    assert(v@ =~= number_tag(n));
    if v.len() < NUMBER_COLUMN_WIDTH {
        let count = NUMBER_COLUMN_WIDTH - v.len();
        push_spaces(&mut v, count);
    }
    string_of(&v)
}

/// Numbers below 100000 all take exactly the column width, so the titles
/// after them start in the same column.
pub proof fn lemma_number_column_aligned(n: u32)
    requires
        n < 100000,
    ensures
        number_column_text(n).len() == NUMBER_COLUMN_WIDTH,
{
    reveal_strlit("#");
    reveal_with_fuel(text::decimal, 6);
    assert(text::decimal(n as nat).len() <= 5);
}

/// The width the labels take on a row: their names, one space apart.
pub open spec fn labels_width_of(labels: Seq<Label>) -> nat
    decreases labels.len(),
{
    if labels.len() == 0 {
        0
    } else {
        labels_width_of(labels.drop_last()) + (if labels.len() > 1 {
            1nat
        } else {
            0nat
        }) + labels.last().name@.len()
    }
}

/// `n`, or the largest `usize` when it does not fit.
pub open spec fn capped(n: nat) -> nat {
    if n <= usize::MAX {
        n
    } else {
        usize::MAX as nat
    }
}

pub open spec fn sat_sub(a: nat, b: nat) -> nat {
    if a >= b {
        (a - b) as nat
    } else {
        0
    }
}

pub fn labels_width(labels: &Vec<Label>) -> (r: usize)
    ensures
        r == capped(labels_width_of(labels@)),
{
    let mut w: usize = 0;
    let mut i: usize = 0;
    while i < labels.len()
        invariant
            i <= labels.len(),
            w == capped(labels_width_of(labels@.take(i as int))),
        decreases labels.len() - i,
    {
        let step: usize = labels[i].name.as_str().unicode_len();
        let extra: usize = if i > 0 {
            1
        } else {
            0
        };
        assert(labels@.take(i + 1).drop_last() =~= labels@.take(i as int));
        if w > usize::MAX - step || w + step > usize::MAX - extra {
            w = usize::MAX;
        } else {
            w = w + step + extra;
        }
        i = i + 1;
    }
    assert(labels@.take(labels.len() as int) =~= labels@);
    w
}

/// One row of the issue list: the number column, the title cut to the room
/// left beside the labels, and the spaces that push the labels to the right
/// edge (none without labels).
pub struct ListRow {
    pub number: String,
    pub title: String,
    pub pad: usize,
}

/// The room the title has on a row `width` cells wide.
pub open spec fn title_room(width: nat, issue: Issue) -> nat {
    sat_sub(
        sat_sub(width, number_column_text(issue.number).len()),
        capped(labels_width_of(issue.labels@)),
    )
}

pub open spec fn row_pad(width: nat, issue: Issue, title_len: nat) -> nat {
    if issue.labels@.len() == 0 {
        0
    } else {
        sat_sub(
            sat_sub(width, number_column_text(issue.number).len() + title_len),
            capped(labels_width_of(issue.labels@)),
        )
    }
}

pub fn list_row(issue: &Issue, width: usize) -> (r: ListRow)
    ensures
        r.number@ == number_column_text(issue.number),
        r.title@ == truncated(issue.title@, title_room(width as nat, *issue)),
        r.pad == row_pad(width as nat, *issue, r.title@.len()),
{
    let number = number_column(issue.number);
    let number_width = number.as_str().unicode_len();
    let lw = labels_width(&issue.labels);
    let after_number = if width >= number_width {
        width - number_width
    } else {
        0
    };
    let room = if after_number >= lw {
        after_number - lw
    } else {
        0
    };
    let title = truncate_title(issue.title.as_str(), room);
    proof {
        lemma_truncated_width(issue.title@, room as nat);
    }
    let title_width = title.as_str().unicode_len();
    let pad = if issue.labels.len() == 0 {
        0
    } else {
        let left = number_width + title_width;
        let after_left = if width >= left {
            width - left
        } else {
            0
        };
        if after_left >= lw {
            after_left - lw
        } else {
            0
        }
    };
    ListRow { number, title, pad }
}

/// On a row wide enough for the number column and the labels, the number,
/// the title, the padding and the labels fill the width exactly: the labels
/// end at the right edge, whatever the title's length.
pub proof fn lemma_row_fills_width(width: nat, issue: Issue)
    requires
        issue.labels@.len() > 0,
        width <= usize::MAX,
        number_column_text(issue.number).len() + labels_width_of(issue.labels@) <= width,
    ensures
        ({
            let title_len = truncated(issue.title@, title_room(width, issue)).len();
            number_column_text(issue.number).len() + title_len + row_pad(width, issue, title_len)
                + labels_width_of(issue.labels@) == width
        }),
{
    lemma_truncated_width(issue.title@, title_room(width, issue));
}

// ---------------------------------------------------------------------------
// Footer hints
// ---------------------------------------------------------------------------

/// A footer line: plain text, or `key description` segments joined by ` · `.
pub enum Hint {
    Plain(String),
    Keys(String),
}

pub open spec fn list_hint_text() -> Seq<char> {
    "j/k move · h hide pane · / search · a state · c/C create · enter/e edit · x close · space check · o open · y/Y/^y copy · , settings · q quit"@
}

pub open spec fn settings_hint_text() -> Seq<char> {
    "j/k move · enter/space toggle · q back"@
}

pub open spec fn form_hint_text() -> Seq<char> {
    "tab/shift+tab field · ctrl+s submit · ctrl+w delete word · ctrl+u clear line · esc cancel"@
}

/// The footer under the list or the form: the search query while searching;
/// only how to quit while something loads or runs; otherwise the screen's
/// shortcuts. The flag says whether it is made of shortcut segments.
pub open spec fn hint_for(s: AppState) -> (bool, Seq<char>) {
    let idle = s.loading is None && s.pending is None;
    if idle && s.mode is Search {
        (false, "/"@ + s.search_query@)
    } else if !idle {
        (true, "q quit"@)
    } else if s.mode is Form {
        (true, form_hint_text())
    } else if s.mode is Settings {
        (true, settings_hint_text())
    } else {
        (true, list_hint_text())
    }
}

pub fn shortcuts_hint(state: &AppState) -> (r: Hint)
    ensures
        match r {
            Hint::Plain(t) => !hint_for(*state).0 && t@ == hint_for(*state).1,
            Hint::Keys(t) => hint_for(*state).0 && t@ == hint_for(*state).1,
        },
{
    let idle = !state.is_loading() && !state.is_pending();
    if idle {
        if let Mode::Search = state.mode {
            let mut v = chars_of("/");
            append_str(&mut v, state.search_query.as_str());
            return Hint::Plain(string_of(&v));
        }
    }
    if !idle {
        return Hint::Keys(owned("q quit"));
    }
    match state.mode {
        Mode::Form(_) => Hint::Keys(
            owned(
                "tab/shift+tab field · ctrl+s submit · ctrl+w delete word · ctrl+u clear line · esc cancel",
            ),
        ),
        Mode::Settings => Hint::Keys(owned("j/k move · enter/space toggle · q back")),
        _ => Hint::Keys(
            owned(
                "j/k move · h hide pane · / search · a state · c/C create · enter/e edit · x close · space check · o open · y/Y/^y copy · , settings · q quit",
            ),
        ),
    }
}

pub open spec fn on_off(b: bool) -> Seq<char> {
    if b {
        "On"@
    } else {
        "Off"@
    }
}

/// The rows of the Settings view, each a setting's name and its value.
pub open spec fn settings_row_texts(s: AppState) -> Seq<Seq<char>> {
    seq![
        "Exit popup after copy/yank: "@ + on_off(s.exit_on_copy_yank),
        "Zebra striping: "@ + on_off(s.zebra_striping),
    ]
}

fn on_off_text(b: bool) -> (r: &'static str)
    ensures
        r@ == on_off(b),
{
    if b {
        "On"
    } else {
        "Off"
    }
}

/// With zebra striping on, the list's odd rows are drawn dim, except the
/// row under the cursor, which keeps its highlight.
pub fn striped_row(state: &AppState, row_index: usize) -> (r: bool)
    ensures
        r == (state.zebra_striping && row_index % 2 == 1 && row_index != state.cursor),
{
    state.zebra_striping && row_index % 2 == 1 && row_index != state.cursor
}

pub fn settings_rows(state: &AppState) -> (r: Vec<String>)
    ensures
        r@.len() == SETTINGS_ROWS,
        forall|i: int| 0 <= i < r@.len() ==> r@[i]@ == settings_row_texts(*state)[i],
{
    let mut first = chars_of("Exit popup after copy/yank: ");
    append_str(&mut first, on_off_text(state.exit_on_copy_yank));
    let mut second = chars_of("Zebra striping: ");
    append_str(&mut second, on_off_text(state.zebra_striping));
    let r = vec![string_of(&first), string_of(&second)];
    r
}

/// The quick-create prompt's footer: the pending operation or the status
/// when there is one (`pending` being the pending text), its shortcuts
/// otherwise.
pub fn little_create_footer(pending: Option<String>, status: &Option<(String, std::time::Instant)>) -> (r:
    Hint)
    ensures
        match pending {
            Some(p) => r matches Hint::Plain(t) && t@ == p@,
            None => match status {
                Some(st) => r matches Hint::Plain(t) && t@ == st.0@,
                None => r matches Hint::Keys(t) && t@ == "enter create · esc cancel"@,
            },
        },
{
    match pending {
        Some(p) => Hint::Plain(p),
        None => match status {
            Some(st) => Hint::Plain(st.0.clone()),
            None => Hint::Keys(owned("enter create · esc cancel")),
        },
    }
}

/// A segment of a shortcut hint: the key, and what it does when the segment
/// says.
pub struct HintSegment {
    pub key: String,
    pub desc: Option<String>,
}

/// `seg` split at its first space into key and description.
pub open spec fn segment_parts(seg: Seq<char>) -> (Seq<char>, Option<Seq<char>>) {
    let i = text::find_char(seg, ' ');
    if i < seg.len() {
        (seg.take(i as int), Some(seg.skip(i + 1 as int)))
    } else {
        (seg, None)
    }
}

pub open spec fn opt_view(o: Option<String>) -> Option<Seq<char>> {
    match o {
        Some(s) => Some(s@),
        None => None,
    }
}

pub open spec fn hint_separator() -> Seq<char> {
    " · "@
}

/// The segments of a shortcut hint, each split into its key and description.
pub fn hint_segments(hint: &str) -> (r: Vec<HintSegment>)
    ensures
        r@.len() == text::split_str(hint@, hint_separator()).len(),
        forall|k: int|
            0 <= k < r@.len() ==> (#[trigger] r@[k]).key@ == segment_parts(
                text::split_str(hint@, hint_separator())[k],
            ).0 && opt_view(r@[k].desc) == segment_parts(
                text::split_str(hint@, hint_separator())[k],
            ).1,
{
    let sep = chars_of(" · ");
    proof {
        reveal_strlit(" · ");
    }
    assert(sep@ == hint_separator());
    let parts = text::split_text(&chars_of(hint), &sep);
    let mut r: Vec<HintSegment> = Vec::new();
    let mut k: usize = 0;
    while k < parts.len()
        invariant
            k <= parts.len(),
            text::seqs_of(parts@) == text::split_str(hint@, hint_separator()),
            r@.len() == k,
            forall|j: int|
                0 <= j < k ==> (#[trigger] r@[j]).key@ == segment_parts(parts@[j]@).0 && opt_view(
                    r@[j].desc,
                ) == segment_parts(parts@[j]@).1,
        decreases parts.len() - k,
    {
        let seg = &parts[k];
        let i = text::find(seg, ' ');
        let piece = if i < seg.len() {
            let key = slice_of(seg, 0, i);
            let desc = slice_of(seg, i + 1, seg.len());
            assert(key@ =~= seg@.take(i as int));
            assert(desc@ =~= seg@.skip(i + 1 as int));
            HintSegment { key: string_of(&key), desc: Some(string_of(&desc)) }
        } else {
            HintSegment { key: string_of(seg), desc: None }
        };
        r.push(piece);
        assert(text::seqs_of(parts@)[k as int] == parts@[k as int]@);
        k = k + 1;
    }
    r
}

// ---------------------------------------------------------------------------
// The detail pane and the form
// ---------------------------------------------------------------------------

/// A box title: `‹ <title> ›`.
pub fn framed_title(title: &str) -> (r: String)
    ensures
        r@ == "‹ "@ + title@ + " ›"@,
{
    let mut v = chars_of("‹ ");
    append_str(&mut v, title);
    append_str(&mut v, " ›");
    string_of(&v)
}

/// The pane's title: `#<n>`.
pub fn pane_title(number: u32) -> (r: String)
    ensures
        r@ == number_tag(number),
{
    let mut v = chars_of("#");
    push_decimal(&mut v, number as u128);
    proof {
        reveal_strlit("#");
    }
    assert(v@ =~= number_tag(number));
    string_of(&v)
}

/// `opened <date>`.
pub fn opened_line(created_at: &str) -> (r: String)
    ensures
        r@ == "opened "@ + created_at@.take(text::find_char(created_at@, 'T') as int),
{
    let date = created_date(created_at);
    let mut v = chars_of("opened ");
    append_str(&mut v, date.as_str());
    string_of(&v)
}

/// The pane's body: the issue's description, or a placeholder when empty.
pub fn pane_body(body: &str) -> (r: String)
    ensures
        r@ == if body@.len() == 0 {
            "(no description)"@
        } else {
            body@
        },
{
    if body.unicode_len() == 0 {
        owned("(no description)")
    } else {
        owned(body)
    }
}

pub open spec fn label_item_text(checked: bool, name: Seq<char>) -> Seq<char> {
    (if checked {
        "[x] "@
    } else {
        "[ ] "@
    }) + name
}

/// The rows of the form's label list: each label with its check box.
pub fn label_items(form: &FormState) -> (r: Vec<String>)
    ensures
        r@.len() == form.all_label_names@.len(),
        forall|k: int|
            0 <= k < r@.len() ==> (#[trigger] r@[k])@ == label_item_text(
                members(form.selected_labels@).contains(form.all_label_names@[k]@),
                form.all_label_names@[k]@,
            ),
{
    let mut r: Vec<String> = Vec::new();
    let mut k: usize = 0;
    while k < form.all_label_names.len()
        invariant
            k <= form.all_label_names.len(),
            r@.len() == k,
            forall|j: int|
                0 <= j < k ==> (#[trigger] r@[j])@ == label_item_text(
                    members(form.selected_labels@).contains(form.all_label_names@[j]@),
                    form.all_label_names@[j]@,
                ),
        decreases form.all_label_names.len() - k,
    {
        let name = &form.all_label_names[k];
        let checked = contains_string(&form.selected_labels, name);
        assert(members(form.selected_labels@) == text::strs_of(form.selected_labels@).to_set());
        let mut v = if checked {
            chars_of("[x] ")
        } else {
            chars_of("[ ] ")
        };
        append_str(&mut v, name.as_str());
        r.push(string_of(&v));
        k = k + 1;
    }
    r
}

} // verus!
