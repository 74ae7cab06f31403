//! The text fields of the create/edit form are `ratatui_textarea` text areas:
//! the editing itself (cursor movement, word deletion, undo) is that crate's.
//! This module declares the types and states what the library relies on:
//! the lines a text area holds when it is made, and that styling and cursor
//! placement leave those lines alone.

use crate::text;
use ratatui_textarea::{CursorMove, Input, TextArea, WrapMode};
use vstd::prelude::*;

verus! {

/// One text field of the form: a `ratatui_textarea` text area, reached only
/// through the functions of this module; `area` is what the terminal
/// renders.
#[verifier::external_body]
#[derive(Debug)]
pub struct TextField {
    pub area: TextArea<'static>,
}

impl Clone for TextField {
    /// `TextArea::clone` (derived): the copy holds the same lines, its cursor
    /// where the original's is.
    #[verifier::external_body]
    fn clone(&self) -> (r: Self)
        ensures
            textarea_lines(r) == textarea_lines(*self),
            textarea_cursor(r) == textarea_cursor(*self),
    {
        TextField { area: self.area.clone() }
    }
}

#[verifier::external_type_specification]
#[verifier::external_body]
pub struct ExInput(Input);

/// The lines a text field holds.
pub uninterp spec fn textarea_lines(t: TextField) -> Seq<Seq<char>>;

/// Where a text field's cursor stands: (row, column).
pub uninterp spec fn textarea_cursor(t: TextField) -> (usize, usize);

/// `TextArea::cursor`, as a (row, column) pair.
#[verifier::external_body]
pub(crate) fn cursor_of(t: &TextField) -> (r: (usize, usize))
    ensures
        r == textarea_cursor(*t),
{
    let c = t.area.cursor();
    (c.0, c.1)
}

/// `TextArea::new`: a text area holding `lines`, or one empty line when
/// `lines` is empty, its cursor at the start of the first line.
#[verifier::external_body]
pub(crate) fn new_textarea(lines: Vec<String>) -> (t: TextField)
    ensures
        textarea_lines(t) == if lines@.len() == 0 {
            seq![Seq::<char>::empty()]
        } else {
            text::strs_of(lines@)
        },
        textarea_cursor(t) == (0usize, 0usize),
{
    TextField { area: TextArea::new(lines) }
}

/// `TextArea::lines`, copied out.
#[verifier::external_body]
pub(crate) fn lines_of(t: &TextField) -> (r: Vec<String>)
    ensures
        text::strs_of(r@) == textarea_lines(*t),
{
    t.area.lines().to_vec()
}

/// `TextArea::set_cursor_line_style` with the default (plain) style; the
/// lines and the cursor are untouched.
#[verifier::external_body]
pub(crate) fn plain_cursor_line(t: &mut TextField)
    ensures
        textarea_lines(*final(t)) == textarea_lines(*old(t)),
        textarea_cursor(*final(t)) == textarea_cursor(*old(t)),
{
    t.area.set_cursor_line_style(ratatui::style::Style::default());
}

/// `TextArea::set_wrap_mode(WrapMode::Word)`; the lines and the cursor are
/// untouched.
#[verifier::external_body]
pub(crate) fn wrap_words(t: &mut TextField)
    ensures
        textarea_lines(*final(t)) == textarea_lines(*old(t)),
        textarea_cursor(*final(t)) == textarea_cursor(*old(t)),
{
    t.area.set_wrap_mode(WrapMode::Word);
}

/// `TextArea::move_cursor(CursorMove::End)`: the cursor goes to the end of
/// its line (the column after the line's last character); the lines are
/// untouched.
#[verifier::external_body]
pub(crate) fn cursor_to_line_end(t: &mut TextField)
    ensures
        textarea_lines(*final(t)) == textarea_lines(*old(t)),
        textarea_cursor(*old(t)).0 < textarea_lines(*old(t)).len() ==> textarea_cursor(*final(t))
            == (
        textarea_cursor(*old(t)).0,
        textarea_lines(*old(t))[textarea_cursor(*old(t)).0 as int].len() as usize,
        ),
{
    t.area.move_cursor(CursorMove::End);
}

/// `TextArea::move_cursor(CursorMove::Bottom)`: the cursor goes to the last
/// line, keeping its column when that line is long enough and going to the
/// line's end otherwise; the lines are untouched.
#[verifier::external_body]
pub(crate) fn cursor_to_last_line(t: &mut TextField)
    ensures
        textarea_lines(*final(t)) == textarea_lines(*old(t)),
        textarea_lines(*old(t)).len() > 0 ==> textarea_cursor(*final(t)) == (
        (textarea_lines(*old(t)).len() - 1) as usize,
        if (textarea_cursor(*old(t)).1 as int) < textarea_lines(*old(t)).last().len() {
            textarea_cursor(*old(t)).1
        } else {
            textarea_lines(*old(t)).last().len() as usize
        },
        ),
{
    t.area.move_cursor(CursorMove::Bottom);
}

/// The lines and the cursor a text field holds after it has handled `input`
/// with its own key handling (`TextArea::input`): a function of the text
/// area's whole state as it stood (text, cursor, selection, undo history,
/// settings, and the screen layout it kept from its last drawing, which
/// vertical moves on wrapped lines consult) and of the key.
pub uninterp spec fn key_result(t: TextField, input: Input) -> (Seq<Seq<char>>, (usize, usize));

/// `TextArea::input`: the text area's own key handling. Its effect on the
/// lines and the cursor is named by `key_result`.
#[verifier::external_body]
pub(crate) fn feed_key(t: &mut TextField, input: Input)
    ensures
        (textarea_lines(*final(t)), textarea_cursor(*final(t))) == key_result(*old(t), input),
{
    t.area.input(input);
}

} // verus!
