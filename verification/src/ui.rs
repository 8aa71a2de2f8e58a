//! What the form's text fields look like: the decisions behind drawing them.

use vstd::prelude::*;
use crate::text::{chars_of, push_char, string_of};

verus! {

/// A terminal color.
#[derive(Clone, Copy, Debug, PartialEq, Eq, Structural)]
pub enum Color {
    Reset,
    Black,
    Red,
    Green,
    Yellow,
    Blue,
    Magenta,
    Cyan,
    Gray,
    DarkGray,
    LightRed,
    LightGreen,
    LightYellow,
    LightBlue,
    LightMagenta,
    LightCyan,
    White,
    Rgb(u8, u8, u8),
    Indexed(u8),
}

/// The color that highlights the selected entry of the file explorer: the
/// accent color, gray if none.
pub fn highlight_color(accent_color: Option<Color>) -> (c: Color)
    ensures
        c == match accent_color {
            Some(a) => a,
            None => Color::Gray,
        },
{
    match accent_color {
        Some(a) => a,
        None => Color::Gray,
    }
}

/// The border of a text field.
#[derive(Clone, Copy, Debug, PartialEq, Eq, Structural)]
pub enum FieldBorder {
    /// Not focused: the default border.
    Plain,
    /// Focused but not being edited (drawn yellow).
    Focused,
    /// Focused and being edited (drawn green).
    Editing,
}

/// The border of a text field, from whether it has the focus and whether
/// it is being edited.
pub fn field_border(focused: bool, is_editable: bool) -> (b: FieldBorder)
    ensures
        b == if !focused {
            FieldBorder::Plain
        } else if is_editable {
            FieldBorder::Editing
        } else {
            FieldBorder::Focused
        },
{
    if focused && !is_editable {
        FieldBorder::Focused
    } else if focused && is_editable {
        FieldBorder::Editing
    } else {
        FieldBorder::Plain
    }
}

/// The glyph after a field's text: a block while the field is edited and
/// the blinking cursor is on, a space otherwise.
pub open spec fn cursor_glyph(focused: bool, is_editable: bool, cursor_active: bool) -> char {
    if is_editable && focused && cursor_active {
        '\u{2588}'
    } else {
        ' '
    }
}

/// The text drawn inside a field: its value followed by the cursor glyph.
pub fn field_body(value: &str, focused: bool, is_editable: bool, cursor_active: bool) -> (body: String)
    ensures
        body@ == value@.push(cursor_glyph(focused, is_editable, cursor_active)),
        body@.len() == value@.len() + 1,
        body@.take(value@.len() as int) == value@,
        is_editable && focused && cursor_active ==> body@.last() == '\u{2588}',
        !(is_editable && focused && cursor_active) ==> body@.last() == ' ',
{
    let v = chars_of(value);
    let mut body = string_of(&v);
    let glyph = if is_editable && focused && cursor_active {
        '\u{2588}'
    } else {
        ' '
    };
    push_char(&mut body, glyph);
    body
}

/// A field's title as drawn on its border: the title with a space on each side.
pub fn field_title(title: &str) -> (t: String)
    ensures
        t@ == seq![' '] + title@ + seq![' '],
{
    let mut t = String::new();
    push_char(&mut t, ' ');
    let v = chars_of(title);
    let mut i: usize = 0;
    while i < v.len()
        invariant
            i <= v.len(),
            v@ == title@,
            t@ == seq![' '] + v@.take(i as int),
        decreases v.len() - i,
    {
        push_char(&mut t, v[i]);
        assert(seq![' '] + v@.take(i + 1) =~= (seq![' '] + v@.take(i as int)).push(v@[i as int]));
        i += 1;
    }
    assert(v@.take(v.len() as int) =~= v@);
    push_char(&mut t, ' ');
    t
}

/// The block cursor shows only in a field that has the focus, is being
/// edited, and is in the visible half of its blink; every other field ends
/// in a space.
pub proof fn lemma_block_cursor_only_while_editing(focused: bool, is_editable: bool, cursor_active: bool)
    ensures
        cursor_glyph(focused, is_editable, cursor_active) == '\u{2588}' <==> (focused && is_editable && cursor_active),
        !is_editable ==> cursor_glyph(focused, is_editable, cursor_active) == ' ',
        !focused ==> cursor_glyph(focused, is_editable, cursor_active) == ' ',
        !cursor_active ==> cursor_glyph(focused, is_editable, cursor_active) == ' ',
{
}

} // verus!
