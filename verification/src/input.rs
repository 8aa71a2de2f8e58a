//! The text field of the form. Its buffer is a `tui_input::Input`, which
//! keeps a text, a cursor, a cut buffer and whether the last edit was a cut;
//! what each edit does to them is stated here. Steps by grapheme cluster and
//! by word depend on Unicode segmentation and are named, not spelled out.

use vstd::prelude::*;
use tui_input::Input;
use tui_input::InputRequest as R;
use EditRequest as E;

verus! {

#[verifier::external_type_specification]
#[verifier::external_body]
pub struct ExInput(tui_input::Input);

/// The text held by an input buffer, one entry per character.
pub uninterp spec fn input_text(input: Input) -> Seq<char>;

/// The number of characters before the cursor of an input buffer.
pub uninterp spec fn input_cursor(input: Input) -> nat;

/// The cut buffer of an input buffer: what a yank inserts.
pub uninterp spec fn input_yank(input: Input) -> Seq<char>;

/// Whether the last edit of an input buffer was a cut that a following cut
/// adds to (rather than replacing the cut buffer).
pub uninterp spec fn input_after_cut(input: Input) -> bool;

/// The cursor one grapheme cluster back from `cursor` in `text` (the cursor
/// itself at the start of the text).
pub uninterp spec fn prev_grapheme_cursor(text: Seq<char>, cursor: nat) -> nat;

/// The cursor one grapheme cluster on from `cursor` in `text` (the cursor
/// itself at the end of the text).
pub uninterp spec fn next_grapheme_cursor(text: Seq<char>, cursor: nat) -> nat;

/// The start of the word before `cursor` in `text` (0 when there is none).
pub uninterp spec fn prev_word_cursor(text: Seq<char>, cursor: nat) -> nat;

/// The start of the word after `cursor` in `text` (the end of the text when
/// there is none).
pub uninterp spec fn next_word_cursor(text: Seq<char>, cursor: nat) -> nat;

/// An edit of the text field, as the terminal's key events ask for it.
#[derive(Clone, Copy, Debug, PartialEq, Eq)]
pub enum EditRequest {
    SetCursor(usize),
    InsertChar(char),
    GoToPrevChar,
    GoToNextChar,
    GoToPrevWord,
    GoToNextWord,
    GoToStart,
    GoToEnd,
    DeletePrevChar,
    DeleteNextChar,
    DeletePrevWord,
    DeleteNextWord,
    DeleteLine,
    DeleteTillEnd,
    DeleteFromStart,
    Yank,
}

/// The cursor of `input` lies within its text.
pub open spec fn input_ok(input: Input) -> bool {
    input_cursor(input) <= input_text(input).len()
}

/// The cut buffer after cutting `deleted`: right after another cut, the
/// deleted text joins the buffer (in front when cut before the cursor);
/// otherwise it replaces it.
pub open spec fn cut_into(yank: Seq<char>, after_cut: bool, deleted: Seq<char>, front: bool) -> Seq<char> {
    if after_cut {
        if front {
            deleted + yank
        } else {
            yank + deleted
        }
    } else {
        deleted
    }
}

/// What handling `req` makes of the input buffer `old`: `new`'s text,
/// cursor, cut buffer and cut flag.
pub open spec fn handled(old: Input, req: EditRequest, new: Input) -> bool {
    let t = input_text(old);
    let c = input_cursor(old);
    let y = input_yank(old);
    let cut = input_after_cut(old);
    let t2 = input_text(new);
    let c2 = input_cursor(new);
    let y2 = input_yank(new);
    let cut2 = input_after_cut(new);
    &&& input_ok(new)
    &&& match req {
        EditRequest::SetCursor(pos) => t2 == t && c2 == (if pos < t.len() { pos as nat } else { t.len() })
            && y2 == y && !cut2,
        EditRequest::InsertChar(ch) => t2 == t.take(c as int) + seq![ch] + t.skip(c as int) && c2 == c + 1
            && y2 == y && !cut2,
        EditRequest::GoToPrevChar => {
            let p = prev_grapheme_cursor(t, c);
            p <= c && t2 == t && c2 == p && y2 == y && cut2 == (p == c && cut)
        },
        EditRequest::GoToNextChar => {
            let n = next_grapheme_cursor(t, c);
            c <= n <= t.len() && t2 == t && c2 == n && y2 == y && cut2 == (n == c && cut)
        },
        EditRequest::GoToPrevWord => {
            let p = prev_word_cursor(t, c);
            p <= c && t2 == t && c2 == p && y2 == y && !cut2
        },
        EditRequest::GoToNextWord => {
            let n = next_word_cursor(t, c);
            c <= n <= t.len() && t2 == t && c2 == n && y2 == y && !cut2
        },
        EditRequest::GoToStart => t2 == t && c2 == 0 && y2 == y && !cut2,
        EditRequest::GoToEnd => t2 == t && c2 == t.len() && y2 == y && !cut2,
        EditRequest::DeletePrevChar => {
            let p = prev_grapheme_cursor(t, c);
            p <= c && c2 == p && t2 == t.take(p as int) + t.skip(c as int) && y2 == y
                && cut2 == (p == c && cut)
        },
        EditRequest::DeleteNextChar => {
            let n = next_grapheme_cursor(t, c);
            c <= n <= t.len() && c2 == c && t2 == t.take(c as int) + t.skip(n as int) && y2 == y
                && cut2 == (n == c && cut)
        },
        EditRequest::DeletePrevWord => {
            let p = prev_word_cursor(t, c);
            &&& p <= c
            &&& c2 == p
            &&& t2 == t.take(p as int) + t.skip(c as int)
            &&& y2 == if c == 0 { y } else { cut_into(y, cut, t.subrange(p as int, c as int), true) }
            &&& cut2
        },
        EditRequest::DeleteNextWord => {
            let n = next_word_cursor(t, c);
            &&& c <= n <= t.len()
            &&& c2 == c
            &&& t2 == t.take(c as int) + t.skip(n as int)
            &&& y2 == if c == t.len() { y } else { cut_into(y, cut, t.subrange(c as int, n as int), false) }
            &&& cut2
        },
        EditRequest::DeleteLine => {
            &&& t2.len() == 0
            &&& c2 == 0
            &&& y2 == if t.len() == 0 { y } else { cut_into(y, cut, t, c == t.len()) }
            &&& cut2
        },
        EditRequest::DeleteTillEnd => t2 == t.take(c as int) && c2 == c && y2 == cut_into(
            y,
            cut,
            t.skip(c as int),
            false,
        ) && cut2,
        EditRequest::DeleteFromStart => {
            &&& t2 == t.skip(c as int)
            &&& c2 == 0
            &&& y2 == if c == 0 { y } else { cut_into(y, cut, t.take(c as int), true) }
            &&& !cut2
        },
        EditRequest::Yank => t2 == t.take(c as int) + y + t.skip(c as int) && c2 == c + y.len() && y2 == y
            && !cut2,
    }
}

/// `Input::default()`: an empty buffer with the cursor at the start and an
/// empty cut buffer.
#[verifier::external_body]
pub fn empty_input() -> (input: Input)
    ensures
        input_text(input) == Seq::<char>::empty(),
        input_cursor(input) == 0,
        input_yank(input) == Seq::<char>::empty(),
        !input_after_cut(input),
{
    Input::default()
}

/// `Input::new(value)`: a buffer holding `value`, with the cursor at its end
/// and an empty cut buffer.
#[verifier::external_body]
pub fn input_holding(value: String) -> (input: Input)
    ensures
        input_text(input) == value@,
        input_cursor(input) == value@.len(),
        input_yank(input) == Seq::<char>::empty(),
        !input_after_cut(input),
{
    Input::new(value)
}

/// `Input::value()`, copied into a `String`.
#[verifier::external_body]
pub fn input_value(input: &Input) -> (value: String)
    ensures
        value@ == input_text(*input),
{
    input.value().to_string()
}

/// `Input::handle(req)`: applies one edit to the buffer. Steps back stay at
/// or before the cursor, steps on at or after it and within the text.
#[verifier::external_body]
pub fn handle_request(input: &mut Input, req: EditRequest)
    requires
        input_ok(*old(input)),
    ensures
        handled(*old(input), req, *final(input)),
        prev_grapheme_cursor(input_text(*old(input)), input_cursor(*old(input))) <= input_cursor(*old(input)),
        input_cursor(*old(input)) <= next_grapheme_cursor(input_text(*old(input)), input_cursor(*old(input)))
            <= input_text(*old(input)).len(),
        prev_word_cursor(input_text(*old(input)), input_cursor(*old(input))) <= input_cursor(*old(input)),
        input_cursor(*old(input)) <= next_word_cursor(input_text(*old(input)), input_cursor(*old(input)))
            <= input_text(*old(input)).len(),
{
    let r = match req {
        E::SetCursor(p) => R::SetCursor(p), E::InsertChar(c) => R::InsertChar(c),
        E::GoToPrevChar => R::GoToPrevChar, E::GoToNextChar => R::GoToNextChar,
        E::GoToPrevWord => R::GoToPrevWord, E::GoToNextWord => R::GoToNextWord,
        E::GoToStart => R::GoToStart, E::GoToEnd => R::GoToEnd,
        E::DeletePrevChar => R::DeletePrevChar, E::DeleteNextChar => R::DeleteNextChar,
        E::DeletePrevWord => R::DeletePrevWord, E::DeleteNextWord => R::DeleteNextWord,
        E::DeleteLine => R::DeleteLine, E::DeleteTillEnd => R::DeleteTillEnd,
        E::DeleteFromStart => R::DeleteFromStart, E::Yank => R::Yank,
    };
    input.handle(r);
}

} // verus!
