//! The vocabulary of the editor: the actions a key can stand for, and what
//! each does to the text.
//!
//! The engine neither owns a clipboard nor writes files. An action that needs
//! the clipboard is handed its content, and an action that fills the
//! clipboard or saves the text returns an [`Effect`] for the caller to carry
//! out.

use vstd::prelude::*;
use crate::crlf::{remove_cr, without_cr_chars};
use crate::lines::max_text_len;
use crate::model::TextView;
use crate::text::{DeleteDirection, Selection, Text};

verus! {

/// The number of lines a page key moves the cursor.
pub const PAGE_LINES: i64 = 20;

/// What a key press asks of the editor.
#[derive(Clone, Copy, Debug, PartialEq, Eq, Structural)]
pub enum EditorAction {
    CursorUp,
    CursorUpSelect,
    CursorDown,
    CursorDownSelect,
    CursorLeft,
    CursorLeftSelect,
    CursorPrevWord,
    CursorPrevWordSelect,
    CursorRight,
    CursorRightSelect,
    CursorNextWord,
    CursorNextWordSelect,
    CursorHome,
    CursorHomeSelect,
    CursorEnd,
    CursorEndSelect,
    CursorPageDown,
    CursorPageDownSelect,
    CursorPageUp,
    CursorPageUpSelect,
    CursorEndOfFile,
    CursorEndOfFileSelect,
    CursorBeginningOfFile,
    CursorBeginningOfFileSelect,
    Copy,
    Paste,
    Cut,
    DeleteForward,
    DeleteBackward,
    Undo,
    Redo,
    Save,
}

/// What is left for the caller to do once an action has been applied.
#[derive(Debug)]
pub enum Effect {
    /// Nothing.
    Nothing,
    /// Put this string on the clipboard.
    SetClipboard(String),
    /// Write this string, the whole text, to the file being edited.
    Save(String),
}

/// An [`Effect`] with its string as a sequence of characters.
pub enum EffectView {
    Nothing,
    SetClipboard(Seq<char>),
    Save(Seq<char>),
}

impl View for Effect {
    type V = EffectView;

    open spec fn view(&self) -> EffectView {
        match self {
            Effect::Nothing => EffectView::Nothing,
            Effect::SetClipboard(s) => EffectView::SetClipboard(s@),
            Effect::Save(s) => EffectView::Save(s@),
        }
    }
}

/// What copying takes: the selection, or the cursor's line where nothing is
/// selected.
pub open spec fn copied(v: TextView) -> Seq<char> {
    match v.current().selection_str() {
        Some(s) => s,
        None => v.current().current_line(),
    }
}

/// The text after `action`, where `clipboard` is what the clipboard holds
/// when the action is a paste.
pub open spec fn state_after(
    v: TextView,
    action: EditorAction,
    clipboard: Option<Seq<char>>,
) -> TextView {
    let current = v.current();
    match action {
        EditorAction::CursorUp => v.with_current(current.move_cursor_y(-1, Selection::NotSelect)),
        EditorAction::CursorUpSelect => v.with_current(
            current.move_cursor_y(-1, Selection::Select),
        ),
        EditorAction::CursorDown => v.with_current(current.move_cursor_y(1, Selection::NotSelect)),
        EditorAction::CursorDownSelect => v.with_current(
            current.move_cursor_y(1, Selection::Select),
        ),
        EditorAction::CursorLeft => v.with_current(current.move_cursor(-1, Selection::NotSelect)),
        EditorAction::CursorLeftSelect => v.with_current(
            current.move_cursor(-1, Selection::Select),
        ),
        EditorAction::CursorPrevWord => v.with_current(
            current.move_to_prev_word(Selection::NotSelect),
        ),
        EditorAction::CursorPrevWordSelect => v.with_current(
            current.move_to_prev_word(Selection::Select),
        ),
        EditorAction::CursorRight => v.with_current(current.move_cursor(1, Selection::NotSelect)),
        EditorAction::CursorRightSelect => v.with_current(
            current.move_cursor(1, Selection::Select),
        ),
        EditorAction::CursorNextWord => v.with_current(
            current.move_to_next_word(Selection::NotSelect),
        ),
        EditorAction::CursorNextWordSelect => v.with_current(
            current.move_to_next_word(Selection::Select),
        ),
        EditorAction::CursorHome => v.with_current(
            current.move_to_beginning_of_line(Selection::NotSelect),
        ),
        EditorAction::CursorHomeSelect => v.with_current(
            current.move_to_beginning_of_line(Selection::Select),
        ),
        EditorAction::CursorEnd => v.with_current(
            current.move_to_end_of_line(Selection::NotSelect),
        ),
        EditorAction::CursorEndSelect => v.with_current(
            current.move_to_end_of_line(Selection::Select),
        ),
        EditorAction::CursorPageDown => v.with_current(
            current.move_cursor_y(PAGE_LINES as int, Selection::NotSelect),
        ),
        EditorAction::CursorPageDownSelect => v.with_current(
            current.move_cursor_y(PAGE_LINES as int, Selection::Select),
        ),
        EditorAction::CursorPageUp => v.with_current(
            current.move_cursor_y(-PAGE_LINES, Selection::NotSelect),
        ),
        EditorAction::CursorPageUpSelect => v.with_current(
            current.move_cursor_y(-PAGE_LINES, Selection::Select),
        ),
        EditorAction::CursorEndOfFile => v.with_current(current.move_to_end(Selection::NotSelect)),
        EditorAction::CursorEndOfFileSelect => v.with_current(
            current.move_to_end(Selection::Select),
        ),
        EditorAction::CursorBeginningOfFile => v.with_current(
            current.move_to_begging(Selection::NotSelect),
        ),
        EditorAction::CursorBeginningOfFileSelect => v.with_current(
            current.move_to_begging(Selection::Select),
        ),
        EditorAction::Copy => v,
        EditorAction::Paste => match clipboard {
            Some(s) => v.insert_text(without_cr_chars(s)),
            None => v,
        },
        EditorAction::Cut => if current.selection_range() is Some {
            v.remove_selection()
        } else {
            v.remove_current_line()
        },
        EditorAction::DeleteForward => v.delete_text(DeleteDirection::Forward),
        EditorAction::DeleteBackward => v.delete_text(DeleteDirection::Back),
        EditorAction::Undo => v.undo(),
        EditorAction::Redo => v.redo(),
        EditorAction::Save => v,
    }
}

/// What `action` leaves for the caller to do: copying and cutting fill the
/// clipboard with what they took, saving hands out the whole text.
pub open spec fn effect_of(v: TextView, action: EditorAction) -> EffectView {
    match action {
        EditorAction::Copy => EffectView::SetClipboard(copied(v)),
        EditorAction::Cut => EffectView::SetClipboard(copied(v)),
        EditorAction::Save => EffectView::Save(v.current().text),
        _ => EffectView::Nothing,
    }
}

/// The clipboard content, normalised, can be inserted: something is left of
/// it, and the text stays of a length the engine handles.
pub open spec fn can_paste(v: TextView, clipboard: Seq<char>) -> bool {
    &&& without_cr_chars(clipboard).len() > 0
    &&& v.current().text.len() + without_cr_chars(clipboard).len() <= max_text_len()
}

/// Tests whether `clipboard` can be pasted into `text`.
pub fn paste_applies(text: &Text, clipboard: &str) -> (applies: bool)
    requires
        text.wf(),
    ensures
        applies == can_paste(text@, clipboard@),
{
    let normalized = remove_cr(clipboard);
    text.insert_applies(normalized.as_str())
}

/// Tests whether `action` can be applied to `text` with this clipboard
/// content: whether a paste has something to insert that fits.
pub fn action_applies(text: &Text, action: EditorAction, clipboard: &Option<String>) -> (applies:
    bool)
    requires
        text.wf(),
    ensures
        applies == (action == EditorAction::Paste ==> (*clipboard matches Some(s) ==> can_paste(
            text@,
            s@,
        ))),
{
    match action {
        EditorAction::Paste => match clipboard {
            Some(s) => paste_applies(text, s.as_str()),
            None => true,
        },
        _ => true,
    }
}

/// Applies `action` to `text` and returns what is left for the caller to do.
///
/// `clipboard` is read by a paste only: its content is inserted with the
/// carriage returns taken out, and without a content a paste does nothing.
pub fn dispatch_action(text: &mut Text, action: EditorAction, clipboard: Option<String>) -> (effect:
    Effect)
    requires
        old(text).wf(),
        action == EditorAction::Paste ==> (clipboard matches Some(s) ==> can_paste(old(text)@, s@)),
    ensures
        final(text).wf(),
        final(text)@ == state_after(
            old(text)@,
            action,
            match clipboard {
                Some(s) => Some(s@),
                None => None,
            },
        ),
        effect@ == effect_of(old(text)@, action),
{
    match action {
        EditorAction::CursorUp => {
            text.move_cursor_y(-1, Selection::NotSelect);
            return Effect::Nothing;
        },
        EditorAction::CursorUpSelect => {
            text.move_cursor_y(-1, Selection::Select);
            return Effect::Nothing;
        },
        EditorAction::CursorDown => {
            text.move_cursor_y(1, Selection::NotSelect);
            return Effect::Nothing;
        },
        EditorAction::CursorDownSelect => {
            text.move_cursor_y(1, Selection::Select);
            return Effect::Nothing;
        },
        EditorAction::CursorLeft => {
            text.move_cursor(-1, Selection::NotSelect);
            return Effect::Nothing;
        },
        EditorAction::CursorLeftSelect => {
            text.move_cursor(-1, Selection::Select);
            return Effect::Nothing;
        },
        EditorAction::CursorPrevWord => {
            text.move_to_prev_word(Selection::NotSelect);
            return Effect::Nothing;
        },
        EditorAction::CursorPrevWordSelect => {
            text.move_to_prev_word(Selection::Select);
            return Effect::Nothing;
        },
        EditorAction::CursorRight => {
            text.move_cursor(1, Selection::NotSelect);
            return Effect::Nothing;
        },
        EditorAction::CursorRightSelect => {
            text.move_cursor(1, Selection::Select);
            return Effect::Nothing;
        },
        EditorAction::CursorNextWord => {
            text.move_to_next_word(Selection::NotSelect);
            return Effect::Nothing;
        },
        EditorAction::CursorNextWordSelect => {
            text.move_to_next_word(Selection::Select);
            return Effect::Nothing;
        },
        EditorAction::CursorHome => {
            text.move_to_beginning_of_line(Selection::NotSelect);
            return Effect::Nothing;
        },
        EditorAction::CursorHomeSelect => {
            text.move_to_beginning_of_line(Selection::Select);
            return Effect::Nothing;
        },
        EditorAction::CursorEnd => {
            text.move_to_end_of_line(Selection::NotSelect);
            return Effect::Nothing;
        },
        EditorAction::CursorEndSelect => {
            text.move_to_end_of_line(Selection::Select);
            return Effect::Nothing;
        },
        EditorAction::CursorPageDown => {
            text.move_cursor_y(PAGE_LINES, Selection::NotSelect);
            return Effect::Nothing;
        },
        EditorAction::CursorPageDownSelect => {
            text.move_cursor_y(PAGE_LINES, Selection::Select);
            return Effect::Nothing;
        },
        EditorAction::CursorPageUp => {
            text.move_cursor_y(-PAGE_LINES, Selection::NotSelect);
            return Effect::Nothing;
        },
        EditorAction::CursorPageUpSelect => {
            text.move_cursor_y(-PAGE_LINES, Selection::Select);
            return Effect::Nothing;
        },
        EditorAction::CursorEndOfFile => {
            text.move_to_end(Selection::NotSelect);
            return Effect::Nothing;
        },
        EditorAction::CursorEndOfFileSelect => {
            text.move_to_end(Selection::Select);
            return Effect::Nothing;
        },
        EditorAction::CursorBeginningOfFile => {
            text.move_to_begging(Selection::NotSelect);
            return Effect::Nothing;
        },
        EditorAction::CursorBeginningOfFileSelect => {
            text.move_to_begging(Selection::Select);
            return Effect::Nothing;
        },
        EditorAction::Copy => {
            if let Some(selection_text) = text.get_selection_str() {
                return Effect::SetClipboard(selection_text);
            } else {
                let selection_str = text.get_current_line();
                return Effect::SetClipboard(selection_str);
            }
        },
        EditorAction::Cut => {
            if let Some(removed_text) = text.remove_selection() {
                return Effect::SetClipboard(removed_text);
            } else {
                let removed_text = text.remove_current_line();
                return Effect::SetClipboard(removed_text);
            }
        },
        EditorAction::Paste => {
            if let Some(s) = clipboard {
                let s = remove_cr(s.as_str());
                text.insert_text(s.as_str())
            }
        },
        EditorAction::DeleteForward => {
            text.delete_text(DeleteDirection::Forward);
            return Effect::Nothing;
        },
        EditorAction::DeleteBackward => {
            text.delete_text(DeleteDirection::Back);
            return Effect::Nothing;
        },
        EditorAction::Undo => {
            text.undo();
            return Effect::Nothing;
        },
        EditorAction::Redo => {
            text.redo();
            return Effect::Nothing;
        },
        EditorAction::Save => {
            return Effect::Save(text.get_string());
        },
    }
    Effect::Nothing
}

} // verus!
