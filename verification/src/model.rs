//! The engine as mathematics: what each operation does to a text, a cursor
//! and an undo history, with the text taken as a sequence of characters.
//!
//! [`Snapshot`] is one undo entry, [`TextView`] the whole history. The
//! operations of [`crate::text::Text`] are specified by the functions here.

use vstd::prelude::*;
use crate::char_class::whitespace;
use crate::cursor::{
    lemma_from_offset,
    lemma_from_offset_zero,
    lemma_valid_point_fits,
    Cursor,
    Point,
};
use crate::lines::{
    lemma_column_on_line,
    lemma_line_bounds,
    lemma_line_of_offset_bounds,
    lemma_line_start_bounds,
    lemma_line_start_of_prefix,
    lemma_newline_count_bound,
    line_count,
    line_of_offset,
    line_start,
    max_column,
    max_text_len,
};
use crate::text::{DeleteDirection, Selection};
use crate::word::{clamp_int, word_span};

verus! {

/// One state of the edited text: its characters and the cursor that goes
/// with them.
#[verifier::ext_equal]
pub struct Snapshot {
    pub text: Seq<char>,
    pub cursor: Cursor,
}

impl Snapshot {
    /// The text is of a length the engine handles, and the cursor and the
    /// selection anchor address places in it.
    pub open spec fn wf(self) -> bool {
        &&& self.text.len() <= max_text_len()
        &&& self.cursor.valid_in(self.text)
    }

    /// The offset the cursor stands at.
    pub open spec fn offset(self) -> int {
        self.cursor.position.to_offset(self.text)
    }

    /// The selected range of offsets, lower end first: what lies between the
    /// anchor and the cursor. `None` without a selection.
    pub open spec fn selection_range(self) -> Option<(int, int)> {
        match self.cursor.selection {
            Some(anchor) => {
                let a = self.offset();
                let b = anchor.to_offset(self.text);
                if a <= b {
                    Some((a, b))
                } else {
                    Some((b, a))
                }
            },
            None => None,
        }
    }

    /// The same state with another cursor.
    pub open spec fn with_cursor(self, cursor: Cursor) -> Snapshot {
        Snapshot { cursor, ..self }
    }

    /// The selection policy of every movement: extending keeps the anchor
    /// that is there or drops one at the cursor; not extending clears it.
    pub open spec fn process_selection(self, selection: Selection) -> Snapshot {
        let anchor = match selection {
            Selection::Select => match self.cursor.selection {
                Some(anchor) => Some(anchor),
                None => Some(self.cursor.position),
            },
            Selection::NotSelect => None,
        };
        self.with_cursor(Cursor { selection: anchor, ..self.cursor })
    }

    /// Moves the cursor by `by` characters, stopping at the ends of the text,
    /// and remembers the column reached.
    pub open spec fn move_cursor(self, by: int, selection: Selection) -> Snapshot {
        let s = self.process_selection(selection);
        let target = clamp_int(s.offset() + by, 0, s.text.len() as int);
        let position = Point::from_offset(target, s.text);
        s.with_cursor(Cursor { position, remembered_x: position.x, ..s.cursor })
    }

    /// Moves the cursor by `by` lines, stopping at the first and last line.
    /// The column is the remembered one, held to the target line's range; the
    /// remembered column itself stays.
    pub open spec fn move_cursor_y(self, by: int, selection: Selection) -> Snapshot {
        let s = self.process_selection(selection);
        let line = clamp_int(line_of_offset(s.text, s.offset()) + by, 0, line_count(s.text) - 1);
        let column = clamp_int(s.cursor.remembered_x as int, 0, max_column(s.text, line));
        s.with_cursor(Cursor { position: Point { x: column as i64, y: line as i64 }, ..s.cursor })
    }

    /// Moves the cursor forward to the next word boundary.
    pub open spec fn move_to_next_word(self, selection: Selection) -> Snapshot {
        self.move_cursor(word_span(self.text.skip(self.offset())), selection)
    }

    /// Moves the cursor backward to the previous word boundary.
    pub open spec fn move_to_prev_word(self, selection: Selection) -> Snapshot {
        self.move_cursor(-word_span(self.text.take(self.offset()).reverse()), selection)
    }

    /// Moves the cursor to the last column of its row and remembers it.
    pub open spec fn move_to_end_of_line(self, selection: Selection) -> Snapshot {
        let s = self.process_selection(selection);
        let x = max_column(s.text, s.cursor.position.y as int) as i64;
        s.with_cursor(
            Cursor { position: Point { x, y: s.cursor.position.y }, remembered_x: x, ..s.cursor },
        )
    }

    /// Moves the cursor to the first column of its row and remembers it.
    pub open spec fn move_to_beginning_of_line(self, selection: Selection) -> Snapshot {
        let s = self.process_selection(selection);
        s.with_cursor(
            Cursor { position: Point { x: 0, y: s.cursor.position.y }, remembered_x: 0, ..s.cursor },
        )
    }

    /// Moves the cursor behind the last character.
    pub open spec fn move_to_end(self, selection: Selection) -> Snapshot {
        let s = self.process_selection(selection);
        s.with_cursor(
            Cursor { position: Point::from_offset(s.text.len() as int, s.text), ..s.cursor },
        )
    }

    /// Moves the cursor to the origin.
    pub open spec fn move_to_begging(self, selection: Selection) -> Snapshot {
        let s = self.process_selection(selection);
        s.with_cursor(Cursor { position: Point { x: 0, y: 0 }, ..s.cursor })
    }

    /// Puts `str` in place of the characters from `start` to `end`. The cursor
    /// lands behind what was put in and remembers its column; the selection
    /// is cleared.
    pub open spec fn replace(self, start: int, end: int, str: Seq<char>) -> Snapshot {
        let text = self.text.take(start) + str + self.text.skip(end);
        let position = Point::from_offset(start + str.len(), text);
        Snapshot { text, cursor: Cursor { position, remembered_x: position.x, selection: None } }
    }

    /// Inserts `str` at the cursor, in place of the selection where there is
    /// one.
    pub open spec fn insert_text(self, str: Seq<char>) -> Snapshot {
        match self.selection_range() {
            Some((start, end)) => self.replace(start, end, str),
            None => self.replace(self.offset(), self.offset(), str),
        }
    }

    /// Takes out the characters from `start` to `end`. The cursor lands where
    /// they began; the selection is cleared and the remembered column stays.
    pub open spec fn remove(self, start: int, end: int) -> Snapshot {
        let text = self.text.take(start) + self.text.skip(end);
        Snapshot {
            text,
            cursor: Cursor {
                position: Point::from_offset(start, text),
                remembered_x: self.cursor.remembered_x,
                selection: None,
            },
        }
    }

    /// The offset of the character a delete key removes: the one at the
    /// cursor going forward, the one before it going back. `None` where the
    /// text ends there.
    pub open spec fn char_to_delete(self, key: DeleteDirection) -> Option<int> {
        match key {
            DeleteDirection::Forward => if self.offset() < self.text.len() {
                Some(self.offset())
            } else {
                None
            },
            DeleteDirection::Back => if self.offset() > 0 {
                Some(self.offset() - 1)
            } else {
                None
            },
        }
    }

    /// The selected characters, where there is a selection.
    pub open spec fn selection_str(self) -> Option<Seq<char>> {
        match self.selection_range() {
            Some((start, end)) => Some(self.text.subrange(start, end)),
            None => None,
        }
    }

    /// The line the cursor is on, its line break included.
    pub open spec fn current_line(self) -> Seq<char> {
        let y = self.cursor.position.y as int;
        self.text.subrange(line_start(self.text, y), line_start(self.text, y + 1))
    }

    /// Takes out the line the cursor is on, its line break included. The
    /// cursor goes to the first column of its row; the selection is cleared.
    pub open spec fn remove_current_line(self) -> Snapshot {
        let y = self.cursor.position.y as int;
        Snapshot {
            text: self.text.take(line_start(self.text, y)) + self.text.skip(
                line_start(self.text, y + 1),
            ),
            cursor: Cursor {
                position: Point { x: 0, y: self.cursor.position.y },
                remembered_x: 0,
                selection: None,
            },
        }
    }
}

/// An insertion of more than one character, or of one whitespace character,
/// always begins a new undo entry. `len` is the number of characters
/// inserted, `first_is_whitespace` what the first of them is.
pub open spec fn is_hard_insert(len: nat, first_is_whitespace: bool) -> bool {
    len > 1 || first_is_whitespace
}

/// Whether inserting `str` always begins a new undo entry.
pub open spec fn insert_is_hard(str: Seq<char>) -> bool {
    is_hard_insert(str.len(), whitespace(str[0]))
}

/// The undo history: every entry, the index of the one being edited, and
/// whether the next soft edit may still be folded into it.
#[verifier::ext_equal]
pub struct TextView {
    pub history: Seq<Snapshot>,
    pub index: int,
    pub last_added: bool,
}

impl TextView {
    /// The history is never empty, the index names one of its entries, and
    /// every entry is well formed.
    pub open spec fn wf(self) -> bool {
        &&& 0 <= self.index < self.history.len()
        &&& forall|i: int| 0 <= i < self.history.len() ==> (#[trigger] self.history[i]).wf()
    }

    /// The entry being edited: the state the rest of the system sees.
    pub open spec fn current(self) -> Snapshot {
        self.history[self.index]
    }

    /// The same history with the current entry replaced.
    pub open spec fn with_current(self, snapshot: Snapshot) -> TextView {
        TextView { history: self.history.update(self.index, snapshot), ..self }
    }

    /// Begins a new entry: what could be redone is dropped, a copy of the
    /// current entry is appended and becomes the current one.
    pub open spec fn add_undo_point(self) -> TextView {
        TextView {
            history: self.history.take(self.index + 1).push(self.current()),
            index: self.index + 1,
            last_added: true,
        }
    }

    /// Begins a new entry unless the current one is still open for soft
    /// edits.
    pub open spec fn soft_undo_point(self) -> TextView {
        if self.last_added {
            self
        } else {
            self.add_undo_point()
        }
    }

    /// The undo boundary of an edit: hard always begins a new entry, soft
    /// only where none is open.
    pub open spec fn begin_edit(self, hard: bool) -> TextView {
        if hard {
            self.add_undo_point()
        } else {
            self.soft_undo_point()
        }
    }

    /// Steps back one entry, if there is one, and closes the current entry
    /// for soft edits.
    pub open spec fn undo(self) -> TextView {
        TextView {
            index: if self.index > 0 {
                self.index - 1
            } else {
                self.index
            },
            last_added: false,
            ..self
        }
    }

    /// Steps forward one entry, if there is one.
    pub open spec fn redo(self) -> TextView {
        TextView {
            index: if self.index + 1 < self.history.len() {
                self.index + 1
            } else {
                self.index
            },
            ..self
        }
    }

    /// Inserts `str` at the cursor, in place of the selection where there is
    /// one, after the undo boundary that its length and the class of its
    /// first character call for.
    pub open spec fn insert_classified(self, str: Seq<char>, first_is_whitespace: bool) -> TextView {
        self.begin_edit(is_hard_insert(str.len(), first_is_whitespace)).with_current(
            self.current().insert_text(str),
        )
    }

    /// Inserts `str` at the cursor, in place of the selection where there is
    /// one, after the undo boundary that `str` calls for.
    pub open spec fn insert_text(self, str: Seq<char>) -> TextView {
        self.insert_classified(str, whitespace(str[0]))
    }

    /// Deletes the selection behind a hard boundary, or else the one
    /// character the key points at: behind a hard boundary if it is a line
    /// break, a soft one otherwise. Nothing changes where there is no such
    /// character.
    pub open spec fn delete_text(self, key: DeleteDirection) -> TextView {
        let current = self.current();
        match current.selection_range() {
            Some((start, end)) => self.add_undo_point().with_current(current.remove(start, end)),
            None => match current.char_to_delete(key) {
                Some(idx) => self.begin_edit(current.text[idx] == '\n').with_current(
                    current.remove(idx, idx + 1),
                ),
                None => self,
            },
        }
    }

    /// Deletes the selection behind a hard boundary. Nothing changes without
    /// a selection.
    pub open spec fn remove_selection(self) -> TextView {
        let current = self.current();
        match current.selection_range() {
            Some((start, end)) => self.add_undo_point().with_current(current.remove(start, end)),
            None => self,
        }
    }

    /// Deletes the line the cursor is on, behind a hard boundary unless the
    /// line is empty.
    pub open spec fn remove_current_line(self) -> TextView {
        let current = self.current();
        let begun = if current.current_line().len() > 0 {
            self.add_undo_point()
        } else {
            self
        };
        begun.with_current(current.remove_current_line())
    }
}

/// Moving by characters lands on the offset that is `by` away, held to the
/// text: the cursor never leaves the text, whatever the distance asked for.
pub proof fn lemma_move_cursor_clamps(s: Snapshot, by: int, selection: Selection)
    requires
        s.wf(),
    ensures
        s.move_cursor(by, selection).wf(),
        s.move_cursor(by, selection).offset() == clamp_int(s.offset() + by, 0, s.text.len() as int),
        s.move_cursor(by, selection).text == s.text,
{
    lemma_valid_point_fits(s.cursor.position, s.text);
    let target = clamp_int(s.offset() + by, 0, s.text.len() as int);
    lemma_from_offset(s.text, target);
}

/// Moving left from the first offset leaves the cursor at the origin.
pub proof fn lemma_move_left_at_start(s: Snapshot, by: int, selection: Selection)
    requires
        s.wf(),
        s.offset() == 0,
        by <= 0,
    ensures
        s.move_cursor(by, selection).cursor.position == (Point { x: 0, y: 0 }),
{
    lemma_from_offset_zero(s.text);
}

/// Moving right from the last offset leaves the cursor at the last offset.
pub proof fn lemma_move_right_at_end(s: Snapshot, by: int, selection: Selection)
    requires
        s.wf(),
        s.offset() == s.text.len(),
        by >= 0,
    ensures
        s.move_cursor(by, selection).offset() == s.text.len(),
        s.move_cursor(by, selection).cursor.position == Point::from_offset(
            s.text.len() as int,
            s.text,
        ),
{
    lemma_move_cursor_clamps(s, by, selection);
}

/// Moving by lines lands on the line that is `by` away, held to the lines of
/// the text, at a column within that line; the remembered column is not
/// touched.
pub proof fn lemma_move_cursor_y_clamps(s: Snapshot, by: int, selection: Selection)
    requires
        s.wf(),
    ensures
        s.move_cursor_y(by, selection).wf(),
        s.move_cursor_y(by, selection).cursor.position.y == clamp_int(
            line_of_offset(s.text, s.offset()) + by,
            0,
            line_count(s.text) - 1,
        ),
        s.move_cursor_y(by, selection).cursor.remembered_x == s.cursor.remembered_x,
{
    lemma_valid_point_fits(s.cursor.position, s.text);
    lemma_line_of_offset_bounds(s.text, s.offset());
    lemma_newline_count_bound(s.text);
    let line = clamp_int(line_of_offset(s.text, s.offset()) + by, 0, line_count(s.text) - 1);
    lemma_line_bounds(s.text, line);
    let column = clamp_int(s.cursor.remembered_x as int, 0, max_column(s.text, line));
    lemma_column_on_line(s.text, line, column);
    lemma_line_start_bounds(s.text, line);
}

/// Taking characters out behind an offset does not move the point of that
/// offset: after a removal the cursor stands at the row and column at which
/// the removed text began.
pub proof fn lemma_remove_keeps_start(s: Snapshot, start: int, end: int)
    requires
        0 <= start <= end <= s.text.len(),
    ensures
        s.remove(start, end).cursor.position == Point::from_offset(start, s.text),
{
    let rest = s.text.take(start) + s.text.skip(end);
    assert(rest.take(start) =~= s.text.take(start));
    lemma_line_start_of_prefix(s.text, rest, start);
}

/// An undo followed by a redo comes back to the entry it left: the history
/// and the current entry, with its text and cursor, are what they were.
/// This holds wherever the undo had an entry to step back to, and in a
/// history of one entry, where both do nothing.
pub proof fn lemma_undo_redo(v: TextView)
    requires
        v.wf(),
        v.index > 0 || v.history.len() == 1,
    ensures
        v.undo().redo().history == v.history,
        v.undo().redo().index == v.index,
        v.undo().redo().current() == v.current(),
{
}

/// A redo followed by an undo comes back as well, wherever the redo had an
/// entry to step forward to.
pub proof fn lemma_redo_undo(v: TextView)
    requires
        v.wf(),
        v.index + 1 < v.history.len(),
    ensures
        v.redo().undo().history == v.history,
        v.redo().undo().index == v.index,
{
}

/// After a new undo entry has been begun the current entry is the last one:
/// nothing is left to redo, and one undo leads back to the state before.
pub proof fn lemma_new_entry_is_last(v: TextView)
    requires
        v.wf(),
    ensures
        v.add_undo_point().wf(),
        v.add_undo_point().index == v.add_undo_point().history.len() - 1,
        v.add_undo_point().redo() == v.add_undo_point(),
        v.add_undo_point().current() == v.current(),
        v.add_undo_point().undo().current() == v.current(),
{
    let w = v.add_undo_point();
    assert forall|i: int| 0 <= i < w.history.len() implies (#[trigger] w.history[i]).wf() by {
        if i <= v.index {
            assert(w.history[i] == v.history[i]);
        }
    }
}

/// A soft edit on an open entry is folded into it: the history gets no
/// longer. Any other edit adds one entry behind the current one.
pub proof fn lemma_boundary_policy(v: TextView, hard: bool)
    requires
        v.wf(),
    ensures
        !hard && v.last_added ==> v.begin_edit(hard) == v,
        hard || !v.last_added ==> v.begin_edit(hard) == v.add_undo_point(),
        v.begin_edit(hard).last_added,
        v.begin_edit(hard).current() == v.current(),
{
}

/// Undo and redo keep a well-formed history well formed.
pub proof fn lemma_undo_redo_wf(v: TextView)
    requires
        v.wf(),
    ensures
        v.undo().wf(),
        v.redo().wf(),
{
}

} // verus!
