//! The edited text with its undo history, and the operations on it.
//!
//! A [`Text`] is a stack of [`UndoPoint`]s, each a rope and a cursor. The
//! entry at `index` is the one the operations read and change; the others are
//! what undo and redo step to. What each operation does is stated over the
//! view of the text, a [`TextView`].

use vstd::prelude::*;
use vstd::utf8::{decode_utf8, valid_utf8};
use crate::buffer::{
    rope_char,
    rope_char_to_line,
    rope_chars,
    rope_from_utf8,
    rope_insert,
    rope_len_chars,
    rope_len_lines,
    rope_line_to_char,
    rope_remove,
    rope_substring,
};
use crate::crlf::{not_cr, without_cr, RemoveCrlf};
use crate::cursor::{lemma_valid_point_fits, Cursor, Point};
use crate::lines::{
    lemma_column_on_line,
    lemma_inner_line,
    lemma_last_line,
    lemma_line_bounds,
    lemma_line_of_offset_bounds,
    lemma_line_start,
    lemma_line_start_bounds,
    lemma_line_start_zero,
    lemma_newline_count_concat,
    line_count,
    line_len,
    line_start,
    max_column,
    max_text_len,
    text_len_fits,
};
use crate::model::{Snapshot, TextView};
use crate::utf8::lemma_decode_len;
use crate::word::{clamp, clamp_int, lemma_word_span_bound, next_word, CharScanner};

verus! {

/// One entry of the undo history: a text and the cursor that goes with it.
#[derive(Debug)]
pub struct UndoPoint {
    pub text: ropey::Rope,
    pub cursor: Cursor,
}

/// The edited text: the undo history, the index of the entry being edited,
/// and whether the last edit left that entry open for soft edits.
pub struct Text {
    pub history: Vec<UndoPoint>,
    pub index: usize,
    pub last_added: bool,
}

/// Which of the two neighbours of the cursor a delete key removes.
#[derive(Clone, Copy, Debug, PartialEq, Eq, Structural)]
pub enum DeleteDirection {
    Forward,
    Back,
}

/// Whether a movement extends the selection or clears it.
#[derive(Clone, Copy, Debug, PartialEq, Eq, Structural)]
pub enum Selection {
    Select,
    NotSelect,
}

/// Why a byte stream could not be loaded.
#[derive(Clone, Copy, Debug, PartialEq, Eq, Structural)]
pub enum LoadError {
    /// The bytes, carriage returns taken out, are not UTF-8.
    InvalidUtf8,
}

impl View for UndoPoint {
    type V = Snapshot;

    open spec fn view(&self) -> Snapshot {
        Snapshot { text: rope_chars(self.text), cursor: self.cursor }
    }
}

impl Clone for UndoPoint {
    /// A copy of this entry: the same characters and the same cursor. The
    /// rope shares its storage with the copy until one of the two is edited.
    fn clone(&self) -> (copy: UndoPoint)
        ensures
            copy@ == self@,
    {
        UndoPoint { text: self.text.clone(), cursor: self.cursor }
    }
}

impl View for Text {
    type V = TextView;

    open spec fn view(&self) -> TextView {
        TextView {
            history: Seq::new(self.history@.len(), |i: int| self.history@[i]@),
            index: self.index as int,
            last_added: self.last_added,
        }
    }
}

/// `base + by` held to the range from 0 to `max`, whatever the size of `by`.
fn clamped_add(base: usize, by: i64, max: usize) -> (r: usize)
    requires
        base <= i64::MAX,
        max <= i64::MAX,
    ensures
        r == clamp_int(base + by, 0, max as int),
{
    match (base as i64).checked_add(by) {
        Some(target) => clamp(target, 0, max as i64) as usize,
        None => max,
    }
}

/// Where only the current entry differs between two texts, the view of the
/// second is the view of the first with that entry replaced, and the second
/// is well formed if the first was and the new entry is.
proof fn lemma_current_changed(before: Text, after: Text)
    requires
        before.index < before.history@.len(),
        after.index == before.index,
        after.last_added == before.last_added,
        after.history@.len() == before.history@.len(),
        forall|j: int|
            0 <= j < before.history@.len() && j != before.index ==> after.history@[j]
                == before.history@[j],
    ensures
        after@ == before@.with_current(after.history@[after.index as int]@),
        before.wf() && after.history@[after.index as int]@.wf() ==> after.wf(),
{
    let goal = before@.with_current(after.history@[after.index as int]@);
    assert forall|j: int| 0 <= j < after@.history.len() implies after@.history[j]
        == goal.history[j] by {
        if j != before.index {
            assert(before@.history[j] == before.history@[j]@);
        }
    }
    assert(after@ =~= goal);
    if before.wf() && after.history@[after.index as int]@.wf() {
        assert forall|j: int| 0 <= j < after@.history.len() implies (
        #[trigger] after@.history[j]).wf() by {
            if j != before.index {
                assert(before@.history[j].wf());
            }
        }
    }
}

impl Text {
    /// The history is never empty, `index` names one of its entries, and in
    /// every entry the cursor and the selection anchor address places in
    /// that entry's text.
    pub open spec fn wf(&self) -> bool {
        self@.wf()
    }

    /// Tests whether this text is well formed. The operations keep a text
    /// well formed; this is for a caller that has set a cursor by hand.
    pub fn is_wf(&self) -> (wf: bool)
        ensures
            wf == self.wf(),
    {
        if self.index >= self.history.len() {
            return false;
        }
        let mut i: usize = 0;
        while i < self.history.len()
            invariant
                i <= self.history@.len(),
                self.index < self.history@.len(),
                forall|j: int| 0 <= j < i ==> (#[trigger] self@.history[j]).wf(),
            decreases self.history@.len() - i,
        {
            let point = &self.history[i];
            assert(self@.history[i as int] == point@);
            if !text_len_fits(rope_len_chars(&point.text)) {
                return false;
            }
            if !point.cursor.is_valid_in(&point.text) {
                return false;
            }
            i = i + 1;
        }
        true
    }

    /// Loads a text from `bytes`: takes out every carriage return and reads
    /// the rest as UTF-8. The history starts with that text alone, the cursor
    /// at the origin.
    pub fn new(bytes: Vec<u8>) -> (loaded: Result<Text, LoadError>)
        requires
            bytes@.len() <= max_text_len(),
        ensures
            loaded is Ok <==> valid_utf8(without_cr(bytes@)),
            loaded matches Ok(text) ==> text.wf() && text@ == (TextView {
                history: seq![
                    Snapshot {
                        text: decode_utf8(without_cr(bytes@)),
                        cursor: Cursor {
                            position: Point { x: 0, y: 0 },
                            remembered_x: 0,
                            selection: None,
                        },
                    },
                ],
                index: 0,
                last_added: false,
            }),
            loaded matches Err(e) ==> e == LoadError::InvalidUtf8,
    {
        let ghost input = bytes@;
        let mut bytes = bytes;
        let mut filter = RemoveCrlf::new();
        let len = filter.strip(bytes.as_mut_slice());
        bytes.truncate(len);
        match rope_from_utf8(bytes.as_slice()) {
            Some(initial_text) => {
                let p = UndoPoint { text: initial_text, cursor: Cursor::new() };
                let mut history: Vec<UndoPoint> = Vec::new();
                history.push(p);
                let text = Text { history, index: 0, last_added: false };
                proof {
                    let chars = decode_utf8(without_cr(input));
                    lemma_decode_len(without_cr(input));
                    input.lemma_filter_len(not_cr());
                    lemma_line_start_zero(chars);
                    assert(text@.history =~= seq![text.history@[0]@]);
                }
                Ok(text)
            },
            None => Err(LoadError::InvalidUtf8),
        }
    }

    /// The whole text as a string.
    pub fn get_string(&self) -> (s: String)
        requires
            self.index < self.history@.len(),
        ensures
            s@ == self@.current().text,
    {
        let text = &self.history[self.index].text;
        let len = rope_len_chars(text);
        let s = rope_substring(text, 0, len);
        assert(rope_chars(*text).subrange(0, len as int) =~= rope_chars(*text));
        s
    }

    /// The cursor of the current entry, to read or to set. Whoever sets it
    /// answers for what it addresses.
    pub fn get_cursor(&mut self) -> (cursor: &mut Cursor)
        requires
            old(self).index < old(self).history@.len(),
        ensures
            *cursor == old(self)@.current().cursor,
            final(self)@ =~= old(self)@.with_current(
                old(self)@.current().with_cursor(*final(cursor)),
            ),
    {
        let i = self.index;
        &mut self.history[i].cursor
    }

    /// The current entry, to read or to change.
    pub fn current_point(&mut self) -> (point: &mut UndoPoint)
        requires
            old(self).index < old(self).history@.len(),
        ensures
            point@ == old(self)@.current(),
            final(self)@ =~= old(self)@.with_current(final(point)@),
    {
        let i = self.index;
        &mut self.history[i]
    }

    /// The rope of the current entry.
    pub fn get_text(&self) -> (text: &ropey::Rope)
        requires
            self.index < self.history@.len(),
        ensures
            rope_chars(*text) == self@.current().text,
    {
        &self.history[self.index].text
    }

    /// Begins a new undo entry unless the current one is still open for soft
    /// edits, and leaves the current entry open.
    fn soft_undo_point(&mut self)
        requires
            old(self).index < old(self).history@.len(),
        ensures
            final(self)@ == old(self)@.soft_undo_point(),
            final(self)@.last_added,
            old(self).wf() ==> final(self).wf(),
    {
        if !self.last_added {
            self.add_undo_point();
        }
        self.last_added = true;
    }

    /// Sets the undo boundary of the edit that follows. A hard boundary
    /// always begins a new undo entry; a soft one begins an entry only where
    /// the current one is closed, and otherwise lets the edit be folded into
    /// it. Either way the current entry is open for soft edits afterwards.
    pub fn begin_edit(&mut self, hard: bool)
        requires
            old(self).index < old(self).history@.len(),
        ensures
            final(self)@ == old(self)@.begin_edit(hard),
            final(self)@.last_added,
            old(self).wf() ==> final(self).wf(),
    {
        if hard {
            self.add_undo_point();
        } else {
            self.soft_undo_point();
        }
    }

    /// The number of characters in the text.
    pub fn len_chars(&self) -> (len: usize)
        requires
            self.index < self.history@.len(),
        ensures
            len == self@.current().text.len(),
    {
        rope_len_chars(&self.history[self.index].text)
    }

    /// The number of lines in the text.
    pub fn line_count(&self) -> (count: usize)
        requires
            self.index < self.history@.len(),
        ensures
            count == line_count(self@.current().text),
    {
        rope_len_lines(&self.history[self.index].text)
    }

    /// The number of characters on line `y`, its line break included; none
    /// where the text has no such line.
    pub fn chars_in_line(&self, y: usize) -> (count: usize)
        requires
            self.index < self.history@.len(),
        ensures
            count == line_len(self@.current().text, y as int),
            y >= line_count(self@.current().text) ==> count == 0,
    {
        let text = &self.history[self.index].text;
        if y >= rope_len_lines(text) {
            return 0;
        }
        proof {
            lemma_line_bounds(rope_chars(*text), y as int);
        }
        rope_line_to_char(text, y + 1) - rope_line_to_char(text, y)
    }

    /// Tests whether `str` can be inserted: whether it holds a character and
    /// leaves the text of a length the engine handles.
    pub fn insert_applies(&self, str: &str) -> (applies: bool)
        requires
            self.wf(),
        ensures
            applies == (str@.len() > 0 && self@.current().text.len() + str@.len()
                <= max_text_len()),
    {
        let count = str.unicode_len();
        let len = self.len_chars();
        assert(self@.current().wf());
        count > 0 && count <= usize::MAX - len && text_len_fits(len + count)
    }

    /// Inserts `str` at the cursor, in place of the selection where there is
    /// one. The cursor lands behind the inserted text and remembers its
    /// column. More than one character, or a single whitespace character,
    /// begins a new undo entry; a single other character is folded into the
    /// current entry while that is open.
    pub fn insert_text(&mut self, str: &str)
        requires
            old(self).wf(),
            str@.len() > 0,
            old(self)@.current().text.len() + str@.len() <= max_text_len(),
        ensures
            final(self).wf(),
            final(self)@ == old(self)@.insert_text(str@),
    {
        let first_is_whitespace = str.get_char(0).is_whitespace();
        self.insert_classified(str, first_is_whitespace);
    }

    /// Inserts `str` as [`Text::insert_text`] does, told whether the first
    /// character of `str` is whitespace: the undo boundary is hard where
    /// `str` holds more than one character or `first_is_whitespace` is set,
    /// and soft otherwise.
    pub fn insert_classified(&mut self, str: &str, first_is_whitespace: bool)
        requires
            old(self).wf(),
            str@.len() > 0,
            old(self)@.current().text.len() + str@.len() <= max_text_len(),
        ensures
            final(self).wf(),
            final(self)@ == old(self)@.insert_classified(str@, first_is_whitespace),
    {
        let count = str.unicode_len();
        self.begin_edit(count > 1 || first_is_whitespace);
        let ghost begun = *self;
        let ghost s = self@.current();
        assert(s == old(self)@.current());
        let i = self.index;
        let start = match self.selection_range() {
            Some(range) => {
                rope_remove(&mut self.history[i].text, range.start, range.end);
                range.start
            },
            None => {
                proof {
                    lemma_valid_point_fits(s.cursor.position, s.text);
                }
                self.history[i].cursor.position.to_char(&self.history[i].text)
            },
        };
        rope_insert(&mut self.history[i].text, start, str);
        let position = Point::from_char(start + count, &self.history[i].text);
        self.history[i].cursor.position = position;
        self.history[i].cursor.selection = None;
        self.history[i].cursor.remembered_x = position.x;
        proof {
            let (a, b) = match s.selection_range() {
                Some(range) => range,
                None => (s.offset(), s.offset()),
            };
            let cut = s.text.take(a) + s.text.skip(b);
            assert(cut.take(a) =~= s.text.take(a));
            assert(cut.skip(a) =~= s.text.skip(b));
            assert(self.history@[i as int]@ == s.insert_text(str@));
            lemma_current_changed(begun, *self);
        }
    }

    /// The offset of the character at the cursor, if the text has one there.
    fn char_to_delete_next(text: &ropey::Rope, cursor: &Cursor) -> (idx: Option<usize>)
        requires
            cursor.position.valid_in(rope_chars(*text)),
            rope_chars(*text).len() <= max_text_len(),
        ensures
            idx is Some <==> cursor.position.to_offset(rope_chars(*text)) < rope_chars(*text).len(),
            idx matches Some(i) ==> i == cursor.position.to_offset(rope_chars(*text)),
    {
        proof {
            lemma_valid_point_fits(cursor.position, rope_chars(*text));
        }
        let start_idx = cursor.position.to_char(text);
        if start_idx < rope_len_chars(text) {
            return Some(start_idx);
        }
        None
    }

    /// The offset of the character before the cursor, if the text has one
    /// there.
    fn char_to_delete_previous(text: &ropey::Rope, cursor: &Cursor) -> (idx: Option<usize>)
        requires
            cursor.position.valid_in(rope_chars(*text)),
            rope_chars(*text).len() <= max_text_len(),
        ensures
            idx is Some <==> cursor.position.to_offset(rope_chars(*text)) > 0,
            idx matches Some(i) ==> i == cursor.position.to_offset(rope_chars(*text)) - 1,
    {
        proof {
            lemma_valid_point_fits(cursor.position, rope_chars(*text));
        }
        let start_idx = cursor.position.to_char(text);
        if start_idx > 0 {
            return Some(start_idx - 1);
        }
        return None;
    }

    /// Deletes the selection where there is one, beginning a new undo entry.
    /// Otherwise deletes one character: the one at the cursor going forward,
    /// the one before it going back, and nothing where the text ends there.
    /// Deleting a line break begins a new undo entry; deleting another
    /// character is folded into the current entry while that is open. The
    /// cursor lands where the deleted text began.
    pub fn delete_text(&mut self, key: DeleteDirection)
        requires
            old(self).wf(),
        ensures
            final(self).wf(),
            final(self)@ == old(self)@.delete_text(key),
    {
        let ghost s = self@.current();
        if let Some(range) = self.selection_range() {
            self.add_undo_point();
            let ghost begun = *self;
            let i = self.index;
            rope_remove(&mut self.history[i].text, range.start, range.end);
            let position = Point::from_char(range.start, &self.history[i].text);
            self.history[i].cursor.position = position;
            self.history[i].cursor.selection = None;
            proof {
                assert(self.history@[i as int]@ == s.remove(range.start as int, range.end as int));
                lemma_current_changed(begun, *self);
            }
        } else {
            let i = self.index;
            let char_to_delete = match key {
                DeleteDirection::Forward => Text::char_to_delete_next(
                    &self.history[i].text,
                    &self.history[i].cursor,
                ),
                DeleteDirection::Back => Text::char_to_delete_previous(
                    &self.history[i].text,
                    &self.history[i].cursor,
                ),
            };
            if let Some(idx) = char_to_delete {
                proof {
                    lemma_valid_point_fits(s.cursor.position, s.text);
                }
                let removes_line_break = rope_char(&self.history[i].text, idx) == '\n';
                self.begin_edit(removes_line_break);
                let ghost begun = *self;
                assert(self@.current() == s);
                let i = self.index;
                rope_remove(&mut self.history[i].text, idx, idx + 1);
                let position = Point::from_char(idx, &self.history[i].text);
                self.history[i].cursor.position = position;
                proof {
                    assert(self.history@[i as int]@ == s.remove(idx as int, idx + 1));
                    lemma_current_changed(begun, *self);
                }
            }
        }
    }

    /// Deletes the selection, beginning a new undo entry, and returns what it
    /// held. The cursor lands where the selection began and the selection is
    /// cleared. Without a selection nothing changes and `None` is returned.
    pub fn remove_selection(&mut self) -> (removed: Option<String>)
        requires
            old(self).wf(),
        ensures
            final(self).wf(),
            final(self)@ == old(self)@.remove_selection(),
            removed is Some <==> old(self)@.current().selection_str() is Some,
            removed matches Some(s) ==> Some(s@) == old(self)@.current().selection_str(),
    {
        let ghost s = self@.current();
        let str = self.get_selection_str();
        match self.selection_range() {
            Some(range) => {
                self.add_undo_point();
                let ghost begun = *self;
                assert(self@.current() == s);
                let i = self.index;
                rope_remove(&mut self.history[i].text, range.start, range.end);
                let position = Point::from_char(range.start, &self.history[i].text);
                self.history[i].cursor.position = position;
                self.history[i].cursor.selection = None;
                proof {
                    assert(self.history@[i as int]@ == s.remove(
                        range.start as int,
                        range.end as int,
                    ));
                    lemma_current_changed(begun, *self);
                }
                str
            },
            None => None,
        }
    }

    /// Deletes the line the cursor is on, line break included, and returns
    /// it. A new undo entry is begun unless the line is empty. The cursor
    /// goes to the first column of its row and the selection is cleared.
    pub fn remove_current_line(&mut self) -> (line: String)
        requires
            old(self).wf(),
        ensures
            final(self).wf(),
            final(self)@ == old(self)@.remove_current_line(),
            line@ == old(self)@.current().current_line(),
    {
        let ghost s = self@.current();
        let line_to_remove = self.get_current_line();
        if line_to_remove.as_str().unicode_len() > 0 {
            self.add_undo_point();
        }
        let ghost begun = *self;
        assert(self@.current() == s);
        let i = self.index;
        proof {
            let y = s.cursor.position.y as int;
            lemma_valid_point_fits(s.cursor.position, s.text);
            lemma_line_bounds(s.text, y);
            lemma_line_start(s.text, y);
            let rest = s.remove_current_line().text;
            lemma_newline_count_concat(
                s.text.take(line_start(s.text, y)),
                s.text.skip(line_start(s.text, y + 1)),
            );
            lemma_line_start_bounds(rest, y);
        }
        self.history[i].cursor.position.x = 0;
        self.history[i].cursor.remembered_x = 0;
        self.history[i].cursor.selection = None;
        let y = self.history[i].cursor.position.y as usize;
        let start_idx = rope_line_to_char(&self.history[i].text, y);
        let end_idx = rope_line_to_char(&self.history[i].text, y + 1);
        rope_remove(&mut self.history[i].text, start_idx, end_idx);
        proof {
            assert(self.history@[i as int]@ == s.remove_current_line());
            lemma_current_changed(begun, *self);
        }
        line_to_remove
    }

    /// Begins a new undo entry: drops what could be redone, appends a copy of
    /// the current entry and makes it the current one.
    pub fn add_undo_point(&mut self)
        requires
            old(self).index < old(self).history@.len(),
        ensures
            final(self)@ == old(self)@.add_undo_point(),
            old(self).wf() ==> final(self).wf(),
    {
        assert(self.index < self.history.len());
        self.last_added = true;
        let undo_point = self.history[self.index].clone();
        self.history.truncate(self.index + 1);
        self.history.push(undo_point);
        self.index = self.history.len() - 1;
        assert(self@.history =~= old(self)@.add_undo_point().history);
    }

    /// Steps back to the entry before the current one, if there is one. The
    /// next edit begins a new entry either way.
    pub fn undo(&mut self)
        ensures
            final(self)@ == old(self)@.undo(),
            old(self).wf() ==> final(self).wf(),
    {
        self.last_added = false;
        if self.index > 0 {
            self.index -= 1;
        }
    }

    /// Steps forward to the entry after the current one, if there is one.
    pub fn redo(&mut self)
        requires
            old(self).index < old(self).history@.len(),
        ensures
            final(self)@ == old(self)@.redo(),
            old(self).wf() ==> final(self).wf(),
    {
        assert(self.index < self.history.len());
        if self.index + 1 < self.history.len() {
            self.index = self.index + 1;
        }
    }

    /// Applies the selection policy of a movement: extending keeps the anchor
    /// or drops one at the cursor, not extending clears it.
    fn process_selection(&mut self, selection: Selection)
        requires
            old(self).index < old(self).history@.len(),
        ensures
            final(self)@ == old(self)@.with_current(
                old(self)@.current().process_selection(selection),
            ),
            old(self).wf() ==> final(self).wf(),
    {
        let cursor = self.get_cursor();
        match selection {
            Selection::Select => {
                if cursor.selection.is_none() {
                    cursor.selection = Some(cursor.position);
                }
            },
            Selection::NotSelect => {
                cursor.selection = None;
            },
        }
    }

    /// Moves the cursor by `by` characters, forward or backward, stopping at
    /// the ends of the text, and remembers the column it reaches.
    pub fn move_cursor(&mut self, by: i64, selection: Selection)
        requires
            old(self).wf(),
        ensures
            final(self).wf(),
            final(self)@ == old(self)@.with_current(
                old(self)@.current().move_cursor(by as int, selection),
            ),
    {
        self.process_selection(selection);
        let i = self.index;
        let ghost mid = *self;
        let ghost s = self@.current();
        proof {
            lemma_valid_point_fits(s.cursor.position, s.text);
        }
        let len = rope_len_chars(&self.history[i].text);
        let offset = self.history[i].cursor.position.to_char(&self.history[i].text);
        let idx = clamped_add(offset, by, len);
        let position = Point::from_char(idx, &self.history[i].text);
        self.history[i].cursor.position = position;
        self.history[i].cursor.remembered_x = position.x;
        proof {
            lemma_current_changed(mid, *self);
        }
    }

    /// Moves the cursor by `by` lines, up or down, stopping at the first and
    /// the last line. It takes the remembered column, or the last column of
    /// the target line where that line is shorter, and leaves the remembered
    /// column as it was.
    pub fn move_cursor_y(&mut self, by: i64, selection: Selection)
        requires
            old(self).wf(),
        ensures
            final(self).wf(),
            final(self)@ == old(self)@.with_current(
                old(self)@.current().move_cursor_y(by as int, selection),
            ),
    {
        self.process_selection(selection);
        let i = self.index;
        let ghost mid = *self;
        let ghost s = self@.current();
        proof {
            lemma_valid_point_fits(s.cursor.position, s.text);
            lemma_line_of_offset_bounds(s.text, s.offset());
        }
        let text = &self.history[i].text;
        let cursor_idx = self.history[i].cursor.position.to_char(text);
        let len_lines = rope_len_lines(text);
        let line_idx = clamped_add(rope_char_to_line(text, cursor_idx), by, len_lines - 1);
        let is_last_line = line_idx + 1 == len_lines;
        proof {
            if is_last_line {
                lemma_last_line(s.text);
            } else {
                lemma_inner_line(s.text, line_idx as int);
            }
            lemma_line_start_bounds(s.text, line_idx as int);
        }
        let line_start_idx = rope_line_to_char(text, line_idx);
        let line_len = rope_line_to_char(text, line_idx + 1) - line_start_idx;
        let max = line_len - if is_last_line {
            0
        } else {
            1
        };
        let column = clamp(self.history[i].cursor.remembered_x, 0, max as i64);
        proof {
            lemma_column_on_line(s.text, line_idx as int, column as int);
        }
        let new_idx = line_start_idx + column as usize;
        let position = Point::from_char(new_idx, text);
        self.history[i].cursor.position = position;
        proof {
            lemma_current_changed(mid, *self);
        }
    }

    /// Moves the cursor forward to the next word boundary: to the end of the
    /// word it stands in, or over the boundary characters ahead and the word
    /// behind them. A line break among the boundary characters stops it.
    pub fn move_to_next_word(&mut self, selection: Selection)
        requires
            old(self).wf(),
        ensures
            final(self).wf(),
            final(self)@ == old(self)@.with_current(
                old(self)@.current().move_to_next_word(selection),
            ),
    {
        self.process_selection(selection);
        let i = self.index;
        let ghost s = self@.current();
        proof {
            lemma_valid_point_fits(s.cursor.position, s.text);
        }
        let idx = self.history[i].cursor.position.to_char(&self.history[i].text);
        let mut iter = CharScanner::new(&self.history[i].text, idx, true);
        let move_by = next_word(&mut iter);
        self.move_cursor(move_by, selection);
        proof {
            let first = old(self)@.current();
            assert(first.process_selection(selection).process_selection(selection)
                == first.process_selection(selection));
            assert(self@ =~= old(self)@.with_current(first.move_to_next_word(selection)));
        }
    }

    /// Moves the cursor backward to the previous word boundary, by the same
    /// rule as forward, read towards the start of the text.
    pub fn move_to_prev_word(&mut self, selection: Selection)
        requires
            old(self).wf(),
        ensures
            final(self).wf(),
            final(self)@ == old(self)@.with_current(
                old(self)@.current().move_to_prev_word(selection),
            ),
    {
        self.process_selection(selection);
        let i = self.index;
        let ghost s = self@.current();
        proof {
            lemma_valid_point_fits(s.cursor.position, s.text);
        }
        let idx = self.history[i].cursor.position.to_char(&self.history[i].text);
        let mut iter = CharScanner::new(&self.history[i].text, idx, false);
        let move_by = next_word(&mut iter);
        proof {
            lemma_word_span_bound(s.text.take(s.offset()).reverse());
        }
        self.move_cursor(-move_by, selection);
        proof {
            let first = old(self)@.current();
            assert(first.process_selection(selection).process_selection(selection)
                == first.process_selection(selection));
            assert(self@ =~= old(self)@.with_current(first.move_to_prev_word(selection)));
        }
    }

    /// Moves the cursor to the end of its row, in front of the line break
    /// where the row has one, and remembers that column.
    pub fn move_to_end_of_line(&mut self, selection: Selection)
        requires
            old(self).wf(),
        ensures
            final(self).wf(),
            final(self)@ == old(self)@.with_current(
                old(self)@.current().move_to_end_of_line(selection),
            ),
    {
        self.process_selection(selection);
        let i = self.index;
        let ghost mid = *self;
        let ghost s = self@.current();
        proof {
            lemma_valid_point_fits(s.cursor.position, s.text);
            if s.cursor.position.y + 1 == line_count(s.text) {
                lemma_last_line(s.text);
            } else {
                lemma_inner_line(s.text, s.cursor.position.y as int);
            }
            lemma_column_on_line(
                s.text,
                s.cursor.position.y as int,
                max_column(s.text, s.cursor.position.y as int),
            );
        }
        let text = &self.history[i].text;
        let y = self.history[i].cursor.position.y;
        let is_last_line = y + 1 == rope_len_lines(text) as i64;
        let line = y as usize;
        let mut x = (rope_line_to_char(text, line + 1) - rope_line_to_char(text, line)) as i64;
        if !is_last_line {
            x -= 1;
        }
        self.history[i].cursor.position.x = x;
        self.history[i].cursor.remembered_x = x;
        proof {
            lemma_current_changed(mid, *self);
        }
    }

    /// Moves the cursor to the first column of its row and remembers that
    /// column.
    pub fn move_to_beginning_of_line(&mut self, selection: Selection)
        requires
            old(self).wf(),
        ensures
            final(self).wf(),
            final(self)@ == old(self)@.with_current(
                old(self)@.current().move_to_beginning_of_line(selection),
            ),
    {
        self.process_selection(selection);
        let i = self.index;
        let ghost mid = *self;
        let ghost s = self@.current();
        proof {
            lemma_valid_point_fits(s.cursor.position, s.text);
        }
        self.history[i].cursor.position.x = 0;
        self.history[i].cursor.remembered_x = 0;
        proof {
            lemma_current_changed(mid, *self);
        }
    }

    /// Moves the cursor behind the last character of the text.
    pub fn move_to_end(&mut self, selection: Selection)
        requires
            old(self).wf(),
        ensures
            final(self).wf(),
            final(self)@ == old(self)@.with_current(old(self)@.current().move_to_end(selection)),
    {
        self.process_selection(selection);
        let i = self.index;
        let ghost mid = *self;
        assert(self@.current().wf());
        let text = &self.history[i].text;
        let position = Point::from_char(rope_len_chars(text), text);
        self.history[i].cursor.position = position;
        proof {
            lemma_current_changed(mid, *self);
        }
    }

    /// Moves the cursor to the first character of the text.
    pub fn move_to_begging(&mut self, selection: Selection)
        requires
            old(self).wf(),
        ensures
            final(self).wf(),
            final(self)@ == old(self)@.with_current(
                old(self)@.current().move_to_begging(selection),
            ),
    {
        self.process_selection(selection);
        let i = self.index;
        let ghost mid = *self;
        proof {
            lemma_line_start_zero(self@.current().text);
        }
        self.history[i].cursor.position = Point { x: 0, y: 0 };
        proof {
            lemma_current_changed(mid, *self);
        }
    }

    /// The selected text, where there is a selection.
    pub fn get_selection_str(&mut self) -> (selected: Option<String>)
        requires
            old(self).wf(),
        ensures
            *final(self) == *old(self),
            selected is Some <==> old(self)@.current().selection_str() is Some,
            selected matches Some(s) ==> Some(s@) == old(self)@.current().selection_str(),
    {
        match self.selection_range() {
            Some(e) => {
                let text = &self.history[self.index].text;
                Some(rope_substring(text, e.start, e.end))
            },
            None => None,
        }
    }

    /// The selected range of offsets, lower end first, where there is a
    /// selection.
    pub fn selection_range(&mut self) -> (range: Option<std::ops::Range<usize>>)
        requires
            old(self).wf(),
        ensures
            *final(self) == *old(self),
            range is Some <==> old(self)@.current().selection_range() is Some,
            range matches Some(r) ==> Some((r.start as int, r.end as int)) == old(
                self,
            )@.current().selection_range() && r.start <= r.end <= old(self)@.current().text.len(),
    {
        let i = self.index;
        let ghost s = self@.current();
        proof {
            lemma_valid_point_fits(s.cursor.position, s.text);
        }
        let a = self.history[i].cursor.position.to_char(&self.history[i].text);
        match self.history[i].cursor.selection {
            Some(anchor) => {
                proof {
                    lemma_valid_point_fits(anchor, s.text);
                }
                let b = anchor.to_char(&self.history[i].text);
                if a <= b {
                    Some(a..b)
                } else {
                    Some(b..a)
                }
            },
            None => None,
        }
    }

    /// The line the cursor is on, its line break included.
    pub fn get_current_line(&mut self) -> (line: String)
        requires
            old(self).wf(),
        ensures
            *final(self) == *old(self),
            line@ == old(self)@.current().current_line(),
    {
        let i = self.index;
        let ghost s = self@.current();
        proof {
            lemma_valid_point_fits(s.cursor.position, s.text);
            lemma_line_bounds(s.text, s.cursor.position.y as int);
        }
        let text = &self.history[i].text;
        let y = self.history[i].cursor.position.y as usize;
        rope_substring(text, rope_line_to_char(text, y), rope_line_to_char(text, y + 1))
    }
}

} // verus!
