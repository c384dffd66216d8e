//! Grid positions and the cursor.
//!
//! A [`Point`] addresses a character by row and column; an offset addresses it
//! by its index in the whole text. `to_char` and `from_char` convert between
//! the two, and undo each other.

use vstd::prelude::*;
use crate::buffer::{
    rope_char_to_line,
    rope_chars,
    rope_len_chars,
    rope_len_lines,
    rope_line_to_char,
};
use crate::lines::{
    lemma_line_of_offset_bounds,
    lemma_line_start_bounds,
    lemma_line_start_of_offset,
    lemma_newline_count_bound,
    line_count,
    line_of_offset,
    line_start,
    max_text_len,
};

verus! {

/// A position in the text grid: `x` is the column, `y` the row, both counted
/// from zero.
#[derive(Copy, Clone, Debug, PartialEq, Eq, Structural)]
pub struct Point {
    pub x: i64,
    pub y: i64,
}

/// The edit position, the column that vertical movement aims for, and the
/// anchor of the selection, if one is active.
#[derive(Copy, Clone, Debug)]
pub struct Cursor {
    pub position: Point,
    pub remembered_x: i64,
    pub selection: Option<Point>,
}

impl Point {
    /// The offset this point addresses in `s`: the start of its row plus its
    /// column.
    pub open spec fn to_offset(self, s: Seq<char>) -> int {
        line_start(s, self.y as int) + self.x
    }

    /// The point that addresses offset `o` of `s`: the row is the line the
    /// offset lies on, the column its distance from that line's start.
    pub open spec fn from_offset(o: int, s: Seq<char>) -> Point {
        let line = line_of_offset(s, o);
        Point { x: (o - line_start(s, line)) as i64, y: line as i64 }
    }

    /// This point names a row of `s` and addresses an offset inside `s` or
    /// right at its end.
    pub open spec fn valid_in(self, s: Seq<char>) -> bool {
        &&& 0 <= self.y < line_count(s)
        &&& 0 <= self.x
        &&& self.to_offset(s) <= s.len()
    }

    /// Tests whether this point is valid in `text`.
    pub fn is_valid_in(&self, text: &ropey::Rope) -> (valid: bool)
        requires
            rope_chars(*text).len() <= max_text_len(),
        ensures
            valid == self.valid_in(rope_chars(*text)),
    {
        proof {
            lemma_newline_count_bound(rope_chars(*text));
        }
        if self.y < 0 || self.x < 0 {
            return false;
        }
        if self.y >= rope_len_lines(text) as i64 {
            return false;
        }
        proof {
            lemma_line_start_bounds(rope_chars(*text), self.y as int);
        }
        let start = rope_line_to_char(text, self.y as usize);
        self.x <= (rope_len_chars(text) - start) as i64
    }

    /// The offset of this point in `text`. The row must be a line of the text
    /// or the one past its last; nothing else is checked.
    pub fn to_char(&self, text: &ropey::Rope) -> (offset: usize)
        requires
            0 <= self.y <= line_count(rope_chars(*text)),
            0 <= self.x,
            self.y <= usize::MAX,
            self.to_offset(rope_chars(*text)) <= usize::MAX,
        ensures
            offset == self.to_offset(rope_chars(*text)),
    {
        proof {
            lemma_line_start_bounds(rope_chars(*text), self.y as int);
        }
        rope_line_to_char(text, self.y as usize) + self.x as usize
    }

    /// The point of offset `char` in `text`.
    pub fn from_char(char: usize, text: &ropey::Rope) -> (point: Point)
        requires
            char <= rope_chars(*text).len(),
            char <= i64::MAX,
        ensures
            point == Point::from_offset(char as int, rope_chars(*text)),
            point.valid_in(rope_chars(*text)),
            point.to_offset(rope_chars(*text)) == char,
    {
        proof {
            lemma_from_offset(rope_chars(*text), char as int);
        }
        let line = rope_char_to_line(text, char);
        let line_idx = rope_line_to_char(text, line);
        Point { y: line as i64, x: (char - line_idx) as i64 }
    }
}

impl Cursor {
    /// A cursor at the origin, with nothing selected.
    pub fn new() -> (cursor: Cursor)
        ensures
            cursor == (Cursor { position: Point { x: 0, y: 0 }, remembered_x: 0, selection: None }),
    {
        Cursor { position: Point { x: 0, y: 0 }, remembered_x: 0, selection: None }
    }

    /// The position, and the anchor where there is one, are valid in `s`.
    pub open spec fn valid_in(self, s: Seq<char>) -> bool {
        &&& self.position.valid_in(s)
        &&& self.selection matches Some(anchor) ==> anchor.valid_in(s)
    }

    /// Tests whether the position, and the anchor where there is one, are
    /// valid in `text`.
    pub fn is_valid_in(&self, text: &ropey::Rope) -> (valid: bool)
        requires
            rope_chars(*text).len() <= max_text_len(),
        ensures
            valid == self.valid_in(rope_chars(*text)),
    {
        if !self.position.is_valid_in(text) {
            return false;
        }
        match self.selection {
            Some(anchor) => anchor.is_valid_in(text),
            None => true,
        }
    }
}

/// The row and column of an offset fit the point's integers, and stay inside
/// the text.
pub proof fn lemma_from_offset(s: Seq<char>, o: int)
    requires
        0 <= o <= s.len(),
        o <= i64::MAX,
    ensures
        0 <= line_of_offset(s, o) <= o,
        0 <= line_start(s, line_of_offset(s, o)) <= o,
        Point::from_offset(o, s).y == line_of_offset(s, o),
        Point::from_offset(o, s).x == o - line_start(s, line_of_offset(s, o)),
        Point::from_offset(o, s).valid_in(s),
        Point::from_offset(o, s).to_offset(s) == o,
{
    lemma_line_of_offset_bounds(s, o);
    lemma_newline_count_bound(s.take(o));
    lemma_line_start_of_offset(s, o);
}

/// A point that is valid in a text of a length the engine handles has a row,
/// a column and an offset that fit the machine's integers, with room for one
/// more.
pub proof fn lemma_valid_point_fits(p: Point, s: Seq<char>)
    requires
        p.valid_in(s),
        s.len() <= max_text_len(),
    ensures
        0 <= p.y < line_count(s) <= s.len() + 1,
        0 <= line_start(s, p.y as int) <= p.to_offset(s) <= s.len(),
        0 <= line_start(s, p.y + 1) <= s.len(),
        p.y < usize::MAX,
        p.y < i64::MAX,
        p.x <= s.len(),
{
    lemma_newline_count_bound(s);
    lemma_line_start_bounds(s, p.y as int);
    lemma_line_start_bounds(s, p.y + 1);
}

/// Converting an offset to a point and back gives the offset again.
pub proof fn lemma_offset_round_trip(s: Seq<char>, o: int)
    requires
        0 <= o <= s.len(),
        o <= i64::MAX,
    ensures
        Point::from_offset(o, s).to_offset(s) == o,
{
    lemma_from_offset(s, o);
}

/// The first offset is the origin of the grid.
pub proof fn lemma_from_offset_zero(s: Seq<char>)
    ensures
        Point::from_offset(0, s) == (Point { x: 0, y: 0 }),
{
    lemma_from_offset(s, 0);
}

} // verus!
