//! Lines of a character sequence.
//!
//! A line break is the single character `'\n'`. The start of the sequence and
//! every position right after a line break begin a line, so a sequence with
//! `n` line breaks has `n + 1` lines, the last of which may be empty.

use vstd::prelude::*;

verus! {

/// The longest text the engine handles: every offset, row and column of it,
/// and the number one past each, fits both `usize` and `i64`.
pub open spec fn max_text_len() -> int {
    if usize::MAX < i64::MAX {
        usize::MAX - 1
    } else {
        i64::MAX - 1
    }
}

/// Tests whether a text of `len` characters is one the engine handles.
pub fn text_len_fits(len: usize) -> (fits: bool)
    ensures
        fits == (len <= max_text_len()),
{
    len < usize::MAX && (len as u64) < i64::MAX as u64
}

/// The number of line breaks in `s`.
pub open spec fn newline_count(s: Seq<char>) -> nat
    decreases s.len(),
{
    if s.len() == 0 {
        0
    } else {
        newline_count(s.drop_last()) + if s.last() == '\n' {
            1nat
        } else {
            0nat
        }
    }
}

/// The number of lines in `s`.
pub open spec fn line_count(s: Seq<char>) -> nat {
    newline_count(s) + 1
}

/// The index of the line that offset `o` lies on: the number of line breaks
/// before it.
pub open spec fn line_of_offset(s: Seq<char>, o: int) -> int {
    newline_count(s.take(o)) as int
}

/// Offset `o` begins a line.
pub open spec fn is_line_start(s: Seq<char>, o: int) -> bool {
    0 <= o <= s.len() && (o == 0 || s[o - 1] == '\n')
}

/// The offset at which line `line` begins. One past the last line it is the
/// length of `s`.
pub open spec fn line_start(s: Seq<char>, line: int) -> int {
    if 0 <= line <= newline_count(s) {
        choose|o: int| is_line_start(s, o) && line_of_offset(s, o) == line
    } else {
        s.len() as int
    }
}

/// The number of characters on line `line`, its line break included.
pub open spec fn line_len(s: Seq<char>, line: int) -> int {
    line_start(s, line + 1) - line_start(s, line)
}

/// The largest column a cursor may take on line `line`: the position before
/// the line break, or the end of the text on the last line.
pub open spec fn max_column(s: Seq<char>, line: int) -> int {
    if line + 1 == line_count(s) {
        line_len(s, line)
    } else {
        line_len(s, line) - 1
    }
}

/// A text holds no more line breaks than characters.
pub proof fn lemma_newline_count_bound(s: Seq<char>)
    ensures
        newline_count(s) <= s.len(),
    decreases s.len(),
{
    if s.len() > 0 {
        lemma_newline_count_bound(s.drop_last());
    }
}

/// The line breaks of two texts put together are those of the one and those
/// of the other.
pub proof fn lemma_newline_count_concat(a: Seq<char>, b: Seq<char>)
    ensures
        newline_count(a + b) == newline_count(a) + newline_count(b),
    decreases b.len(),
{
    if b.len() == 0 {
        assert(a + b =~= a);
    } else {
        lemma_newline_count_concat(a, b.drop_last());
        assert((a + b).drop_last() =~= a + b.drop_last());
    }
}

/// Taking one more character adds one to the count exactly when that
/// character is a line break.
pub proof fn lemma_newline_count_step(s: Seq<char>, o: int)
    requires
        0 <= o < s.len(),
    ensures
        newline_count(s.take(o + 1)) == newline_count(s.take(o)) + if s[o] == '\n' {
            1nat
        } else {
            0nat
        },
{
    assert(s.take(o + 1).drop_last() =~= s.take(o));
}

/// A longer prefix holds at least as many line breaks.
pub proof fn lemma_line_of_offset_monotonic(s: Seq<char>, a: int, b: int)
    requires
        0 <= a <= b <= s.len(),
    ensures
        line_of_offset(s, a) <= line_of_offset(s, b),
    decreases b - a,
{
    if a < b {
        lemma_line_of_offset_monotonic(s, a, b - 1);
        lemma_newline_count_step(s, b - 1);
    }
}

/// Every offset lies on one of the lines of `s`.
pub proof fn lemma_line_of_offset_bounds(s: Seq<char>, o: int)
    requires
        0 <= o <= s.len(),
    ensures
        0 <= line_of_offset(s, o) <= newline_count(s),
        line_of_offset(s, 0) == 0,
        line_of_offset(s, s.len() as int) == newline_count(s),
{
    lemma_line_of_offset_monotonic(s, o, s.len() as int);
    assert(s.take(s.len() as int) =~= s);
    assert(s.take(0).len() == 0);
}

/// An offset past a line break lies on a later line than the break does.
pub proof fn lemma_line_break_separates(s: Seq<char>, a: int, b: int)
    requires
        0 <= a < b <= s.len(),
        s[b - 1] == '\n',
    ensures
        line_of_offset(s, a) < line_of_offset(s, b),
{
    lemma_line_of_offset_monotonic(s, a, b - 1);
    lemma_newline_count_step(s, b - 1);
}

/// Each line of `s` has a start.
proof fn lemma_line_start_exists(s: Seq<char>, line: int)
    requires
        0 <= line <= newline_count(s),
    ensures
        exists|o: int| is_line_start(s, o) && line_of_offset(s, o) == line,
    decreases s.len(),
{
    if line == 0 {
        assert(s.take(0).len() == 0);
        assert(is_line_start(s, 0) && line_of_offset(s, 0) == 0);
    } else if line <= newline_count(s.drop_last()) {
        let t = s.drop_last();
        lemma_line_start_exists(t, line);
        let o = choose|o: int| is_line_start(t, o) && line_of_offset(t, o) == line;
        assert(t.take(o) =~= s.take(o));
        assert(is_line_start(s, o) && line_of_offset(s, o) == line);
    } else {
        let n = s.len() as int;
        assert(s.take(n) =~= s);
        assert(is_line_start(s, n) && line_of_offset(s, n) == line);
    }
}

/// `line_start` names the one offset that begins the line.
pub proof fn lemma_line_start(s: Seq<char>, line: int)
    requires
        0 <= line <= newline_count(s),
    ensures
        is_line_start(s, line_start(s, line)),
        line_of_offset(s, line_start(s, line)) == line,
        forall|o: int|
            is_line_start(s, o) && line_of_offset(s, o) == line ==> o == line_start(s, line),
{
    lemma_line_start_exists(s, line);
    let p = line_start(s, line);
    assert forall|o: int| is_line_start(s, o) && line_of_offset(s, o) == line implies o == p by {
        if o < p {
            lemma_line_break_separates(s, o, p);
        } else if p < o {
            lemma_line_break_separates(s, p, o);
        }
    }
}

/// Every line index, in range or not, is given a start inside the text.
pub proof fn lemma_line_start_bounds(s: Seq<char>, line: int)
    ensures
        0 <= line_start(s, line) <= s.len(),
{
    if 0 <= line <= newline_count(s) {
        lemma_line_start(s, line);
    }
}

/// The first line begins at offset 0.
pub proof fn lemma_line_start_zero(s: Seq<char>)
    ensures
        line_start(s, 0) == 0,
{
    lemma_line_start(s, 0);
    assert(s.take(0).len() == 0);
    assert(is_line_start(s, 0) && line_of_offset(s, 0) == 0);
}

/// The line an offset lies on begins at or before the offset, and no line
/// break stands between the two.
pub proof fn lemma_line_start_of_offset(s: Seq<char>, o: int)
    requires
        0 <= o <= s.len(),
    ensures
        0 <= line_start(s, line_of_offset(s, o)) <= o,
        forall|i: int| line_start(s, line_of_offset(s, o)) <= i < o ==> s[i] != '\n',
{
    let line = line_of_offset(s, o);
    lemma_line_of_offset_bounds(s, o);
    lemma_line_start(s, line);
    let p = line_start(s, line);
    if o < p {
        lemma_line_break_separates(s, o, p);
    }
    assert forall|i: int| p <= i < o implies s[i] != '\n' by {
        if s[i] == '\n' {
            lemma_line_break_separates(s, p, i + 1);
            lemma_line_of_offset_monotonic(s, i + 1, o);
        }
    }
}

/// An offset reached from a line's start without crossing a line break lies
/// on that line.
pub proof fn lemma_offset_on_line(s: Seq<char>, line: int, o: int)
    requires
        0 <= line <= newline_count(s),
        line_start(s, line) <= o <= s.len(),
        forall|i: int| line_start(s, line) <= i < o ==> s[i] != '\n',
    ensures
        line_of_offset(s, o) == line,
    decreases o - line_start(s, line),
{
    lemma_line_start(s, line);
    if line_start(s, line) < o {
        lemma_offset_on_line(s, line, o - 1);
        lemma_newline_count_step(s, o - 1);
    }
}

/// A line that is not the last ends in a line break, which is the only one
/// on it; the next line begins right after.
pub proof fn lemma_inner_line(s: Seq<char>, line: int)
    requires
        0 <= line < newline_count(s),
    ensures
        line_start(s, line) < line_start(s, line + 1) <= s.len(),
        s[line_start(s, line + 1) - 1] == '\n',
        forall|i: int| line_start(s, line) <= i < line_start(s, line + 1) - 1 ==> s[i] != '\n',
        line_len(s, line) >= 1,
        0 <= max_column(s, line) == line_len(s, line) - 1,
{
    lemma_line_start(s, line);
    lemma_line_start(s, line + 1);
    let p = line_start(s, line);
    let q = line_start(s, line + 1);
    assert(s.take(0).len() == 0);
    if q <= p {
        lemma_line_of_offset_monotonic(s, q, p);
    }
    assert forall|i: int| p <= i < q - 1 implies s[i] != '\n' by {
        if s[i] == '\n' {
            lemma_line_break_separates(s, p, i + 1);
            lemma_line_break_separates(s, i + 1, q);
        }
    }
}

/// The last line runs to the end of the text and holds no line break.
pub proof fn lemma_last_line(s: Seq<char>)
    ensures
        0 <= line_start(s, newline_count(s) as int) <= s.len(),
        line_start(s, newline_count(s) as int + 1) == s.len(),
        forall|i: int| line_start(s, newline_count(s) as int) <= i < s.len() ==> s[i] != '\n',
        0 <= max_column(s, newline_count(s) as int) == line_len(s, newline_count(s) as int),
{
    let last = newline_count(s) as int;
    lemma_line_start(s, last);
    let p = line_start(s, last);
    assert forall|i: int| p <= i < s.len() implies s[i] != '\n' by {
        if s[i] == '\n' {
            lemma_line_break_separates(s, p, i + 1);
            lemma_line_of_offset_bounds(s, i + 1);
        }
    }
}

/// Every line begins inside the text and ends where the next begins, and has
/// a column range that is not empty.
pub proof fn lemma_line_bounds(s: Seq<char>, line: int)
    requires
        0 <= line < line_count(s),
    ensures
        0 <= line_start(s, line) <= line_start(s, line + 1) <= s.len(),
        0 <= max_column(s, line) <= line_len(s, line),
        line_start(s, line) + max_column(s, line) <= s.len(),
{
    lemma_line_start_bounds(s, line);
    if line < newline_count(s) {
        lemma_inner_line(s, line);
    } else {
        lemma_last_line(s);
    }
}

/// A column within a line's range addresses an offset on that line.
pub proof fn lemma_column_on_line(s: Seq<char>, line: int, column: int)
    requires
        0 <= line < line_count(s),
        0 <= column <= max_column(s, line),
    ensures
        0 <= line_start(s, line) + column <= s.len(),
        line_of_offset(s, line_start(s, line) + column) == line,
{
    lemma_line_start(s, line);
    if line < newline_count(s) {
        lemma_inner_line(s, line);
    } else {
        lemma_last_line(s);
    }
    lemma_offset_on_line(s, line, line_start(s, line) + column);
}

/// Where a line begins depends only on the text up to that point.
pub proof fn lemma_line_start_of_prefix(s: Seq<char>, t: Seq<char>, o: int)
    requires
        0 <= o <= s.len(),
        o <= t.len(),
        s.take(o) == t.take(o),
    ensures
        line_of_offset(s, o) == line_of_offset(t, o),
        line_start(s, line_of_offset(s, o)) == line_start(t, line_of_offset(t, o)),
{
    let line = line_of_offset(s, o);
    lemma_line_of_offset_bounds(s, o);
    lemma_line_of_offset_bounds(t, o);
    lemma_line_start_of_offset(s, o);
    lemma_line_start(s, line);
    lemma_line_start(t, line);
    let p = line_start(s, line);
    assert(s.take(o).take(p) =~= s.take(p));
    assert(t.take(o).take(p) =~= t.take(p));
    if p > 0 {
        assert(s[p - 1] == s.take(o)[p - 1]);
        assert(t[p - 1] == t.take(o)[p - 1]);
    }
    assert(is_line_start(t, p) && line_of_offset(t, p) == line);
}

} // verus!
