//! The text buffer: a `ropey::Rope`, seen as the sequence of its characters.
//!
//! Nothing in this module is proved. Each function states, over
//! [`rope_chars`] and the line functions of [`crate::lines`], what the rope
//! method that it calls is documented to do; the rest of the library is
//! verified against these statements. The rope is built without the
//! `cr_lines` and `unicode_lines` features, so the only line break it knows is
//! `'\n'`.
//!
//! The rope's character cursor, `ropey::iter::Chars`, is described in the
//! same way by what lies ahead of it and what lies behind it.

use vstd::prelude::*;
use vstd::utf8::{decode_utf8, valid_utf8};
use crate::lines::{line_count, line_of_offset, line_start};

verus! {

/// `ropey::Rope`, opaque to the verifier.
#[verifier::external_type_specification]
#[verifier::external_body]
pub struct ExRope(ropey::Rope);

/// The characters a rope holds, in order.
pub uninterp spec fn rope_chars(rope: ropey::Rope) -> Seq<char>;

/// `Rope::from_reader` on a byte slice. Reading from a slice cannot fail, so
/// the only error left is the one for bytes that are not UTF-8: the result is
/// a rope exactly when `bytes` is valid UTF-8, and it then holds the decoded
/// characters.
#[verifier::external_body]
pub(crate) fn rope_from_utf8(bytes: &[u8]) -> (rope: Option<ropey::Rope>)
    ensures
        rope is Some <==> valid_utf8(bytes@),
        rope is Some ==> rope_chars(rope->0) == decode_utf8(bytes@),
{
    ropey::Rope::from_reader(bytes).ok()
}

/// `Rope::clone`: a rope with the same characters.
pub assume_specification[ <ropey::Rope as Clone>::clone ](rope: &ropey::Rope) -> (copy:
    ropey::Rope)
    ensures
        rope_chars(copy) == rope_chars(*rope),
;

/// `Rope::len_chars`: the number of characters.
#[verifier::external_body]
pub(crate) fn rope_len_chars(rope: &ropey::Rope) -> (n: usize)
    ensures
        n == rope_chars(*rope).len(),
{
    rope.len_chars()
}

/// `Rope::len_lines`: the number of line breaks plus one.
#[verifier::external_body]
pub(crate) fn rope_len_lines(rope: &ropey::Rope) -> (n: usize)
    ensures
        n == line_count(rope_chars(*rope)),
{
    rope.len_lines()
}

/// `Rope::line_to_char`: the offset at which a line begins. The line index
/// may be one past the last line, which gives the length of the text; beyond
/// that the method panics.
#[verifier::external_body]
pub(crate) fn rope_line_to_char(rope: &ropey::Rope, line: usize) -> (offset: usize)
    requires
        line <= line_count(rope_chars(*rope)),
    ensures
        offset == line_start(rope_chars(*rope), line as int),
{
    rope.line_to_char(line)
}

/// `Rope::char_to_line`: the number of line breaks before an offset. The
/// offset may be the length of the text; beyond that the method panics.
#[verifier::external_body]
pub(crate) fn rope_char_to_line(rope: &ropey::Rope, offset: usize) -> (line: usize)
    requires
        offset <= rope_chars(*rope).len(),
    ensures
        line == line_of_offset(rope_chars(*rope), offset as int),
{
    rope.char_to_line(offset)
}

/// `Rope::char`: the character at an offset, which must be inside the text.
#[verifier::external_body]
pub(crate) fn rope_char(rope: &ropey::Rope, offset: usize) -> (c: char)
    requires
        offset < rope_chars(*rope).len(),
    ensures
        c == rope_chars(*rope)[offset as int],
{
    rope.char(offset)
}

/// `Rope::insert`: puts `text` in front of the character at `offset`, or at
/// the end where `offset` is the length. A larger offset panics.
#[verifier::external_body]
pub(crate) fn rope_insert(rope: &mut ropey::Rope, offset: usize, text: &str)
    requires
        offset <= rope_chars(*old(rope)).len(),
    ensures
        rope_chars(*final(rope)) == rope_chars(*old(rope)).take(offset as int) + text@
            + rope_chars(*old(rope)).skip(offset as int),
{
    rope.insert(offset, text)
}

/// `Rope::remove` on the range `start..end`: takes those characters out. The
/// method panics where the range is reversed or runs past the end.
#[verifier::external_body]
pub(crate) fn rope_remove(rope: &mut ropey::Rope, start: usize, end: usize)
    requires
        start <= end <= rope_chars(*old(rope)).len(),
    ensures
        rope_chars(*final(rope)) == rope_chars(*old(rope)).take(start as int) + rope_chars(
            *old(rope),
        ).skip(end as int),
{
    rope.remove(start..end)
}

/// `Rope::slice` on the range `start..end`, turned into a `String`: the
/// characters of that range. The method panics where the range is reversed or
/// runs past the end.
#[verifier::external_body]
pub(crate) fn rope_substring(rope: &ropey::Rope, start: usize, end: usize) -> (text: String)
    requires
        start <= end <= rope_chars(*rope).len(),
    ensures
        text@ == rope_chars(*rope).subrange(start as int, end as int),
{
    String::from(rope.slice(start..end))
}

/// `ropey::iter::Chars`, opaque to the verifier: a cursor that stands between
/// two characters of a rope and hands out the one it steps over.
#[verifier::external_type_specification]
#[verifier::external_body]
pub struct ExChars<'a>(ropey::iter::Chars<'a>);

/// The characters that calls of `next` would hand out, in that order.
pub uninterp spec fn chars_ahead(iter: ropey::iter::Chars) -> Seq<char>;

/// The characters that calls of `prev` would hand out, in that order.
pub uninterp spec fn chars_behind(iter: ropey::iter::Chars) -> Seq<char>;

/// `Rope::chars_at`: a cursor in front of the character at `offset`, with
/// the whole text within reach in both directions. The offset may be the
/// length of the text; beyond that the method panics.
#[verifier::external_body]
pub(crate) fn rope_chars_at<'a>(rope: &'a ropey::Rope, offset: usize) -> (iter: ropey::iter::Chars<
    'a,
>)
    requires
        offset <= rope_chars(*rope).len(),
    ensures
        chars_ahead(iter) == rope_chars(*rope).skip(offset as int),
        chars_behind(iter) == rope_chars(*rope).take(offset as int).reverse(),
{
    rope.chars_at(offset)
}

/// `Chars::next`: steps over the character ahead and hands it out; it is then
/// the first one behind. `None`, and no step, where nothing is ahead.
#[verifier::external_body]
pub(crate) fn chars_next(iter: &mut ropey::iter::Chars) -> (c: Option<char>)
    ensures
        chars_ahead(*old(iter)).len() == 0 ==> c is None && chars_ahead(*final(iter))
            == chars_ahead(*old(iter)) && chars_behind(*final(iter)) == chars_behind(*old(iter)),
        chars_ahead(*old(iter)).len() > 0 ==> c == Some(chars_ahead(*old(iter))[0])
            && chars_ahead(*final(iter)) == chars_ahead(*old(iter)).drop_first()
            && chars_behind(*final(iter)) == seq![chars_ahead(*old(iter))[0]] + chars_behind(
            *old(iter),
        ),
{
    iter.next()
}

/// `Chars::prev`: steps back over the character behind and hands it out; it
/// is then the first one ahead. `None`, and no step, where nothing is behind.
#[verifier::external_body]
pub(crate) fn chars_prev(iter: &mut ropey::iter::Chars) -> (c: Option<char>)
    ensures
        chars_behind(*old(iter)).len() == 0 ==> c is None && chars_ahead(*final(iter))
            == chars_ahead(*old(iter)) && chars_behind(*final(iter)) == chars_behind(*old(iter)),
        chars_behind(*old(iter)).len() > 0 ==> c == Some(chars_behind(*old(iter))[0])
            && chars_behind(*final(iter)) == chars_behind(*old(iter)).drop_first()
            && chars_ahead(*final(iter)) == seq![chars_behind(*old(iter))[0]] + chars_ahead(
            *old(iter),
        ),
{
    iter.prev()
}

} // verus!
