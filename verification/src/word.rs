//! Word motion: how far the cursor travels to reach the next word boundary.
//!
//! The rule is a small state machine, [`WordScan`], that is fed one
//! classified character at a time. [`next_word`] feeds it from a
//! [`CharScanner`], which walks a rope forward or backward, so the same rule
//! serves both directions.

use vstd::prelude::*;
use crate::buffer::{
    chars_ahead,
    chars_behind,
    chars_next,
    chars_prev,
    rope_chars,
    rope_chars_at,
};
use crate::char_class::alphanumeric;

verus! {

/// `x` held to the range from `min` to `max`.
pub open spec fn clamp_int(x: int, min: int, max: int) -> int {
    if x < min {
        min
    } else if x > max {
        max
    } else {
        x
    }
}

/// Holds `x` to the range from `min` to `max`. Where the range is empty the
/// lower bound wins.
pub fn clamp(x: i64, min: i64, max: i64) -> (r: i64)
    ensures
        r == clamp_int(x as int, min as int, max as int),
{
    if x < min {
        min
    } else if x > max {
        max
    } else {
        x
    }
}

/// What the scan asks of a character: whether it belongs to a word, and
/// whether it is a line break.
#[derive(Clone, Copy, Debug, PartialEq, Eq, Structural)]
pub struct CharClass {
    pub alphanumeric: bool,
    pub line_break: bool,
}

/// The class of `c`.
pub open spec fn class_of(c: char) -> CharClass {
    CharClass { alphanumeric: alphanumeric(c), line_break: c == '\n' }
}

/// The classes of the characters of `s`, one for one.
pub open spec fn classes_of(s: Seq<char>) -> Seq<CharClass> {
    Seq::new(s.len(), |i: int| class_of(s[i]))
}

/// Classifies a character.
pub fn classify(c: char) -> (class: CharClass)
    ensures
        class == class_of(c),
{
    CharClass { alphanumeric: c.is_alphanumeric(), line_break: c == '\n' }
}

/// The length of the run of word characters that `s` begins with.
pub open spec fn word_run(s: Seq<CharClass>) -> nat
    decreases s.len(),
{
    if s.len() > 0 && s[0].alphanumeric {
        1 + word_run(s.drop_first())
    } else {
        0
    }
}

/// The number of characters consumed when the scan began on a boundary
/// character and the characters before index `i` were all boundary
/// characters: the scan stops in front of a line break, runs through the next
/// word if it meets one, and otherwise stops where the text ends.
pub open spec fn boundary_span(s: Seq<CharClass>, i: int) -> int
    decreases s.len() - i,
{
    if i >= s.len() {
        i
    } else if s[i].line_break {
        i
    } else if s[i].alphanumeric {
        i + 1 + word_run(s.skip(i + 1))
    } else {
        boundary_span(s, i + 1)
    }
}

/// The number of characters the scan consumes when the characters ahead, in
/// scan order, have the classes `s`. From inside a word it is the rest of the
/// word; from a boundary character it is the boundary run and the word after
/// it, unless a line break or the end of the text ends the run first. With
/// nothing ahead it is 0.
pub open spec fn class_span(s: Seq<CharClass>) -> int {
    if s.len() == 0 {
        0
    } else if s[0].alphanumeric {
        1 + word_run(s.skip(1)) as int
    } else {
        boundary_span(s, 1)
    }
}

/// The distance to the next word boundary when the characters ahead, in scan
/// order, are `s`.
pub open spec fn word_span(s: Seq<char>) -> int {
    class_span(classes_of(s))
}

/// A run of word characters is no longer than the text it is found in.
pub proof fn lemma_word_run_bound(s: Seq<CharClass>)
    ensures
        word_run(s) <= s.len(),
    decreases s.len(),
{
    if s.len() > 0 && s[0].alphanumeric {
        lemma_word_run_bound(s.drop_first());
    }
}

/// Every character of the run that `word_run` measures is a word character.
pub proof fn lemma_word_run_members(s: Seq<CharClass>, i: int)
    requires
        0 <= i < word_run(s),
    ensures
        i < s.len(),
        s[i].alphanumeric,
    decreases s.len(),
{
    if i > 0 {
        lemma_word_run_members(s.drop_first(), i - 1);
    }
}

/// A boundary scan stays inside the text.
pub proof fn lemma_boundary_span_bound(s: Seq<CharClass>, i: int)
    requires
        0 <= i <= s.len(),
    ensures
        i <= boundary_span(s, i) <= s.len(),
    decreases s.len() - i,
{
    if i < s.len() {
        if !s[i].line_break {
            if s[i].alphanumeric {
                lemma_word_run_bound(s.skip(i + 1));
            } else {
                lemma_boundary_span_bound(s, i + 1);
            }
        }
    }
}

/// The scan consumes no more than there is, and at least one character
/// where there is one.
pub proof fn lemma_class_span_bound(s: Seq<CharClass>)
    ensures
        0 <= class_span(s) <= s.len(),
        s.len() > 0 ==> class_span(s) >= 1,
{
    if s.len() > 0 {
        if s[0].alphanumeric {
            lemma_word_run_bound(s.skip(1));
        } else {
            lemma_boundary_span_bound(s, 1);
        }
    }
}

/// Word motion travels no further than the text goes, and at least one
/// character where there is one.
pub proof fn lemma_word_span_bound(s: Seq<char>)
    ensures
        0 <= word_span(s) <= s.len(),
        s.len() > 0 ==> word_span(s) >= 1,
{
    lemma_class_span_bound(classes_of(s));
}

/// A boundary scan passes no line break: every character between its start
/// and the place it stops is either part of the word it ran through or a
/// boundary character that is no line break.
pub proof fn lemma_boundary_passes_no_line_break(s: Seq<CharClass>, from: int, i: int)
    requires
        0 <= from <= i < boundary_span(s, from),
        i < s.len(),
    ensures
        s[i].alphanumeric || !s[i].line_break,
    decreases s.len() - from,
{
    if s[from].alphanumeric {
        if i > from {
            lemma_word_run_members(s.skip(from + 1), i - from - 1);
        }
    } else if i > from {
        lemma_boundary_passes_no_line_break(s, from + 1, i);
    }
}

/// Word motion never skips a line break while it looks for the next word:
/// behind the character it starts on, all it passes is the word it runs
/// through and boundary characters that are no line breaks.
pub proof fn lemma_word_motion_stops_at_line_break(s: Seq<char>, i: int)
    requires
        1 <= i < word_span(s),
    ensures
        i < s.len(),
        alphanumeric(s[i]) || s[i] != '\n',
{
    let classes = classes_of(s);
    lemma_class_span_bound(classes);
    if classes[0].alphanumeric {
        lemma_word_run_members(classes.skip(1), i - 1);
    } else {
        lemma_boundary_passes_no_line_break(classes, 1, i);
    }
}

/// Where the scan stands.
#[derive(Clone, Copy, Debug, PartialEq, Eq, Structural)]
pub enum ScanPhase {
    /// Nothing has been read yet.
    Start,
    /// Only boundary characters have been read.
    Boundary,
    /// The scan is inside the word it will stop behind.
    Word,
    /// The scan has stopped.
    Done,
}

/// The scan for the next word boundary: its phase and the number of
/// characters consumed so far.
#[derive(Clone, Copy, Debug, PartialEq, Eq, Structural)]
pub struct WordScan {
    pub phase: ScanPhase,
    pub count: i64,
}

impl WordScan {
    /// The scan stopped, with the count it has.
    pub open spec fn stopped(self) -> WordScan {
        WordScan { phase: ScanPhase::Done, count: self.count }
    }

    /// The scan one character on, in `phase`.
    pub open spec fn consumed(self, phase: ScanPhase) -> WordScan {
        WordScan { phase, count: (self.count + 1) as i64 }
    }

    /// The scan after it has been shown the next character's class, or
    /// `None` where the text has ended.
    ///
    /// The first character starts the word if it is a word character, and is
    /// a boundary character otherwise, line break or not. Among the boundary
    /// characters that follow, a line break stops the scan and is not
    /// consumed, and a word character starts the word. The word runs as far
    /// as word characters follow. The end of the text stops the scan in
    /// every phase.
    pub open spec fn after(self, class: Option<CharClass>) -> WordScan {
        match self.phase {
            ScanPhase::Done => self,
            ScanPhase::Start => match class {
                None => self.stopped(),
                Some(c) => if c.alphanumeric {
                    self.consumed(ScanPhase::Word)
                } else {
                    self.consumed(ScanPhase::Boundary)
                },
            },
            ScanPhase::Boundary => match class {
                None => self.stopped(),
                Some(c) => if c.line_break {
                    self.stopped()
                } else if c.alphanumeric {
                    self.consumed(ScanPhase::Word)
                } else {
                    self.consumed(ScanPhase::Boundary)
                },
            },
            ScanPhase::Word => match class {
                None => self.stopped(),
                Some(c) => if c.alphanumeric {
                    self.consumed(ScanPhase::Word)
                } else {
                    self.stopped()
                },
            },
        }
    }

    /// The scan after it has been shown the classes `s` one by one, and then
    /// the end of the text.
    pub open spec fn after_all(self, s: Seq<CharClass>) -> WordScan
        decreases s.len(),
    {
        if s.len() == 0 {
            self.after(None)
        } else {
            self.after(Some(s[0])).after_all(s.drop_first())
        }
    }

    /// A scan that has read nothing.
    pub fn new() -> (scan: WordScan)
        ensures
            scan == (WordScan { phase: ScanPhase::Start, count: 0 }),
    {
        WordScan { phase: ScanPhase::Start, count: 0 }
    }

    /// Shows the scan the class of the next character, or `None` where the
    /// text has ended.
    pub fn step(&mut self, class: Option<CharClass>)
        requires
            old(self).count < i64::MAX,
        ensures
            *final(self) == old(self).after(class),
    {
        match self.phase {
            ScanPhase::Done => {},
            ScanPhase::Start => match class {
                None => {
                    self.phase = ScanPhase::Done;
                },
                Some(c) => {
                    self.count += 1;
                    if c.alphanumeric {
                        self.phase = ScanPhase::Word;
                    } else {
                        self.phase = ScanPhase::Boundary;
                    }
                },
            },
            ScanPhase::Boundary => match class {
                None => {
                    self.phase = ScanPhase::Done;
                },
                Some(c) => {
                    if c.line_break {
                        self.phase = ScanPhase::Done;
                    } else {
                        self.count += 1;
                        if c.alphanumeric {
                            self.phase = ScanPhase::Word;
                        }
                    }
                },
            },
            ScanPhase::Word => match class {
                None => {
                    self.phase = ScanPhase::Done;
                },
                Some(c) => {
                    if c.alphanumeric {
                        self.count += 1;
                    } else {
                        self.phase = ScanPhase::Done;
                    }
                },
            },
        }
    }
}

/// A scan that has consumed `k` characters of `s` and not stopped is on its
/// way to `class_span(s)`.
pub open spec fn on_course(scan: WordScan, s: Seq<CharClass>, k: int) -> bool {
    &&& 0 <= k <= s.len()
    &&& scan.count == k
    &&& match scan.phase {
        ScanPhase::Start => k == 0,
        ScanPhase::Boundary => k >= 1 && class_span(s) == boundary_span(s, k),
        ScanPhase::Word => k >= 1 && class_span(s) == k + word_run(s.skip(k)),
        ScanPhase::Done => false,
    }
}

/// One step keeps the scan on course, or stops it at `class_span(s)`.
pub proof fn lemma_step_on_course(scan: WordScan, s: Seq<CharClass>, k: int)
    requires
        on_course(scan, s, k),
        s.len() < i64::MAX,
    ensures
        k < s.len() ==> on_course(scan.after(Some(s[k])), s, k + 1) || scan.after(Some(s[k]))
            == (WordScan { phase: ScanPhase::Done, count: class_span(s) as i64 }),
        k == s.len() ==> scan.after(None) == (WordScan {
            phase: ScanPhase::Done,
            count: class_span(s) as i64,
        }),
{
    lemma_class_span_bound(s);
    if k < s.len() {
        assert(s.skip(k).drop_first() =~= s.skip(k + 1));
        assert(s.skip(k)[0] == s[k]);
    } else {
        assert(s.skip(k).len() == 0);
    }
}

/// Shown a whole text and then its end, a fresh scan stops with the count
/// `class_span` of that text.
pub proof fn lemma_scan_counts_span(s: Seq<CharClass>)
    requires
        s.len() < i64::MAX,
    ensures
        (WordScan { phase: ScanPhase::Start, count: 0 }).after_all(s) == (WordScan {
            phase: ScanPhase::Done,
            count: class_span(s) as i64,
        }),
{
    lemma_scan_from(WordScan { phase: ScanPhase::Start, count: 0 }, s, 0);
    assert(s.skip(0) =~= s);
}

/// A scan on course, or one that has stopped at `class_span(s)`, stops at
/// `class_span(s)` when it is shown the rest of `s` and then its end.
proof fn lemma_scan_from(scan: WordScan, s: Seq<CharClass>, k: int)
    requires
        s.len() < i64::MAX,
        0 <= k <= s.len(),
        on_course(scan, s, k) || scan == (WordScan {
            phase: ScanPhase::Done,
            count: class_span(s) as i64,
        }),
    ensures
        scan.after_all(s.skip(k)) == (WordScan {
            phase: ScanPhase::Done,
            count: class_span(s) as i64,
        }),
    decreases s.len() - k,
{
    let rest = s.skip(k);
    if scan.phase != ScanPhase::Done {
        lemma_step_on_course(scan, s, k);
    }
    if k < s.len() {
        assert(rest[0] == s[k]);
        assert(rest.drop_first() =~= s.skip(k + 1));
        lemma_scan_from(scan.after(Some(s[k])), s, k + 1);
    }
}

/// A cursor in a rope that hands out one character per call, towards the end
/// of the text or towards its start.
pub struct CharScanner<'a> {
    iter: ropey::iter::Chars<'a>,
    forward: bool,
}

impl<'a> CharScanner<'a> {
    /// The characters still to come, in the order the scanner hands them out.
    pub closed spec fn remaining(&self) -> Seq<char> {
        if self.forward {
            chars_ahead(self.iter)
        } else {
            chars_behind(self.iter)
        }
    }

    /// A scanner that starts between the characters `pos - 1` and `pos` of
    /// `text` and reads forward or backward from there.
    pub fn new(text: &'a ropey::Rope, pos: usize, forward: bool) -> (scanner: CharScanner<'a>)
        requires
            pos <= rope_chars(*text).len(),
        ensures
            forward ==> scanner.remaining() == rope_chars(*text).skip(pos as int),
            !forward ==> scanner.remaining() == rope_chars(*text).take(pos as int).reverse(),
    {
        CharScanner { iter: rope_chars_at(text, pos), forward }
    }

    /// Hands out the next character and steps over it, or `None` where no
    /// character is left in the scan direction.
    pub fn next(&mut self) -> (c: Option<char>)
        ensures
            old(self).remaining().len() == 0 ==> c is None
                && final(self).remaining() == old(self).remaining(),
            old(self).remaining().len() > 0 ==> c == Some(old(self).remaining()[0])
                && final(self).remaining() == old(self).remaining().drop_first(),
    {
        if self.forward {
            chars_next(&mut self.iter)
        } else {
            chars_prev(&mut self.iter)
        }
    }
}

/// The distance to the next word boundary in the direction of `iter`: the
/// number of characters the scan consumes.
///
/// Reads one character. If it is alphanumeric the scan is inside a word and
/// counts to the word's end. Otherwise it counts boundary characters until a
/// line break, which it stops in front of, or until a word, which it counts
/// as well. Where the text ends first, it counts what there was.
pub fn next_word(iter: &mut CharScanner) -> (count: i64)
    requires
        old(iter).remaining().len() < i64::MAX,
    ensures
        count == word_span(old(iter).remaining()),
{
    let ghost s = iter.remaining();
    let ghost classes = classes_of(s);
    let ghost k: int = 0;
    let mut scan = WordScan::new();
    while scan.phase != ScanPhase::Done
        invariant
            s == old(iter).remaining(),
            classes == classes_of(s),
            s.len() < i64::MAX,
            0 <= k <= s.len(),
            scan.phase != ScanPhase::Done ==> on_course(scan, classes, k) && iter.remaining()
                == s.skip(k),
            scan.phase == ScanPhase::Done ==> scan.count == class_span(classes),
        decreases
                s.len() - k + if scan.phase == ScanPhase::Done {
                    0int
                } else {
                    1int
                },
    {
        proof {
            lemma_step_on_course(scan, classes, k);
            lemma_class_span_bound(classes);
        }
        let class = match iter.next() {
            Some(c) => {
                assert(c == s[k]);
                Some(classify(c))
            },
            None => None,
        };
        scan.step(class);
        proof {
            if k < s.len() {
                assert(s.skip(k).drop_first() =~= s.skip(k + 1));
                k = k + 1;
            }
        }
    }
    scan.count
}

} // verus!
