use ropey::Rope;
use text_engine::char_bytes::CharBytesIterator;
use text_engine::crlf::{remove_cr, remove_crlf_from_buff, RemoveCrlf};
use text_engine::cursor::{Cursor, Point};
use text_engine::lines::text_len_fits;
use text_engine::text::{DeleteDirection, LoadError, Selection, Text, UndoPoint};
use text_engine::word::{
    clamp, classify, next_word, CharClass, CharScanner, ScanPhase, WordScan,
};

fn text_of(initial_text: &str) -> Text {
    Text::new(initial_text.as_bytes().to_vec()).unwrap()
}

fn position(text: &mut Text) -> (i64, i64) {
    let p = text.get_cursor().position;
    (p.x, p.y)
}

// Position mapping

#[test]
fn offsets_and_points_round_trip() {
    let samples = ["", "a", "\n", "ab\ncd", "ab\n\ncd\n", "\n\n\n", "x\ny\nzzz"];
    for sample in samples {
        let rope = Rope::from_str(sample);
        for offset in 0..=rope.len_chars() {
            let point = Point::from_char(offset, &rope);
            assert_eq!(point.to_char(&rope), offset, "offset {} of {:?}", offset, sample);
        }
    }
}

#[test]
fn from_char_gives_row_and_column() {
    let rope = Rope::from_str("ab\ncde\n\nf");
    assert_eq!(Point::from_char(0, &rope), Point { x: 0, y: 0 });
    assert_eq!(Point::from_char(2, &rope), Point { x: 2, y: 0 });
    assert_eq!(Point::from_char(3, &rope), Point { x: 0, y: 1 });
    assert_eq!(Point::from_char(6, &rope), Point { x: 3, y: 1 });
    assert_eq!(Point::from_char(7, &rope), Point { x: 0, y: 2 });
    assert_eq!(Point::from_char(8, &rope), Point { x: 0, y: 3 });
    assert_eq!(Point::from_char(9, &rope), Point { x: 1, y: 3 });
}

#[test]
fn to_char_is_line_start_plus_column() {
    let rope = Rope::from_str("ab\ncde\n\nf");
    assert_eq!(Point { x: 0, y: 0 }.to_char(&rope), 0);
    assert_eq!(Point { x: 1, y: 1 }.to_char(&rope), 4);
    assert_eq!(Point { x: 0, y: 2 }.to_char(&rope), 7);
    assert_eq!(Point { x: 1, y: 3 }.to_char(&rope), 9);
    // One past the last line begins at the end of the text.
    assert_eq!(Point { x: 0, y: 4 }.to_char(&rope), 9);
}

#[test]
fn trailing_line_break_opens_an_empty_last_line() {
    let rope = Rope::from_str("ab\n");
    assert_eq!(Point::from_char(3, &rope), Point { x: 0, y: 1 });
    let mut text = text_of("ab\n");
    text.move_cursor_y(5, Selection::NotSelect);
    assert_eq!(position(&mut text), (0, 1));
    assert_eq!(text.get_current_line(), "");
}

#[test]
fn only_line_feed_breaks_a_line() {
    let rope = Rope::from_str("a\u{0b}b\u{2028}c\u{85}d\rq\ne");
    assert_eq!(Point::from_char(9, &rope), Point { x: 9, y: 0 });
    assert_eq!(Point::from_char(10, &rope), Point { x: 0, y: 1 });
}

#[test]
fn cursor_new_is_the_origin() {
    let cursor = Cursor::new();
    assert_eq!(cursor.position, Point { x: 0, y: 0 });
    assert_eq!(cursor.remembered_x, 0);
    assert!(cursor.selection.is_none());
}

// Clamping

#[test]
fn clamp_holds_to_the_range() {
    assert_eq!(clamp(5, 0, 10), 5);
    assert_eq!(clamp(-1, 0, 10), 0);
    assert_eq!(clamp(11, 0, 10), 10);
    assert_eq!(clamp(0, 0, 0), 0);
    assert_eq!(clamp(i64::MIN, -3, 3), -3);
    assert_eq!(clamp(i64::MAX, -3, 3), 3);
    assert_eq!(clamp(5, 7, 3), 7);
}

#[test]
fn moving_left_from_the_start_stays_at_the_origin() {
    let mut text = text_of("ab\ncd");
    text.move_cursor(-1, Selection::NotSelect);
    assert_eq!(position(&mut text), (0, 0));
    text.move_cursor(i64::MIN, Selection::NotSelect);
    assert_eq!(position(&mut text), (0, 0));
}

#[test]
fn moving_right_from_the_end_stays_at_the_end() {
    let mut text = text_of("ab\ncd");
    text.move_to_end(Selection::NotSelect);
    assert_eq!(position(&mut text), (2, 1));
    text.move_cursor(1, Selection::NotSelect);
    assert_eq!(position(&mut text), (2, 1));
    text.move_cursor(i64::MAX, Selection::NotSelect);
    assert_eq!(position(&mut text), (2, 1));
    assert_eq!(text.get_cursor().remembered_x, 2);
}

#[test]
fn moving_by_lines_saturates() {
    let mut text = text_of("a\nb\nc");
    text.move_cursor_y(i64::MAX, Selection::NotSelect);
    assert_eq!(position(&mut text), (0, 2));
    text.move_cursor_y(i64::MIN, Selection::NotSelect);
    assert_eq!(position(&mut text), (0, 0));
}

#[test]
fn vertical_move_keeps_the_remembered_column() {
    let mut text = text_of("abcdef\nab\nabcdef");
    text.move_cursor(5, Selection::NotSelect);
    assert_eq!(text.get_cursor().remembered_x, 5);
    text.move_cursor_y(1, Selection::NotSelect);
    assert_eq!(position(&mut text), (2, 1));
    assert_eq!(text.get_cursor().remembered_x, 5);
    text.move_cursor_y(1, Selection::NotSelect);
    assert_eq!(position(&mut text), (5, 2));
    text.move_cursor_y(-2, Selection::NotSelect);
    assert_eq!(position(&mut text), (5, 0));
}

#[test]
fn negative_remembered_column_is_held_at_zero() {
    let mut text = text_of("ab\ncd");
    text.get_cursor().remembered_x = -7;
    text.move_cursor_y(1, Selection::NotSelect);
    assert_eq!(position(&mut text), (0, 1));
}

#[test]
fn line_end_is_before_the_break_except_on_the_last_line() {
    let mut text = text_of("abc\nde");
    text.move_to_end_of_line(Selection::NotSelect);
    assert_eq!(position(&mut text), (3, 0));
    assert_eq!(text.get_cursor().remembered_x, 3);
    text.move_cursor_y(1, Selection::NotSelect);
    text.move_to_end_of_line(Selection::NotSelect);
    assert_eq!(position(&mut text), (2, 1));
}

#[test]
fn buffer_start_and_end_leave_the_remembered_column() {
    let mut text = text_of("abc\nde");
    text.move_cursor(2, Selection::NotSelect);
    text.move_to_end(Selection::NotSelect);
    assert_eq!(position(&mut text), (2, 1));
    assert_eq!(text.get_cursor().remembered_x, 2);
    text.move_cursor(1, Selection::NotSelect);
    text.move_cursor(-1, Selection::NotSelect);
    text.move_to_begging(Selection::NotSelect);
    assert_eq!(position(&mut text), (0, 0));
    assert_eq!(text.get_cursor().remembered_x, 1);
}

// Word motion

fn span_forward(sample: &str, from: usize) -> i64 {
    let rope = Rope::from_str(sample);
    let mut scanner = CharScanner::new(&rope, from, true);
    next_word(&mut scanner)
}

fn span_backward(sample: &str, from: usize) -> i64 {
    let rope = Rope::from_str(sample);
    let mut scanner = CharScanner::new(&rope, from, false);
    next_word(&mut scanner)
}

#[test]
fn next_word_counts_to_the_boundary() {
    assert_eq!(span_forward("abc abc abc", 0), 3);
    assert_eq!(span_forward("abc abc abc", 3), 4);
    assert_eq!(span_forward("abc abc abc", 1), 2);
    assert_eq!(span_forward("  abcd abc", 0), 6);
    assert_eq!(span_forward("abc   \nabc\n", 3), 3);
    assert_eq!(span_forward("abc\nabc", 3), 4);
    assert_eq!(span_forward("a,,;b1 c", 1), 5);
}

#[test]
fn next_word_at_the_end_of_the_text() {
    assert_eq!(span_forward("", 0), 0);
    assert_eq!(span_forward("abc", 3), 0);
    assert_eq!(span_forward("abc", 0), 3);
    assert_eq!(span_forward("ab  ", 2), 2);
    assert_eq!(span_forward("ab ", 2), 1);
    assert_eq!(span_forward(" ", 0), 1);
    assert_eq!(span_forward("\n", 0), 1);
    assert_eq!(span_forward(" a", 0), 2);
}

#[test]
fn next_word_reads_backward_too() {
    assert_eq!(span_backward("abc abc abc", 4), 4);
    assert_eq!(span_backward("abc abc abc", 7), 3);
    assert_eq!(span_backward("abc abc abc", 0), 0);
    assert_eq!(span_backward("abc\n  x", 6), 2);
    assert_eq!(span_backward("abc\nabc\n", 4), 4);
    assert_eq!(span_backward("  ", 2), 2);
}

#[test]
fn next_word_leaves_the_scanner_behind_what_it_read() {
    let rope = Rope::from_str("ab cd");
    let mut scanner = CharScanner::new(&rope, 0, true);
    assert_eq!(next_word(&mut scanner), 2);
    // The character that ended the word has been read as well.
    assert_eq!(scanner.next(), Some('c'));
}

const LETTER: CharClass = CharClass { alphanumeric: true, line_break: false };
const SPACE: CharClass = CharClass { alphanumeric: false, line_break: false };
const LINE_BREAK: CharClass = CharClass { alphanumeric: false, line_break: true };

fn scan(classes: &[CharClass]) -> WordScan {
    let mut scan = WordScan::new();
    for class in classes {
        scan.step(Some(*class));
    }
    scan.step(None);
    scan
}

#[test]
fn a_scan_starts_with_nothing_read() {
    let scan = WordScan::new();
    assert_eq!(scan.phase, ScanPhase::Start);
    assert_eq!(scan.count, 0);
}

#[test]
fn a_scan_counts_what_it_consumes() {
    assert_eq!(scan(&[]).count, 0);
    assert_eq!(scan(&[SPACE]).count, 1);
    assert_eq!(scan(&[SPACE, SPACE]).count, 2);
    assert_eq!(scan(&[LETTER]).count, 1);
    assert_eq!(scan(&[LETTER, LETTER, LETTER, SPACE, LETTER]).count, 3);
    assert_eq!(scan(&[SPACE, SPACE, LETTER, LETTER, SPACE, LETTER]).count, 4);
    assert_eq!(scan(&[SPACE, SPACE, LINE_BREAK, LETTER]).count, 2);
    assert_eq!(scan(&[LINE_BREAK, LETTER, LETTER]).count, 3);
    assert_eq!(scan(&[LINE_BREAK, LINE_BREAK, LETTER]).count, 1);
    assert_eq!(scan(&[LETTER, LINE_BREAK, LETTER]).count, 1);
    assert_eq!(scan(&[SPACE, LETTER, LINE_BREAK]).count, 2);
}

#[test]
fn a_scan_moves_through_its_phases() {
    let mut scan = WordScan::new();
    scan.step(Some(SPACE));
    assert_eq!(scan, WordScan { phase: ScanPhase::Boundary, count: 1 });
    scan.step(Some(SPACE));
    assert_eq!(scan, WordScan { phase: ScanPhase::Boundary, count: 2 });
    scan.step(Some(LETTER));
    assert_eq!(scan, WordScan { phase: ScanPhase::Word, count: 3 });
    scan.step(Some(LETTER));
    assert_eq!(scan, WordScan { phase: ScanPhase::Word, count: 4 });
    scan.step(Some(SPACE));
    assert_eq!(scan, WordScan { phase: ScanPhase::Done, count: 4 });
    scan.step(Some(LETTER));
    assert_eq!(scan, WordScan { phase: ScanPhase::Done, count: 4 });
    scan.step(None);
    assert_eq!(scan, WordScan { phase: ScanPhase::Done, count: 4 });

    let mut first = WordScan::new();
    first.step(Some(LETTER));
    assert_eq!(first, WordScan { phase: ScanPhase::Word, count: 1 });
    first.step(None);
    assert_eq!(first, WordScan { phase: ScanPhase::Done, count: 1 });

    let mut stopped = WordScan::new();
    stopped.step(Some(SPACE));
    stopped.step(Some(LINE_BREAK));
    assert_eq!(stopped, WordScan { phase: ScanPhase::Done, count: 1 });

    let mut empty = WordScan::new();
    empty.step(None);
    assert_eq!(empty, WordScan { phase: ScanPhase::Done, count: 0 });
}

#[test]
fn characters_are_classified() {
    assert_eq!(classify('a'), LETTER);
    assert_eq!(classify('7'), LETTER);
    assert_eq!(classify('ż'), LETTER);
    assert_eq!(classify(' '), SPACE);
    assert_eq!(classify('\t'), SPACE);
    assert_eq!(classify(','), SPACE);
    assert_eq!(classify('\r'), SPACE);
    assert_eq!(classify('\n'), LINE_BREAK);
}

#[test]
fn scanner_hands_out_characters_in_both_directions() {
    let rope = Rope::from_str("héllo");
    let mut forward = CharScanner::new(&rope, 1, true);
    assert_eq!(forward.next(), Some('é'));
    assert_eq!(forward.next(), Some('l'));
    let mut backward = CharScanner::new(&rope, 2, false);
    assert_eq!(backward.next(), Some('é'));
    assert_eq!(backward.next(), Some('h'));
    assert_eq!(backward.next(), None);
    assert_eq!(backward.next(), None);
    let mut at_end = CharScanner::new(&rope, 5, true);
    assert_eq!(at_end.next(), None);
}

#[test]
fn the_rope_cursor_steps_over_what_it_hands_out() {
    let rope = Rope::from_str("aé\nz");
    let mut cursor = rope.chars_at(1);
    assert_eq!(cursor.next(), Some('é'));
    assert_eq!(cursor.prev(), Some('é'));
    assert_eq!(cursor.prev(), Some('a'));
    assert_eq!(cursor.prev(), None);
    assert_eq!(cursor.prev(), None);
    assert_eq!(cursor.next(), Some('a'));
    assert_eq!(cursor.next(), Some('é'));
    assert_eq!(cursor.next(), Some('\n'));
    assert_eq!(cursor.next(), Some('z'));
    assert_eq!(cursor.next(), None);
    assert_eq!(cursor.next(), None);
    assert_eq!(cursor.prev(), Some('z'));

    let empty = Rope::from_str("");
    let mut nothing = empty.chars_at(0);
    assert_eq!(nothing.next(), None);
    assert_eq!(nothing.prev(), None);
}

#[test]
fn word_motion_crosses_the_chunks_of_a_long_text() {
    let mut sample = String::new();
    for _ in 0..3000 {
        sample.push_str("ąę");
    }
    sample.push(' ');
    for _ in 0..3000 {
        sample.push('x');
    }
    assert_eq!(span_forward(&sample, 0), 6000);
    assert_eq!(span_forward(&sample, 6000), 3001);
    assert_eq!(span_backward(&sample, 9001), 3000);
    assert_eq!(span_backward(&sample, 6001), 6001);
    assert_eq!(span_backward(&sample, 4000), 4000);
}

#[test]
fn word_motion_uses_unicode_classes() {
    let mut text = text_of("żółw ١٢٣ x");
    text.move_to_next_word(Selection::NotSelect);
    assert_eq!(position(&mut text), (4, 0));
    text.move_to_next_word(Selection::NotSelect);
    assert_eq!(position(&mut text), (8, 0));
    text.move_to_prev_word(Selection::NotSelect);
    assert_eq!(position(&mut text), (5, 0));
}

#[test]
fn word_motion_stops_at_a_blank_line() {
    let mut text = text_of("ab  \n\ncd");
    text.move_cursor(2, Selection::NotSelect);
    text.move_to_next_word(Selection::NotSelect);
    assert_eq!(position(&mut text), (4, 0));
    text.move_to_next_word(Selection::NotSelect);
    assert_eq!(position(&mut text), (0, 1));
    text.move_to_next_word(Selection::NotSelect);
    assert_eq!(position(&mut text), (2, 2));
}

// Line-ending normalisation

#[test]
fn loading_drops_every_carriage_return() {
    let text = Text::new(b"\r\nline 1\r\n line2".to_vec()).unwrap();
    assert_eq!(text.get_string(), "\nline 1\n line2");
}

#[test]
fn a_carriage_return_without_line_feed_is_dropped_too() {
    let text = Text::new(b"a\rb\r\rc\r".to_vec()).unwrap();
    assert_eq!(text.get_string(), "abc");
    let only = Text::new(b"\r\r\r".to_vec()).unwrap();
    assert_eq!(only.get_string(), "");
}

#[test]
fn strip_compacts_in_place() {
    let mut filter = RemoveCrlf::new();
    assert!(filter.matches.is_empty());
    let mut buf = b"\r\nline 1\r\n line2".to_vec();
    let len = filter.strip(&mut buf);
    assert_eq!(len, 14);
    assert_eq!(&buf[..len], b"\nline 1\n line2");
    assert_eq!(buf.len(), 16);
    assert_eq!(&buf[len..], b"e2");
    assert_eq!(filter.matches, vec![0, 8, 16]);
}

#[test]
fn strip_is_idempotent() {
    let mut filter = RemoveCrlf::new();
    let mut buf = b"a\r\r\nb\rc".to_vec();
    let len = filter.strip(&mut buf);
    buf.truncate(len);
    assert_eq!(buf, b"a\nbc");
    let again = filter.strip(&mut buf);
    assert_eq!(again, 4);
    assert_eq!(buf, b"a\nbc");
    assert_eq!(filter.matches, vec![4]);
}

#[test]
fn strip_of_an_empty_buffer() {
    let mut filter = RemoveCrlf::new();
    let mut buf: Vec<u8> = Vec::new();
    assert_eq!(filter.strip(&mut buf), 0);
    assert_eq!(filter.matches, vec![0]);
}

#[test]
fn remove_crlf_from_buff_closes_the_gaps() {
    let mut buf = b"0123456789".to_vec();
    remove_crlf_from_buff(&mut buf, &[2, 3, 7, 10]);
    assert_eq!(&buf[..7], b"0145689");
    assert_eq!(&buf[7..], b"789");

    let mut whole = b"abc".to_vec();
    remove_crlf_from_buff(&mut whole, &[3]);
    assert_eq!(whole, b"abc");

    let mut first = b"abc".to_vec();
    remove_crlf_from_buff(&mut first, &[0, 3]);
    assert_eq!(&first[..2], b"bc");

    let mut early_end = b"abcdef".to_vec();
    remove_crlf_from_buff(&mut early_end, &[1, 4]);
    assert_eq!(early_end, b"acddef");
}

#[test]
fn remove_cr_keeps_other_characters_whole() {
    assert_eq!(remove_cr("\r\nline 1\r\n line2"), "\nline 1\n line2");
    assert_eq!(remove_cr("zażółć\r\ngęślą\rjaźń €𝄞\r"), "zażółć\ngęśląjaźń €𝄞");
    assert_eq!(remove_cr(""), "");
    assert_eq!(remove_cr("\r"), "");
    assert_eq!(remove_cr("no returns"), "no returns");
}

#[test]
fn loading_rejects_bytes_that_are_not_utf8() {
    assert_eq!(Text::new(vec![0x61, 0xff, 0x62]).err(), Some(LoadError::InvalidUtf8));
    assert_eq!(Text::new(vec![0xc3]).err(), Some(LoadError::InvalidUtf8));
    assert_eq!(Text::new(vec![0xed, 0xa0, 0x80]).err(), Some(LoadError::InvalidUtf8));
    // A carriage return inside a sequence breaks nothing once it is taken out.
    let mended = Text::new(vec![0xc3, 0x0d, 0xa9]).unwrap();
    assert_eq!(mended.get_string(), "é");
}

#[test]
fn loading_starts_a_history_of_one_entry() {
    let mut text = text_of("żółw\nb");
    assert_eq!(text.history.len(), 1);
    assert_eq!(text.index, 0);
    assert!(!text.last_added);
    assert_eq!(position(&mut text), (0, 0));
    assert_eq!(text.get_text().len_chars(), 6);
    assert_eq!(text.get_text().len_lines(), 2);
}

#[test]
fn loading_a_large_text_crosses_the_read_buffer() {
    let mut bytes = Vec::new();
    for i in 0..5000 {
        bytes.extend_from_slice(format!("wiersz {} ąę\r\n", i).as_bytes());
    }
    let mut text = Text::new(bytes).unwrap();
    assert_eq!(text.get_text().len_lines(), 5001);
    text.move_cursor_y(4999, Selection::NotSelect);
    assert_eq!(text.get_current_line(), "wiersz 4999 ąę\n");
    text.move_to_end_of_line(Selection::NotSelect);
    assert_eq!(position(&mut text), (14, 4999));
}

// Byte iterator

#[test]
fn char_bytes_iterator_reads_each_byte_as_a_character() {
    let digits = b"1204";
    let mut iter = CharBytesIterator::new(&digits[..]);
    assert_eq!(iter.next(), Some('1'));
    assert_eq!(iter.next(), Some('2'));
    assert_eq!(iter.next(), Some('0'));
    assert_eq!(iter.next(), Some('4'));
    assert_eq!(iter.next(), None);
    assert_eq!(iter.next(), None);

    let high = [0xe9u8];
    let mut latin = CharBytesIterator::new(&high[..]);
    assert_eq!(latin.next(), Some('é'));

    let mut empty = CharBytesIterator::new(&[][..]);
    assert_eq!(empty.next(), None);
}

// Editing

#[test]
fn insert_replaces_a_selection_made_backwards_or_forwards() {
    let mut forward = text_of("initial text");
    forward.move_cursor(2, Selection::Select);
    forward.insert_text("str");
    assert_eq!(forward.get_string(), "stritial text");
    assert_eq!(position(&mut forward), (3, 0));
    assert_eq!(forward.get_cursor().remembered_x, 3);
    assert!(forward.get_cursor().selection.is_none());

    let mut backward = text_of("initial text");
    backward.get_cursor().selection = Some(Point { x: 2, y: 0 });
    backward.insert_text("str");
    assert_eq!(backward.get_string(), "stritial text");
    assert_eq!(position(&mut backward), (3, 0));
    assert_eq!(backward.get_cursor().remembered_x, 3);
}

#[test]
fn insert_across_lines_places_the_cursor_by_row_and_column() {
    let mut text = text_of("ab\ncd");
    text.move_cursor(4, Selection::NotSelect);
    text.insert_text("x\nyz");
    assert_eq!(text.get_string(), "ab\ncx\nyzd");
    assert_eq!(position(&mut text), (2, 2));
    assert_eq!(text.get_cursor().remembered_x, 2);
}

#[test]
fn consecutive_letters_are_one_undo_step() {
    let mut text = text_of("");
    text.insert_text("a");
    text.insert_text("b");
    text.insert_text("c");
    assert_eq!(text.get_string(), "abc");
    assert_eq!(text.history.len(), 2);
    text.undo();
    assert_eq!(text.get_string(), "");
}

#[test]
fn whitespace_is_an_undo_step_of_its_own() {
    let mut text = text_of("");
    text.insert_text("a");
    text.insert_text(" ");
    assert_eq!(text.history.len(), 3);
    text.undo();
    assert_eq!(text.get_string(), "a");
}

#[test]
fn letters_after_whitespace_join_its_step() {
    let mut text = text_of("");
    text.insert_text("a");
    text.insert_text(" ");
    text.insert_text("b");
    text.insert_text("c");
    assert_eq!(text.history.len(), 3);
    text.undo();
    assert_eq!(text.get_string(), "a");
}

#[test]
fn a_hard_boundary_always_begins_an_entry() {
    let mut text = text_of("seed");
    text.begin_edit(true);
    assert_eq!(text.history.len(), 2);
    assert_eq!(text.index, 1);
    assert!(text.last_added);
    text.begin_edit(true);
    assert_eq!(text.history.len(), 3);
    assert_eq!(text.index, 2);
    assert_eq!(text.get_string(), "seed");
}

#[test]
fn a_soft_boundary_begins_an_entry_only_where_none_is_open() {
    let mut text = text_of("seed");
    assert!(!text.last_added);
    text.begin_edit(false);
    assert_eq!(text.history.len(), 2);
    assert_eq!(text.index, 1);
    assert!(text.last_added);
    text.begin_edit(false);
    assert_eq!(text.history.len(), 2);
    assert_eq!(text.index, 1);
    text.undo();
    text.begin_edit(false);
    assert_eq!(text.history.len(), 2);
    assert_eq!(text.index, 1);
    assert!(text.last_added);
}

#[test]
fn a_boundary_drops_what_could_be_redone() {
    let mut text = text_of("");
    text.insert_text("one ");
    text.insert_text("two ");
    text.undo();
    text.undo();
    assert_eq!(text.history.len(), 3);
    text.begin_edit(false);
    assert_eq!(text.history.len(), 2);
    assert_eq!(text.index, 1);
    assert_eq!(text.get_string(), "");
}

#[test]
fn the_class_of_the_first_character_decides_the_boundary() {
    let mut text = text_of("");
    text.insert_classified("a", false);
    text.insert_classified("b", false);
    text.insert_classified("c", false);
    assert_eq!(text.get_string(), "abc");
    assert_eq!(text.history.len(), 2);
    text.insert_classified(" ", true);
    assert_eq!(text.history.len(), 3);
    text.insert_classified("d", false);
    assert_eq!(text.history.len(), 3);
    // More than one character is a hard edit whatever the first one is.
    text.insert_classified("ef", false);
    assert_eq!(text.history.len(), 4);
    // The class is taken as given, not looked up.
    text.insert_classified("g", true);
    assert_eq!(text.history.len(), 5);
    text.insert_classified(" ", false);
    assert_eq!(text.history.len(), 5);
    assert_eq!(text.get_string(), "abc defg ");
    text.undo();
    assert_eq!(text.get_string(), "abc def");
}

#[test]
fn one_character_of_several_bytes_is_a_soft_edit() {
    let mut text = text_of("");
    text.insert_text("a");
    text.insert_text("é");
    text.insert_text("𝄞");
    assert_eq!(text.get_string(), "aé𝄞");
    assert_eq!(text.history.len(), 2);
    text.insert_text("\u{a0}");
    assert_eq!(text.history.len(), 3);
}

#[test]
fn redo_branch_is_discarded_by_a_new_edit() {
    let mut text = text_of("");
    text.insert_text("1");
    text.undo();
    text.redo();
    text.insert_text("2");
    assert_eq!(text.get_string(), "12");
    text.undo();
    assert_eq!(text.get_string(), "1");
    text.insert_text("3");
    assert_eq!(text.history.len(), 3);
    text.redo();
    assert_eq!(text.get_string(), "13");
    assert_eq!(text.index, 2);
}

#[test]
fn single_characters_undone_together_leave_nothing_to_join() {
    let mut text = text_of("");
    text.insert_text("1");
    text.insert_text("2");
    text.undo();
    text.insert_text("3");
    text.redo();
    assert_eq!(text.get_string(), "3");
    assert_eq!(text.history.len(), 2);
}

#[test]
fn undo_then_redo_restores_text_and_cursor() {
    let mut text = text_of("seed");
    text.insert_text("one ");
    text.insert_text("two\n");
    text.move_cursor(-2, Selection::Select);
    let before_text = text.get_string();
    let before = *text.get_cursor();
    let index = text.index;

    text.undo();
    assert_eq!(text.get_string(), "one seed");
    text.redo();

    assert_eq!(text.get_string(), before_text);
    assert_eq!(text.index, index);
    let after = *text.get_cursor();
    assert_eq!(after.position, before.position);
    assert_eq!(after.remembered_x, before.remembered_x);
    assert_eq!(after.selection, before.selection);
}

#[test]
fn undo_and_redo_do_nothing_in_a_fresh_history() {
    let mut text = text_of("seed");
    text.undo();
    text.redo();
    assert_eq!(text.index, 0);
    assert_eq!(text.history.len(), 1);
    assert_eq!(text.get_string(), "seed");
}

#[test]
fn undo_closes_the_entry_for_soft_edits() {
    let mut text = text_of("");
    text.insert_text("a");
    assert!(text.last_added);
    text.undo();
    assert!(!text.last_added);
    text.redo();
    assert!(!text.last_added);
    text.insert_text("b");
    assert_eq!(text.history.len(), 3);
}

#[test]
fn add_undo_point_copies_the_current_entry() {
    let mut text = text_of("ab");
    text.move_cursor(1, Selection::NotSelect);
    text.add_undo_point();
    assert_eq!(text.history.len(), 2);
    assert_eq!(text.index, 1);
    assert!(text.last_added);
    assert_eq!(text.get_string(), "ab");
    assert_eq!(position(&mut text), (1, 0));
    text.insert_text("x");
    assert_eq!(text.get_string(), "axb");
    assert_eq!(text.history[0].text.to_string(), "ab");
}

#[test]
fn a_cloned_entry_is_independent_of_its_source() {
    let mut point = UndoPoint { text: Rope::from_str("abc"), cursor: Cursor::new() };
    let copy = point.clone();
    assert!(copy.text.is_instance(&point.text));
    point.text.insert(0, "x");
    point.cursor.position.x = 2;
    assert_eq!(copy.text.to_string(), "abc");
    assert_eq!(copy.cursor.position.x, 0);
}

#[test]
fn deleting_a_line_break_is_a_hard_boundary() {
    let mut text = text_of("");
    text.insert_text("a");
    text.insert_text("\n");
    text.insert_text("b");
    assert_eq!(text.history.len(), 3);
    text.delete_text(DeleteDirection::Back);
    assert_eq!(text.history.len(), 3);
    assert_eq!(text.get_string(), "a\n");
    text.delete_text(DeleteDirection::Back);
    assert_eq!(text.history.len(), 4);
    assert_eq!(text.get_string(), "a");
    assert_eq!(position(&mut text), (1, 0));
    text.undo();
    assert_eq!(text.get_string(), "a\n");
}

#[test]
fn delete_forward_joins_lines() {
    let mut text = text_of("ab\ncd");
    text.move_to_end_of_line(Selection::NotSelect);
    text.delete_text(DeleteDirection::Forward);
    assert_eq!(text.get_string(), "abcd");
    assert_eq!(position(&mut text), (2, 0));
}

#[test]
fn delete_leaves_the_remembered_column() {
    let mut text = text_of("abcd");
    text.move_cursor(3, Selection::NotSelect);
    text.delete_text(DeleteDirection::Back);
    assert_eq!(position(&mut text), (2, 0));
    assert_eq!(text.get_cursor().remembered_x, 3);
}

#[test]
fn delete_with_an_empty_selection_clears_it() {
    let mut text = text_of("abc");
    text.move_cursor(1, Selection::NotSelect);
    text.get_cursor().selection = Some(Point { x: 1, y: 0 });
    text.delete_text(DeleteDirection::Back);
    assert_eq!(text.get_string(), "abc");
    assert!(text.get_cursor().selection.is_none());
    assert_eq!(text.history.len(), 2);
}

#[test]
fn selection_range_orders_its_ends() {
    let mut text = text_of("ab\ncd");
    assert_eq!(text.selection_range(), None);
    assert_eq!(text.get_selection_str(), None);
    text.move_cursor(4, Selection::NotSelect);
    text.move_cursor(-3, Selection::Select);
    assert_eq!(text.selection_range(), Some(1..4));
    assert_eq!(text.get_selection_str(), Some("b\nc".to_owned()));
    text.move_cursor(4, Selection::Select);
    assert_eq!(text.selection_range(), Some(4..5));
    assert_eq!(text.get_selection_str(), Some("d".to_owned()));
}

#[test]
fn current_line_includes_its_break() {
    let mut text = text_of("ab\ncd");
    assert_eq!(text.get_current_line(), "ab\n");
    text.move_cursor_y(1, Selection::NotSelect);
    assert_eq!(text.get_current_line(), "cd");
}

#[test]
fn remove_selection_returns_what_it_took() {
    let mut text = text_of("hello world");
    text.move_cursor(5, Selection::NotSelect);
    text.move_to_end(Selection::Select);
    assert_eq!(text.remove_selection(), Some(" world".to_owned()));
    assert_eq!(text.get_string(), "hello");
    assert_eq!(position(&mut text), (5, 0));
    assert!(text.get_cursor().selection.is_none());
    assert_eq!(text.history.len(), 2);
    text.undo();
    assert_eq!(text.get_string(), "hello world");

    let mut plain = text_of("abc");
    assert_eq!(plain.remove_selection(), None);
    assert_eq!(plain.get_string(), "abc");
    assert_eq!(plain.history.len(), 1);
}

#[test]
fn remove_current_line_takes_the_whole_line() {
    let mut text = text_of("ab\ncd\nef");
    text.move_cursor(4, Selection::NotSelect);
    assert_eq!(text.remove_current_line(), "cd\n");
    assert_eq!(text.get_string(), "ab\nef");
    assert_eq!(position(&mut text), (0, 1));
    assert_eq!(text.get_cursor().remembered_x, 0);
    assert_eq!(text.history.len(), 2);

    assert_eq!(text.remove_current_line(), "ef");
    assert_eq!(text.get_string(), "ab\n");
    assert_eq!(position(&mut text), (0, 1));
    assert_eq!(text.history.len(), 3);

    assert_eq!(text.remove_current_line(), "");
    assert_eq!(text.get_string(), "ab\n");
    assert_eq!(text.history.len(), 3);
}

// Validity

#[test]
fn points_are_valid_inside_the_text_only() {
    let rope = Rope::from_str("ab\ncd");
    assert!(Point { x: 0, y: 0 }.is_valid_in(&rope));
    assert!(Point { x: 2, y: 0 }.is_valid_in(&rope));
    assert!(Point { x: 2, y: 1 }.is_valid_in(&rope));
    // A column past the end of its row still addresses an offset of the text.
    assert!(Point { x: 5, y: 0 }.is_valid_in(&rope));
    assert!(!Point { x: 6, y: 0 }.is_valid_in(&rope));
    assert!(!Point { x: 3, y: 1 }.is_valid_in(&rope));
    assert!(!Point { x: 0, y: 2 }.is_valid_in(&rope));
    assert!(!Point { x: -1, y: 0 }.is_valid_in(&rope));
    assert!(!Point { x: 0, y: -1 }.is_valid_in(&rope));
    assert!(!Point { x: i64::MAX, y: 0 }.is_valid_in(&rope));
    assert!(!Point { x: 0, y: i64::MAX }.is_valid_in(&rope));

    let empty = Rope::from_str("");
    assert!(Point { x: 0, y: 0 }.is_valid_in(&empty));
    assert!(!Point { x: 1, y: 0 }.is_valid_in(&empty));
    assert!(!Point { x: 0, y: 1 }.is_valid_in(&empty));
}

#[test]
fn a_cursor_is_valid_with_its_anchor() {
    let rope = Rope::from_str("ab\ncd");
    let mut cursor = Cursor::new();
    assert!(cursor.is_valid_in(&rope));
    cursor.selection = Some(Point { x: 2, y: 1 });
    assert!(cursor.is_valid_in(&rope));
    cursor.selection = Some(Point { x: 0, y: 2 });
    assert!(!cursor.is_valid_in(&rope));
    cursor.selection = None;
    cursor.position = Point { x: 9, y: 0 };
    assert!(!cursor.is_valid_in(&rope));
}

#[test]
fn a_text_is_well_formed_until_a_cursor_is_set_wrongly() {
    let mut text = text_of("ab\ncd");
    assert!(text.is_wf());
    text.insert_text("x");
    text.move_cursor(3, Selection::Select);
    assert!(text.is_wf());

    text.get_cursor().position = Point { x: 0, y: 7 };
    assert!(!text.is_wf());
    text.get_cursor().position = Point { x: 0, y: 1 };
    assert!(text.is_wf());

    text.get_cursor().selection = Some(Point { x: 40, y: 0 });
    assert!(!text.is_wf());
    text.get_cursor().selection = None;

    // An entry that is not the current one counts as well.
    text.history[0].cursor.position.x = -1;
    assert!(!text.is_wf());
    text.history[0].cursor.position.x = 0;
    assert!(text.is_wf());

    text.index = 2;
    assert!(!text.is_wf());
}

#[test]
fn lines_are_counted_with_their_breaks() {
    let text = text_of("ab\n\nżółw");
    assert_eq!(text.line_count(), 3);
    assert_eq!(text.chars_in_line(0), 3);
    assert_eq!(text.chars_in_line(1), 1);
    assert_eq!(text.chars_in_line(2), 4);

    let ending = text_of("ab\n");
    assert_eq!(ending.line_count(), 2);
    assert_eq!(ending.chars_in_line(1), 0);

    let empty = text_of("");
    assert_eq!(empty.line_count(), 1);
    assert_eq!(empty.chars_in_line(0), 0);
    assert_eq!(empty.chars_in_line(1), 0);
    assert_eq!(text.chars_in_line(3), 0);
    assert_eq!(text.chars_in_line(usize::MAX), 0);
}

#[test]
fn length_and_insertability_are_told() {
    let text = text_of("żółw\n");
    assert_eq!(text.len_chars(), 5);
    assert!(text.insert_applies("a"));
    assert!(text.insert_applies("\n"));
    assert!(!text.insert_applies(""));
    assert!(text_len_fits(0));
    assert!(text_len_fits(1 << 20));
    assert!(!text_len_fits(usize::MAX));
    assert!(!text_len_fits(i64::MAX as usize));
    assert!(text_len_fits(i64::MAX as usize - 1));
}

#[test]
fn current_point_hands_out_the_entry_being_edited() {
    let mut text = text_of("ab");
    text.insert_text("x");
    {
        let point = text.current_point();
        assert_eq!(point.text.to_string(), "xab");
        point.cursor.position.x = 3;
    }
    assert_eq!(position(&mut text), (3, 0));
    assert_eq!(text.history[0].cursor.position.x, 0);
}
