use crates_language_server::parse::{idx_to_position, line_of_idx, range_to_positions, Position, Range, Span};

fn pos(line: usize, character: usize) -> Position {
    Position { line, character }
}

#[test]
fn test_range_to_positions() {
    let s = "12345678\n480\n3\n";

    // basic
    assert_eq!(range_to_positions(s, 0..2), Range { start: pos(0, 0), end: pos(0, 2) });
    // multiline
    assert_eq!(range_to_positions(s, 6..10), Range { start: pos(0, 6), end: pos(1, 1) });
    // to line end
    assert_eq!(range_to_positions(s, 13..14), Range { start: pos(2, 0), end: pos(2, 1) });
}

#[test]
fn line_of_idx_reports_the_preceding_newline() {
    let s = "ab\ncd\n\nef";
    assert_eq!(line_of_idx(s, 0), (0, 0));
    assert_eq!(line_of_idx(s, 2), (0, 0));
    assert_eq!(line_of_idx(s, 3), (1, 2));
    assert_eq!(line_of_idx(s, 6), (2, 5));
    assert_eq!(line_of_idx(s, 7), (3, 6));
    assert_eq!(line_of_idx(s, 9), (3, 6));
}

#[test]
fn carriage_returns_count_as_columns() {
    let s = "a\r\nbc";
    assert_eq!(idx_to_position(s, 2), pos(0, 2));
    assert_eq!(idx_to_position(s, 3), pos(1, 0));
    assert_eq!(idx_to_position(s, 5), pos(1, 2));
}

#[test]
fn offsets_past_the_end_stay_on_the_last_line() {
    let s = "x\ny";
    assert_eq!(idx_to_position(s, 3), pos(1, 1));
    assert_eq!(idx_to_position(s, 10), pos(1, 8));
    assert_eq!(idx_to_position("", 0), pos(0, 0));
}

#[test]
fn contains_pos_includes_both_endpoints() {
    let span = Span::new("tokio", Range { start: pos(3, 4), end: pos(3, 9) });
    assert!(span.contains_pos(pos(3, 4)));
    assert!(span.contains_pos(pos(3, 9)));
    assert!(span.contains_pos(pos(3, 6)));
    assert!(!span.contains_pos(pos(3, 3)));
    assert!(!span.contains_pos(pos(3, 10)));
    assert!(!span.contains_pos(pos(2, 6)));
    assert!(!span.contains_pos(pos(4, 6)));
}

#[test]
fn contains_pos_on_a_span_of_several_lines() {
    let span = Span::new((), Range { start: pos(1, 5), end: pos(3, 2) });
    assert!(span.contains_pos(pos(1, 5)));
    assert!(span.contains_pos(pos(2, 0)));
    assert!(span.contains_pos(pos(2, 100)));
    assert!(span.contains_pos(pos(3, 2)));
    assert!(!span.contains_pos(pos(1, 4)));
    assert!(!span.contains_pos(pos(3, 3)));
}

fn offset_of(text: &str, position: Position) -> usize {
    let mut start = 0;
    let mut line = 0;
    for (i, byte) in text.bytes().enumerate() {
        if line == position.line {
            break;
        }
        if byte == b'\n' {
            line += 1;
            start = i + 1;
        }
    }
    start + position.character
}

#[test]
fn positions_keep_the_order_and_lead_back_to_their_offsets() {
    for text in ["", "abc", "\n", "a\n\nbc\n", "one\r\ntwo\nthree", "\n\n\n", "x\ny\nz\n"] {
        let mut before = pos(0, 0);
        for idx in 0..=text.len() {
            let here = idx_to_position(text, idx);
            assert!(before.line < here.line || (before.line == here.line && before.character <= here.character));
            assert_eq!(offset_of(text, here), idx, "{:?} at {}", text, idx);
            before = here;
        }
        for start in 0..=text.len() {
            for end in start..=text.len() {
                let range = range_to_positions(text, start..end);
                assert_eq!((offset_of(text, range.start), offset_of(text, range.end)), (start, end));
                assert!(Span::new((), range).contains_pos(range.start));
                assert!(Span::new((), range).contains_pos(range.end));
            }
        }
    }
}

#[test]
fn columns_count_bytes() {
    let s = "é\nxü";
    assert_eq!(idx_to_position(s, 2), pos(0, 2));
    assert_eq!(idx_to_position(s, 3), pos(1, 0));
    assert_eq!(idx_to_position(s, 6), pos(1, 3));
}
