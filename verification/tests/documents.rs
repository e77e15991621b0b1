use crates_language_server::document::{apply_changes, document_dependencies, try_replace, TextChange};
use ropey::Rope;
use crates_language_server::parse::{Position, Range};

fn range(from: (usize, usize), to: (usize, usize)) -> Range {
    Range {
        start: Position { line: from.0, character: from.1 },
        end: Position { line: to.0, character: to.1 },
    }
}

fn change(range: Option<Range>, text: &str) -> TextChange {
    TextChange { range, text: text.to_owned() }
}

fn rope_from_str(text: &str) -> Rope {
    Rope::from_str(text)
}

fn rope_to_string(rope: &Rope) -> String {
    rope.to_string()
}

#[test]
fn dependencies_of_a_document() {
    let mut doc = rope_from_str("[dependencies]\nserde = \"1\"\n");
    let deps = document_dependencies(&doc);
    assert_eq!(deps.len(), 1);
    assert_eq!(deps[0].name.value, "serde");
    assert!(try_replace(&mut doc, range((1, 0), (1, 5)), "tokio"));
    let deps = document_dependencies(&doc);
    assert_eq!(deps.len(), 1);
    assert_eq!(deps[0].name.value, "tokio");
    assert_eq!(document_dependencies(&rope_from_str("")).len(), 0);
}

#[test]
fn replace_within_a_line() {
    let mut doc = rope_from_str("[dependencies]\nserde = \"1\"\n");
    assert!(try_replace(&mut doc, range((1, 9), (1, 10)), "1.0.219"));
    assert_eq!(rope_to_string(&doc), "[dependencies]\nserde = \"1.0.219\"\n");
}

#[test]
fn replace_over_lines_and_insert_and_delete() {
    let mut doc = rope_from_str("one\ntwo\nthree\n");
    assert!(try_replace(&mut doc, range((0, 2), (2, 2)), "-"));
    assert_eq!(rope_to_string(&doc), "on-ree\n");
    assert!(try_replace(&mut doc, range((0, 0), (0, 0)), ">> "));
    assert_eq!(rope_to_string(&doc), ">> on-ree\n");
    assert!(try_replace(&mut doc, range((0, 0), (0, 3)), ""));
    assert_eq!(rope_to_string(&doc), "on-ree\n");
    assert!(try_replace(&mut doc, range((1, 0), (1, 0)), "end"));
    assert_eq!(rope_to_string(&doc), "on-ree\nend");
}

#[test]
fn an_edit_outside_the_text_is_refused() {
    let mut doc = rope_from_str("one\ntwo\n");
    assert!(!try_replace(&mut doc, range((5, 0), (5, 1)), "x"));
    assert!(!try_replace(&mut doc, range((0, 2), (0, 1)), "x"));
    assert!(!try_replace(&mut doc, range((1, 0), (1, 40)), "x"));
    assert!(!try_replace(&mut doc, range((0, usize::MAX), (1, 0)), "x"));
    assert_eq!(rope_to_string(&doc), "one\ntwo\n");
}

#[test]
fn changes_are_applied_in_order() {
    let mut doc = rope_from_str("a = 1\n");
    let changes = vec![
        change(Some(range((0, 4), (0, 5))), "2"),
        change(None, "whole new text"),
        change(Some(range((0, 0), (0, 1))), "b"),
    ];
    assert_eq!(apply_changes(&mut doc, &changes), None);
    assert_eq!(rope_to_string(&doc), "b = 2\n");
}

#[test]
fn changes_stop_at_the_first_that_is_blocked() {
    let mut doc = rope_from_str("a = 1\n");
    let changes = vec![
        change(Some(range((0, 4), (0, 5))), "2"),
        change(Some(range((9, 0), (9, 1))), "x"),
        change(Some(range((0, 0), (0, 1))), "b"),
    ];
    assert_eq!(apply_changes(&mut doc, &changes), Some(1));
    assert_eq!(rope_to_string(&doc), "a = 2\n");
    assert_eq!(apply_changes(&mut doc, &Vec::new()), None);
}
