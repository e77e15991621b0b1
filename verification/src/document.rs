//! The text of an open document, kept in a rope, and the edits that the
//! editor sends for it.

use crate::parse::all_wf;
use crate::parse::dependency_views;
use crate::parse::manifest_dependencies;
use crate::parse::parse_manifest;
use crate::parse::Dependency;
use crate::parse::Position;
use crate::parse::Range;
use vstd::prelude::*;
use vstd::utf8::encode_utf8;

verus! {

#[verifier::external_type_specification]
#[verifier::external_body]
pub struct ExRope(ropey::Rope);

/// The text that a rope holds.
pub uninterp spec fn rope_text(rope: ropey::Rope) -> Seq<char>;

/// The number of lines that the rope counts in a text.
pub uninterp spec fn line_count(text: Seq<char>) -> nat;

/// The byte offset at which the rope has line `line` of a text begin.
pub uninterp spec fn line_byte(text: Seq<char>, line: nat) -> nat;

/// Writes the text of a rope out with `String::from`.
#[verifier::external_body]
fn rope_to_string(rope: &ropey::Rope) -> (text: String)
    ensures
        text@ == rope_text(*rope),
{
    String::from(rope)
}

/// `ropey::Rope::len_chars`: the number of characters of the text.
#[verifier::external_body]
fn len_chars(rope: &ropey::Rope) -> (len: usize)
    ensures
        len == rope_text(*rope).len(),
{
    rope.len_chars()
}

/// `ropey::Rope::len_lines`: the number of lines of the text.
#[verifier::external_body]
fn len_lines(rope: &ropey::Rope) -> (len: usize)
    ensures
        len == line_count(rope_text(*rope)),
{
    rope.len_lines()
}

/// `ropey::Rope::line_to_byte`: the byte offset at which a line begins. The
/// line may be the one past the last; a later one makes the call panic.
#[verifier::external_body]
fn line_to_byte(rope: &ropey::Rope, line: usize) -> (offset: usize)
    requires
        line <= line_count(rope_text(*rope)),
    ensures
        offset == line_byte(rope_text(*rope), line as nat),
{
    rope.line_to_byte(line)
}

/// `ropey::Rope::remove`: takes the characters from index `start` to index
/// `end` out of the text. A range that ends before it starts or behind the
/// text makes the call panic.
#[verifier::external_body]
fn remove(rope: &mut ropey::Rope, start: usize, end: usize)
    requires
        start <= end <= rope_text(*old(rope)).len(),
    ensures
        rope_text(*final(rope)) == rope_text(*old(rope)).subrange(0, start as int) + rope_text(
            *old(rope),
        ).subrange(end as int, rope_text(*old(rope)).len() as int),
{
    rope.remove(start..end)
}

/// `ropey::Rope::insert`: puts `text` into the text at character index
/// `at`. An index behind the text makes the call panic.
#[verifier::external_body]
fn insert(rope: &mut ropey::Rope, at: usize, text: &str)
    requires
        at <= rope_text(*old(rope)).len(),
    ensures
        rope_text(*final(rope)) == rope_text(*old(rope)).subrange(0, at as int) + text@
            + rope_text(*old(rope)).subrange(at as int, rope_text(*old(rope)).len() as int),
{
    rope.insert(at, text)
}

/// Reads the dependencies out of a document as it stands.
pub fn document_dependencies(doc: &ropey::Rope) -> (dependencies: Vec<Dependency>)
    ensures
        dependency_views(dependencies@) == manifest_dependencies(
            rope_text(*doc),
            encode_utf8(rope_text(*doc)),
        ),
        all_wf(dependencies@),
{
    let text = rope_to_string(doc);
    parse_manifest(text.as_str())
}

/// The offset in a text that an editor's position stands for: the start of
/// its line and its column on from there; nothing for a line that the text
/// does not have.
pub open spec fn edit_offset(text: Seq<char>, pos: Position) -> Option<int> {
    if pos.line <= line_count(text) {
        Some(line_byte(text, pos.line as nat) + pos.character)
    } else {
        None
    }
}

/// Whether the text between the two ends of `range` can be replaced: both
/// ends are offsets of the text, in their order.
pub open spec fn can_replace(text: Seq<char>, range: Range) -> bool {
    &&& edit_offset(text, range.start) matches Some(start)
    &&& edit_offset(text, range.end) matches Some(end)
    &&& start <= end <= text.len()
    &&& end <= usize::MAX
}

/// The text with what lies in `range` replaced by `new`.
pub open spec fn replaced(text: Seq<char>, range: Range, new: Seq<char>) -> Seq<char> {
    let start = edit_offset(text, range.start)->0;
    let end = edit_offset(text, range.end)->0;
    text.subrange(0, start) + new + text.subrange(end, text.len() as int)
}

/// The offset that `pos` stands for, where the document has its line and
/// the offset can be told.
fn offset_at(doc: &ropey::Rope, pos: Position) -> (offset: Option<usize>)
    ensures
        match edit_offset(rope_text(*doc), pos) {
            Some(at) => if at <= usize::MAX {
                offset == Some(at as usize)
            } else {
                offset is None
            },
            None => offset is None,
        },
{
    if pos.line <= len_lines(doc) {
        line_to_byte(doc, pos.line).checked_add(pos.character)
    } else {
        None
    }
}

/// Replaces the text in `range` by `text`.
pub fn replace(doc: &mut ropey::Rope, range: Range, text: &str)
    requires
        can_replace(rope_text(*old(doc)), range),
    ensures
        rope_text(*final(doc)) == replaced(rope_text(*old(doc)), range, text@),
{
    let ghost before = rope_text(*doc);
    let start = offset_at(doc, range.start).unwrap();
    let end = offset_at(doc, range.end).unwrap();
    remove(doc, start, end);
    insert(doc, start, text);
}

/// Replaces the text in `range` by `text` where that can be done, and says
/// whether it was. A document that cannot take the edit stays as it is.
pub fn try_replace(doc: &mut ropey::Rope, range: Range, text: &str) -> (done: bool)
    ensures
        done == can_replace(rope_text(*old(doc)), range),
        done ==> rope_text(*final(doc)) == replaced(rope_text(*old(doc)), range, text@),
        !done ==> *final(doc) == *old(doc),
{
    let start = offset_at(doc, range.start);
    let end = offset_at(doc, range.end);
    match (start, end) {
        (Some(start), Some(end)) => {
            if start <= end && end <= len_chars(doc) {
                replace(doc, range, text);
                true
            } else {
                false
            }
        },
        _ => false,
    }
}

/// An edit that the editor reports: new text for a range of the document,
/// or, without a range, for the whole of it.
#[derive(Debug)]
pub struct TextChange {
    pub range: Option<Range>,
    pub text: String,
}

/// What an edit makes of a text. An edit without a range is passed over:
/// the document is kept in step by ranges alone.
pub open spec fn changed(text: Seq<char>, change: TextChange) -> Seq<char> {
    match change.range {
        Some(range) => replaced(text, range, change.text@),
        None => text,
    }
}

/// Whether an edit names a range that cannot be replaced in the text.
pub open spec fn blocked(text: Seq<char>, change: TextChange) -> bool {
    change.range matches Some(range) && !can_replace(text, range)
}

/// A text after the first `n` of a list of edits, each made on what the
/// edits before it left.
pub open spec fn after_changes(text: Seq<char>, changes: Seq<TextChange>, n: int) -> Seq<char>
    decreases n,
{
    if n <= 0 {
        text
    } else {
        changed(after_changes(text, changes, n - 1), changes[n - 1])
    }
}

/// The index of the first among the first `n` edits that is blocked on what
/// the edits before it left.
pub open spec fn first_blocked(text: Seq<char>, changes: Seq<TextChange>, n: int) -> Option<int>
    decreases n,
{
    if n <= 0 {
        None
    } else {
        match first_blocked(text, changes, n - 1) {
            Some(i) => Some(i),
            None => if blocked(after_changes(text, changes, n - 1), changes[n - 1]) {
                Some(n - 1)
            } else {
                None
            },
        }
    }
}

/// Applies the edits of one notification in their order, up to the first
/// that is blocked, and names that one. The document then holds what the
/// edits before it made of it.
pub fn apply_changes(doc: &mut ropey::Rope, changes: &Vec<TextChange>) -> (stopped: Option<usize>)
    ensures
        match first_blocked(rope_text(*old(doc)), changes@, changes.len() as int) {
            Some(i) => stopped == Some(i as usize) && 0 <= i < changes.len() && rope_text(
                *final(doc),
            ) == after_changes(rope_text(*old(doc)), changes@, i),
            None => stopped is None && rope_text(*final(doc)) == after_changes(
                rope_text(*old(doc)),
                changes@,
                changes.len() as int,
            ),
        },
{
    let ghost start = rope_text(*doc);
    let mut i: usize = 0;
    while i < changes.len()
        invariant
            i <= changes.len(),
            start == rope_text(*old(doc)),
            first_blocked(start, changes@, i as int) is None,
            rope_text(*doc) == after_changes(start, changes@, i as int),
        decreases changes.len() - i,
    {
        let change = &changes[i];
        if let Some(range) = change.range {
            if !try_replace(doc, range, change.text.as_str()) {
                proof {
                    lemma_blocked_stays(start, changes@, i as int, changes.len() as int);
                }
                return Some(i);
            }
        }
        i = i + 1;
    }
    None
}

/// The first blocked edit among some is the first among more.
proof fn lemma_blocked_stays(text: Seq<char>, changes: Seq<TextChange>, at: int, n: int)
    requires
        0 <= at < n,
        first_blocked(text, changes, at) is None,
        blocked(after_changes(text, changes, at), changes[at]),
    ensures
        first_blocked(text, changes, n) == Some(at),
    decreases n - at,
{
    if n > at + 1 {
        lemma_blocked_stays(text, changes, at, n - 1);
    }
}

} // verus!
