//! Source positions, spans and the dependency records read from a manifest.

use crate::dom::field;
use crate::dom::manifest_tree;
use crate::dom::parse_toml;
use crate::dom::text_field;
use crate::dom::EntryView;
use crate::dom::Name;
use crate::dom::NameView;
use crate::dom::Text;
use crate::dom::TextSpan;
use crate::dom::TextView;
use crate::dom::Value;
use crate::dom::ValueView;
use crate::dom::MAX_TEXT_LEN;
use vstd::prelude::*;
use vstd::string::StringExecFns;
use vstd::string::StringSliceAdditionalSpecFns;

verus! {

/// The top-level tables that declare dependencies.
pub const DEPENDENCIES_KEYS: [&'static str; 3] = [
    "dependencies",
    "dev-dependencies",
    "build-dependencies",
];

/// Why an entry of a dependency table gave no dependency.
#[derive(Debug)]
pub enum Error {
    /// The entry's key has no place in the source text.
    Parse,
}

impl Error {
    /// The text of this error.
    pub open spec fn message_of(self) -> Seq<char> {
        "failed to parse toml document"@
    }

    /// Describes this error for a reader.
    pub fn message(&self) -> (out: String)
        ensures
            out@ == self.message_of(),
    {
        String::from_str("failed to parse toml document")
    }
}

/// The byte that ends a line. Carriage returns are ordinary bytes.
pub const NEWLINE: u8 = 10;

/// A zero-indexed line and column in a text.
#[derive(Clone, Copy, Debug, PartialEq, Eq, Structural)]
pub struct Position {
    pub line: usize,
    pub character: usize,
}

/// A source range from `start` to `end`, the end exclusive.
#[derive(Clone, Copy, Debug, PartialEq, Eq, Structural)]
pub struct Range {
    pub start: Position,
    pub end: Position,
}

/// Whether `bytes` holds a newline at index `i`.
pub open spec fn is_newline_at(bytes: Seq<u8>, i: int) -> bool {
    0 <= i < bytes.len() && bytes[i] == NEWLINE
}

/// The number of newlines among the first `idx` bytes.
pub open spec fn newlines_before(bytes: Seq<u8>, idx: int) -> int
    decreases idx,
{
    if idx <= 0 {
        0
    } else {
        newlines_before(bytes, idx - 1) + if is_newline_at(bytes, idx - 1) {
            1int
        } else {
            0int
        }
    }
}

/// The index of the last newline among the first `idx` bytes, 0 without one.
pub open spec fn last_newline_before(bytes: Seq<u8>, idx: int) -> int
    decreases idx,
{
    if idx <= 0 {
        0
    } else if is_newline_at(bytes, idx - 1) {
        idx - 1
    } else {
        last_newline_before(bytes, idx - 1)
    }
}

/// The index at which the line that holds offset `idx` begins.
pub open spec fn line_start(bytes: Seq<u8>, idx: int) -> int {
    if newlines_before(bytes, idx) == 0 {
        0
    } else {
        last_newline_before(bytes, idx) + 1
    }
}

/// Past the end of the text there is nothing left to count.
pub proof fn lemma_scan_past_end(bytes: Seq<u8>, idx: int)
    requires
        bytes.len() <= idx,
    ensures
        newlines_before(bytes, idx) == newlines_before(bytes, bytes.len() as int),
        last_newline_before(bytes, idx) == last_newline_before(bytes, bytes.len() as int),
    decreases idx,
{
    if idx > bytes.len() {
        lemma_scan_past_end(bytes, idx - 1);
    }
}

/// The line of offset `idx` and the index of the newline that precedes it.
pub fn line_of_idx(s: &str, idx: usize) -> (r: (usize, usize))
    ensures
        r.0 == newlines_before(s.spec_bytes(), idx as int),
        r.1 == last_newline_before(s.spec_bytes(), idx as int),
{
    let bytes = s.as_bytes();
    let end: usize = if idx < bytes.len() {
        idx
    } else {
        bytes.len()
    };
    let mut line: usize = 0;
    let mut line_pos: usize = 0;
    let mut i: usize = 0;
    while i < end
        invariant
            bytes@ == s.spec_bytes(),
            i <= end <= bytes@.len(),
            line <= i,
            line == newlines_before(bytes@, i as int),
            line_pos == last_newline_before(bytes@, i as int),
        decreases end - i,
    {
        if bytes[i] == NEWLINE {
            line = line + 1;
            line_pos = i;
        }
        i = i + 1;
    }
    proof {
        if idx >= bytes@.len() {
            lemma_scan_past_end(bytes@, idx as int);
        }
    }
    (line, line_pos)
}

/// The position of byte offset `idx`: its line, and its distance from the
/// start of that line.
pub open spec fn position_of(bytes: Seq<u8>, idx: int) -> (int, int) {
    (newlines_before(bytes, idx), idx - line_start(bytes, idx))
}

/// Whether `a` comes before `b` or is `b`, by line and then by column.
pub open spec fn position_le(a: Position, b: Position) -> bool {
    a.line < b.line || (a.line == b.line && a.character <= b.character)
}

/// The newline that precedes offset `idx` lies before it.
pub proof fn lemma_line_start_bounds(bytes: Seq<u8>, idx: int)
    requires
        0 <= idx,
    ensures
        0 <= newlines_before(bytes, idx) <= idx,
        0 <= last_newline_before(bytes, idx) <= idx,
        newlines_before(bytes, idx) == 0 ==> last_newline_before(bytes, idx) == 0,
        newlines_before(bytes, idx) > 0 ==> last_newline_before(bytes, idx) < idx,
        newlines_before(bytes, idx) > 0 ==> is_newline_at(
            bytes,
            last_newline_before(bytes, idx),
        ),
        0 <= line_start(bytes, idx) <= idx,
    decreases idx,
{
    if idx > 0 {
        lemma_line_start_bounds(bytes, idx - 1);
    }
}

/// The position of byte offset `idx` as a `Position`.
pub open spec fn position_at(bytes: Seq<u8>, idx: usize) -> Position {
    Position {
        line: position_of(bytes, idx as int).0 as usize,
        character: position_of(bytes, idx as int).1 as usize,
    }
}

/// The positions of the two ends of the byte range from `start` to `end`.
pub open spec fn range_at(bytes: Seq<u8>, start: usize, end: usize) -> Range {
    Range { start: position_at(bytes, start), end: position_at(bytes, end) }
}

/// Converts a byte offset into a line and a column. Only `\n` ends a line.
pub fn idx_to_position(s: &str, idx: usize) -> (pos: Position)
    ensures
        pos == position_at(s.spec_bytes(), idx),
        pos.line == position_of(s.spec_bytes(), idx as int).0,
        pos.character == position_of(s.spec_bytes(), idx as int).1,
{
    let (line, line_idx) = line_of_idx(s, idx);
    proof {
        lemma_line_start_bounds(s.spec_bytes(), idx as int);
    }
    let character: usize = if line == 0 {
        idx - line_idx
    } else {
        idx - (line_idx + 1)
    };
    Position { line, character }
}

/// Converts both ends of a half-open byte range. A range that does not end
/// before it starts gives positions in the same order.
pub fn range_to_positions(s: &str, r: core::ops::Range<usize>) -> (out: Range)
    ensures
        out == range_at(s.spec_bytes(), r.start, r.end),
        r.start <= r.end ==> position_le(out.start, out.end),
{
    proof {
        if r.start <= r.end {
            lemma_range_ordered(s.spec_bytes(), r.start, r.end);
        }
    }
    Range { start: idx_to_position(s, r.start), end: idx_to_position(s, r.end) }
}

/// The offset at which line `line` begins, scanning on from offset `from`;
/// the end of the text where it has fewer lines.
pub open spec fn line_offset(bytes: Seq<u8>, line: int, from: int) -> int
    decreases bytes.len() - from,
{
    if line <= 0 || from < 0 || from >= bytes.len() {
        from
    } else if bytes[from] == NEWLINE {
        line_offset(bytes, line - 1, from + 1)
    } else {
        line_offset(bytes, line, from + 1)
    }
}

/// The byte offset that a line and a column stand for: the inverse line scan.
pub open spec fn offset_of(bytes: Seq<u8>, line: int, character: int) -> int {
    line_offset(bytes, line, 0) + character
}

/// Scanning forward from `from` over the lines that lie between `from` and
/// `idx` arrives at the start of the line that holds `idx`.
proof fn lemma_line_offset_from(bytes: Seq<u8>, from: int, idx: int)
    requires
        0 <= from <= idx <= bytes.len(),
        from == 0 || is_newline_at(bytes, from - 1),
    ensures
        line_offset(bytes, newlines_before(bytes, idx) - newlines_before(bytes, from), from)
            == if newlines_before(bytes, idx) == newlines_before(bytes, from) {
            from
        } else {
            last_newline_before(bytes, idx) + 1
        },
        newlines_before(bytes, from) <= newlines_before(bytes, idx),
    decreases idx - from,
{
    lemma_newlines_monotone(bytes, from, idx);
    let remaining = newlines_before(bytes, idx) - newlines_before(bytes, from);
    if remaining > 0 {
        let next = first_newline_from(bytes, from, idx);
        lemma_first_newline_from(bytes, from, idx);
        lemma_line_offset_skips(bytes, remaining, from, next);
        lemma_line_offset_from(bytes, next + 1, idx);
        lemma_newlines_monotone(bytes, next + 1, idx);
    }
}

/// The first newline at or after `from`, `idx` where there is none before it.
spec fn first_newline_from(bytes: Seq<u8>, from: int, idx: int) -> int
    decreases idx - from,
{
    if from >= idx || is_newline_at(bytes, from) {
        from
    } else {
        first_newline_from(bytes, from + 1, idx)
    }
}

proof fn lemma_first_newline_from(bytes: Seq<u8>, from: int, idx: int)
    requires
        0 <= from <= idx <= bytes.len(),
        newlines_before(bytes, from) < newlines_before(bytes, idx),
    ensures
        from <= first_newline_from(bytes, from, idx) < idx,
        is_newline_at(bytes, first_newline_from(bytes, from, idx)),
        forall|k: int| from <= k < first_newline_from(bytes, from, idx) ==> !is_newline_at(bytes, k),
        newlines_before(bytes, first_newline_from(bytes, from, idx) + 1) == newlines_before(
            bytes,
            from,
        ) + 1,
    decreases idx - from,
{
    if from < idx && !is_newline_at(bytes, from) {
        lemma_first_newline_from(bytes, from + 1, idx);
    }
}

/// A forward scan passes over bytes that are no newline.
proof fn lemma_line_offset_skips(bytes: Seq<u8>, line: int, from: int, next: int)
    requires
        0 <= from <= next < bytes.len(),
        line > 0,
        is_newline_at(bytes, next),
        forall|k: int| from <= k < next ==> !is_newline_at(bytes, k),
    ensures
        line_offset(bytes, line, from) == line_offset(bytes, line - 1, next + 1),
    decreases next - from,
{
    if from < next {
        assert(!is_newline_at(bytes, from));
        lemma_line_offset_skips(bytes, line, from + 1, next);
    }
}

/// Later offsets have no fewer newlines before them.
pub proof fn lemma_newlines_monotone(bytes: Seq<u8>, a: int, b: int)
    requires
        a <= b,
    ensures
        newlines_before(bytes, a) <= newlines_before(bytes, b),
        newlines_before(bytes, a) == newlines_before(bytes, b) && 0 <= a ==> last_newline_before(
            bytes,
            a,
        ) == last_newline_before(bytes, b),
    decreases b - a,
{
    if a < b {
        lemma_newlines_monotone(bytes, a, b - 1);
    }
}

/// Positions keep the order of the offsets they come from: for offsets
/// `a <= b`, the position of `a` is not after the position of `b`.
pub proof fn lemma_positions_ordered(bytes: Seq<u8>, a: int, b: int)
    requires
        0 <= a <= b,
    ensures
        position_of(bytes, a).0 < position_of(bytes, b).0 || (position_of(bytes, a).0
            == position_of(bytes, b).0 && position_of(bytes, a).1 <= position_of(bytes, b).1),
{
    lemma_newlines_monotone(bytes, a, b);
}

/// The range of positions that a byte range is converted to does not end
/// before it starts.
pub proof fn lemma_range_ordered(bytes: Seq<u8>, start: usize, end: usize)
    requires
        start <= end,
    ensures
        position_le(range_at(bytes, start, end).start, range_at(bytes, start, end).end),
{
    lemma_positions_ordered(bytes, start as int, end as int);
    lemma_line_start_bounds(bytes, start as int);
    lemma_line_start_bounds(bytes, end as int);
}

/// The inverse line scan recovers every offset within the text from its
/// position, so a converted range stands for exactly the bytes it came from.
pub proof fn lemma_position_round_trip(bytes: Seq<u8>, idx: usize)
    requires
        idx <= bytes.len(),
    ensures
        offset_of(
            bytes,
            position_at(bytes, idx).line as int,
            position_at(bytes, idx).character as int,
        ) == idx,
{
    lemma_line_offset_from(bytes, 0, idx as int);
    lemma_line_start_bounds(bytes, idx as int);
}

/// A byte range within a text is converted to positions in the same order,
/// and the inverse line scan recovers both of its ends from them.
pub proof fn lemma_range_round_trip(bytes: Seq<u8>, start: usize, end: usize)
    requires
        start <= end <= bytes.len(),
    ensures
        position_le(range_at(bytes, start, end).start, range_at(bytes, start, end).end),
        offset_of(
            bytes,
            range_at(bytes, start, end).start.line as int,
            range_at(bytes, start, end).start.character as int,
        ) == start,
        offset_of(
            bytes,
            range_at(bytes, start, end).end.line as int,
            range_at(bytes, start, end).end.character as int,
        ) == end,
{
    lemma_range_ordered(bytes, start, end);
    lemma_position_round_trip(bytes, start);
    lemma_position_round_trip(bytes, end);
}

/// Whether `pos` lies within `range`, both ends included: a cursor that
/// stands right behind a token still counts as on it.
pub open spec fn range_contains(range: Range, pos: Position) -> bool {
    position_le(range.start, pos) && position_le(pos, range.end)
}

/// A value together with the place in the source text that it was read from.
#[derive(Debug)]
pub struct Span<T> {
    pub value: T,
    pub range: Range,
}

impl<T> Span<T> {
    /// A span is well formed when its range does not end before it starts.
    pub open spec fn wf(&self) -> bool {
        position_le(self.range.start, self.range.end)
    }

    /// A value with its place. The place may not end before it starts.
    pub fn new(value: T, range: Range) -> (span: Self)
        requires
            position_le(range.start, range.end),
        ensures
            span.value == value,
            span.range == range,
            span.wf(),
    {
        Self { value, range }
    }

    /// Tests whether the cursor is on this span. Rejects a position on
    /// another line than the span covers, one before the start on the first
    /// line, and one after the end on the last line.
    pub fn contains_pos(&self, pos: Position) -> (inside: bool)
        ensures
            inside == range_contains(self.range, pos),
    {
        let start = self.range.start;
        let end = self.range.end;
        !(pos.line < start.line || pos.line > end.line || (start.line == pos.line && pos.character
            < start.character) || (end.line == pos.line && pos.character > end.character))
    }
}

/// Both ends of a well-formed range are inside it; the column before its
/// start and the column after its end, on the same lines, are not.
pub proof fn lemma_contains_endpoints(range: Range)
    requires
        position_le(range.start, range.end),
    ensures
        range_contains(range, range.start),
        range_contains(range, range.end),
        range.start.character > 0 ==> !range_contains(
            range,
            (Position { line: range.start.line, character: (range.start.character - 1) as usize }),
        ),
        range.end.character < usize::MAX ==> !range_contains(
            range,
            (Position { line: range.end.line, character: (range.end.character + 1) as usize }),
        ),
{
}

/// What a `Span` holds, as a mathematical value.
pub struct SpanView<V> {
    pub value: V,
    pub range: Range,
}

impl<T: View> View for Span<T> {
    type V = SpanView<T::V>;

    open spec fn view(&self) -> SpanView<T::V> {
        SpanView { value: self.value@, range: self.range }
    }
}

/// A dependency that lives in a directory.
#[derive(Debug)]
pub struct LocalKind {
    pub path: Span<String>,
}

/// The place in a repository that a dependency is taken from.
#[derive(Debug)]
pub enum GitSpecifier {
    Branch(Span<String>),
    Tag(Span<String>),
    Rev(Span<String>),
}

/// A dependency that lives in a repository.
#[derive(Debug)]
pub struct GitKind {
    pub url: Span<String>,
    pub specifier: Option<GitSpecifier>,
}

/// Where a dependency comes from.
#[derive(Debug)]
pub enum Kind {
    /// Pull the dependency from the registry.
    Registry,
    Git(GitKind),
    Local(LocalKind),
}

/// What a `GitSpecifier` holds.
pub enum GitSpecifierView {
    Branch(SpanView<Seq<char>>),
    Tag(SpanView<Seq<char>>),
    Rev(SpanView<Seq<char>>),
}

/// What a `GitKind` holds.
pub struct GitKindView {
    pub url: SpanView<Seq<char>>,
    pub specifier: Option<GitSpecifierView>,
}

/// What a `Kind` holds.
pub enum KindView {
    Registry,
    Git(GitKindView),
    Local(SpanView<Seq<char>>),
}

impl View for GitSpecifier {
    type V = GitSpecifierView;

    open spec fn view(&self) -> GitSpecifierView {
        match *self {
            GitSpecifier::Branch(span) => GitSpecifierView::Branch(span@),
            GitSpecifier::Tag(span) => GitSpecifierView::Tag(span@),
            GitSpecifier::Rev(span) => GitSpecifierView::Rev(span@),
        }
    }
}

impl View for GitKind {
    type V = GitKindView;

    open spec fn view(&self) -> GitKindView {
        GitKindView {
            url: self.url@,
            specifier: match self.specifier {
                Some(specifier) => Some(specifier@),
                None => None,
            },
        }
    }
}

impl View for Kind {
    type V = KindView;

    open spec fn view(&self) -> KindView {
        match *self {
            Kind::Registry => KindView::Registry,
            Kind::Git(git) => KindView::Git(git@),
            Kind::Local(local) => KindView::Local(local.path@),
        }
    }
}

#[verifier::external_type_specification]
#[verifier::external_body]
pub struct ExVersionReq(semver::VersionReq);

/// The version requirement that a text stands for, if it stands for one.
pub uninterp spec fn requirement_of(text: Seq<char>) -> Option<semver::VersionReq>;

/// Parses a version requirement with `semver::VersionReq::parse`. The same
/// text gives the same requirement; a text that is none gives `None`.
#[verifier::external_body]
fn parse_requirement(text: &str) -> (req: Option<semver::VersionReq>)
    ensures
        req == requirement_of(text@),
{
    semver::VersionReq::parse(text).ok()
}

/// Compares two version requirements with `==` of `semver::VersionReq`,
/// which holds when they list the same comparators.
#[verifier::external_body]
fn same_requirement(a: &semver::VersionReq, b: &semver::VersionReq) -> (same: bool)
    ensures
        same == (*a == *b),
{
    a == b
}

/// Whether `requirement` is what the text `version` stands for when it is
/// read as a requirement.
pub open spec fn names_version(requirement: Option<semver::VersionReq>, version: Seq<char>) -> bool {
    requirement is Some && requirement == requirement_of(version)
}

/// Tests whether a declared requirement names exactly the version `version`.
pub fn requires_version(requirement: &Option<semver::VersionReq>, version: &str) -> (exact: bool)
    ensures
        exact == names_version(*requirement, version@),
{
    match requirement {
        Some(declared) => match parse_requirement(version) {
            Some(wanted) => same_requirement(declared, &wanted),
            None => false,
        },
        None => false,
    }
}

/// One declared dependency.
#[derive(Debug)]
pub struct Dependency {
    pub kind: Kind,
    pub name: Span<String>,
    pub version: Option<Span<Option<semver::VersionReq>>>,
    pub features: Option<Vec<Span<String>>>,
}

/// What a `Dependency` holds.
pub struct DependencyView {
    pub kind: KindView,
    pub name: SpanView<Seq<char>>,
    pub version: Option<SpanView<Option<semver::VersionReq>>>,
    pub features: Option<Seq<SpanView<Seq<char>>>>,
}

/// What a list of spans holds.
pub open spec fn span_views(spans: Seq<Span<String>>) -> Seq<SpanView<Seq<char>>> {
    Seq::new(spans.len(), |i: int| spans[i]@)
}

impl View for Dependency {
    type V = DependencyView;

    open spec fn view(&self) -> DependencyView {
        DependencyView {
            kind: self.kind@,
            name: self.name@,
            version: match self.version {
                Some(version) => Some(version@),
                None => None,
            },
            features: match self.features {
                Some(features) => Some(span_views(features@)),
                None => None,
            },
        }
    }
}

/// The positions that a range of byte offsets covers.
pub open spec fn located(bytes: Seq<u8>, span: TextSpan) -> Range {
    range_at(bytes, span.spec_start(), span.spec_end())
}

/// A string with its place, if it has a place in the source text.
pub open spec fn text_span(bytes: Seq<u8>, text: TextView) -> Option<SpanView<Seq<char>>> {
    match text.range {
        Some(range) => Some(SpanView { value: text.value, range: located(bytes, range) }),
        None => None,
    }
}

/// The string that `node` binds `name` to, with its place.
pub open spec fn field_span(bytes: Seq<u8>, node: ValueView, name: Seq<char>) -> Option<
    SpanView<Seq<char>>,
> {
    match text_field(node, name) {
        Some(text) => text_span(bytes, text),
        None => None,
    }
}

/// The name of a dependency: the key as written, if it has a place.
pub open spec fn name_of(bytes: Seq<u8>, key: NameView) -> Option<SpanView<Seq<char>>> {
    match key.range {
        Some(range) => Some(SpanView { value: key.text, range: located(bytes, range) }),
        None => None,
    }
}

/// The string that declares the version: the value itself where it is a
/// string, else what a table binds `version` to.
pub open spec fn version_text(node: ValueView) -> Option<TextView> {
    match node {
        ValueView::Text(text) => Some(text),
        _ => text_field(node, "version"@),
    }
}

/// The declared version requirement. A text that is no requirement keeps
/// its place and has no value.
pub open spec fn version_of(bytes: Seq<u8>, node: ValueView) -> Option<
    SpanView<Option<semver::VersionReq>>,
> {
    match version_text(node) {
        Some(text) => match text.range {
            Some(range) => Some(
                SpanView { value: requirement_of(text.value), range: located(bytes, range) },
            ),
            None => None,
        },
        None => None,
    }
}

/// An item of a feature list: a string with a place.
pub open spec fn feature_of(bytes: Seq<u8>, item: ValueView) -> Option<SpanView<Seq<char>>> {
    match item {
        ValueView::Text(text) => text_span(bytes, text),
        _ => None,
    }
}

/// The features among `items`, in their order.
pub open spec fn features_in(bytes: Seq<u8>, items: Seq<ValueView>) -> Seq<SpanView<Seq<char>>>
    decreases items.len(),
{
    if items.len() == 0 {
        Seq::empty()
    } else {
        match feature_of(bytes, items.last()) {
            Some(feature) => features_in(bytes, items.drop_last()).push(feature),
            None => features_in(bytes, items.drop_last()),
        }
    }
}

/// The listed features, where a table binds `features` to an array.
pub open spec fn features_of(bytes: Seq<u8>, node: ValueView) -> Option<Seq<SpanView<Seq<char>>>> {
    match field(node, "features"@) {
        Some(ValueView::Array(items)) => Some(features_in(bytes, items)),
        _ => None,
    }
}

/// What a repository dependency names besides its address: a revision
/// before a branch, and a branch before a tag.
pub open spec fn git_specifier_of(bytes: Seq<u8>, node: ValueView) -> Option<GitSpecifierView> {
    match field_span(bytes, node, "rev"@) {
        Some(rev) => Some(GitSpecifierView::Rev(rev)),
        None => match field_span(bytes, node, "branch"@) {
            Some(branch) => Some(GitSpecifierView::Branch(branch)),
            None => match field_span(bytes, node, "tag"@) {
                Some(tag) => Some(GitSpecifierView::Tag(tag)),
                None => None,
            },
        },
    }
}

/// The repository of a dependency whose table binds `git` to a string.
pub open spec fn git_of(bytes: Seq<u8>, node: ValueView) -> Option<GitKindView> {
    match field_span(bytes, node, "git"@) {
        Some(url) => Some(GitKindView { url, specifier: git_specifier_of(bytes, node) }),
        None => None,
    }
}

/// Where a dependency comes from: a directory where its table binds `path`,
/// else a repository where it binds `git`, else the registry.
pub open spec fn kind_of(bytes: Seq<u8>, node: ValueView) -> KindView {
    match field_span(bytes, node, "path"@) {
        Some(path) => KindView::Local(path),
        None => match git_of(bytes, node) {
            Some(git) => KindView::Git(git),
            None => KindView::Registry,
        },
    }
}

/// The dependency that an entry declares. Only an entry whose key has no
/// place declares none.
pub open spec fn dependency_of(bytes: Seq<u8>, key: NameView, node: ValueView) -> Option<DependencyView> {
    match name_of(bytes, key) {
        Some(name) => Some(
            DependencyView {
                kind: kind_of(bytes, node),
                name,
                version: version_of(bytes, node),
                features: features_of(bytes, node),
            },
        ),
        None => None,
    }
}

/// Converts a range of byte offsets into positions.
pub fn locate(s: &str, span: &TextSpan) -> (range: Range)
    ensures
        range == located(s.spec_bytes(), *span),
        position_le(range.start, range.end),
{
    let start = span.start();
    let end = span.end();
    range_to_positions(s, start..end)
}

impl Span<String> {
    /// A string of the document together with its place; `None` for a
    /// string that has no place in the source text.
    pub fn parse(string: &Text, s: &str) -> (span: Option<Span<String>>)
        ensures
            match text_span(s.spec_bytes(), string@) {
                Some(view) => span matches Some(found) && found@ == view && found.wf(),
                None => span is None,
            },
    {
        match &string.range {
            Some(range) => {
                let value = string.value.clone();
                Some(Span::new(value, locate(s, range)))
            },
            None => None,
        }
    }
}

impl Kind {
    /// Every span of this kind is well formed.
    pub open spec fn wf(&self) -> bool {
        match *self {
            Kind::Registry => true,
            Kind::Git(git) => git.url.wf() && match git.specifier {
                Some(GitSpecifier::Branch(span)) => span.wf(),
                Some(GitSpecifier::Tag(span)) => span.wf(),
                Some(GitSpecifier::Rev(span)) => span.wf(),
                None => true,
            },
            Kind::Local(local) => local.path.wf(),
        }
    }
}

impl Dependency {
    /// Every span of this dependency is well formed.
    pub open spec fn wf(&self) -> bool {
        &&& self.kind.wf()
        &&& self.name.wf()
        &&& self.version matches Some(version) ==> version.wf()
        &&& self.features matches Some(features) ==> forall|i: int|
            0 <= i < features.len() ==> (#[trigger] features[i]).wf()
    }

    /// The string that a table binds `name` to, with its place.
    fn parse_field(node: &Value, name: &str, s: &str) -> (span: Option<Span<String>>)
        ensures
            match field_span(s.spec_bytes(), node@, name@) {
                Some(view) => span matches Some(found) && found@ == view && found.wf(),
                None => span is None,
            },
    {
        match node.get_text(name) {
            Some(text) => Span::parse(text, s),
            None => None,
        }
    }

    fn parse_specifier(node: &Value, s: &str) -> (specifier: Option<GitSpecifier>)
        ensures
            match git_specifier_of(s.spec_bytes(), node@) {
                Some(view) => specifier matches Some(found) && found@ == view,
                None => specifier is None,
            },
            specifier matches Some(GitSpecifier::Branch(span)) ==> span.wf(),
            specifier matches Some(GitSpecifier::Tag(span)) ==> span.wf(),
            specifier matches Some(GitSpecifier::Rev(span)) ==> span.wf(),
    {
        if let Some(rev) = Self::parse_field(node, "rev", s) {
            Some(GitSpecifier::Rev(rev))
        } else if let Some(branch) = Self::parse_field(node, "branch", s) {
            Some(GitSpecifier::Branch(branch))
        } else if let Some(tag) = Self::parse_field(node, "tag", s) {
            Some(GitSpecifier::Tag(tag))
        } else {
            None
        }
    }

    fn parse_git(node: &Value, s: &str) -> (git: Option<GitKind>)
        ensures
            match git_of(s.spec_bytes(), node@) {
                Some(view) => git matches Some(found) && found@ == view && Kind::Git(found).wf(),
                None => git is None,
            },
    {
        match Self::parse_field(node, "git", s) {
            Some(url) => Some(GitKind { url, specifier: Self::parse_specifier(node, s) }),
            None => None,
        }
    }

    fn parse_local(node: &Value, s: &str) -> (local: Option<LocalKind>)
        ensures
            match field_span(s.spec_bytes(), node@, "path"@) {
                Some(view) => local matches Some(found) && found.path@ == view && found.path.wf(),
                None => local is None,
            },
    {
        match Self::parse_field(node, "path", s) {
            Some(path) => Some(LocalKind { path }),
            None => None,
        }
    }

    fn parse_kind(node: &Value, s: &str) -> (kind: Kind)
        ensures
            kind@ == kind_of(s.spec_bytes(), node@),
            kind.wf(),
    {
        match Self::parse_local(node, s) {
            Some(local) => Kind::Local(local),
            None => match Self::parse_git(node, s) {
                Some(git) => Kind::Git(git),
                None => Kind::Registry,
            },
        }
    }

    fn parse_version(node: &Value, s: &str) -> (version: Option<Span<Option<semver::VersionReq>>>)
        ensures
            match version_of(s.spec_bytes(), node@) {
                Some(view) => version matches Some(found) && found@ == view && found.wf(),
                None => version is None,
            },
    {
        let text = match node {
            Value::Text(text) => Some(text),
            _ => node.get_text("version"),
        };
        match text {
            Some(text) => match &text.range {
                Some(range) => {
                    let value = parse_requirement(text.value.as_str());
                    Some(Span::new(value, locate(s, range)))
                },
                None => None,
            },
            None => None,
        }
    }

    fn parse_features(node: &Value, s: &str) -> (features: Option<Vec<Span<String>>>)
        ensures
            match features_of(s.spec_bytes(), node@) {
                Some(view) => features matches Some(found) && span_views(found@) == view
                    && forall|i: int| 0 <= i < found.len() ==> (#[trigger] found[i]).wf(),
                None => features is None,
            },
    {
        let list = match node.get("features") {
            Some(list) => list,
            None => {
                return None;
            },
        };
        match list {
            Value::Array(items) => {
                let ghost views = list@->Array_0;
                let mut found: Vec<Span<String>> = Vec::new();
                let mut i: usize = 0;
                while i < items.len()
                    invariant
                        i <= items.len(),
                        views.len() == items.len(),
                        forall|k: int| 0 <= k < items.len() ==> (#[trigger] views[k]) == items[k]@,
                        span_views(found@) =~= features_in(s.spec_bytes(), views.take(i as int)),
                        forall|k: int| 0 <= k < found.len() ==> (#[trigger] found[k]).wf(),
                    decreases items.len() - i,
                {
                    assert(views.take(i + 1).drop_last() =~= views.take(i as int));
                    if let Value::Text(text) = &items[i] {
                        if let Some(span) = Span::parse(text, s) {
                            found.push(span);
                        }
                    }
                    i = i + 1;
                }
                assert(views.take(i as int) =~= views);
                Some(found)
            },
            _ => None,
        }
    }

    fn parse_name(key: &Name, s: &str) -> (name: Option<Span<String>>)
        ensures
            match name_of(s.spec_bytes(), key@) {
                Some(view) => name matches Some(found) && found@ == view && found.wf(),
                None => name is None,
            },
    {
        match &key.range {
            Some(range) => {
                let value = key.text.clone();
                Some(Span::new(value, locate(s, range)))
            },
            None => None,
        }
    }

    /// Reads the dependency that the entry `key = node` of a dependency
    /// table declares. Fails only for a key that has no place in the text.
    pub fn parse(s: &str, key: &Name, node: &Value) -> (parsed: Result<Self, Error>)
        ensures
            match dependency_of(s.spec_bytes(), key@, node@) {
                Some(view) => parsed matches Ok(dependency) && dependency@ == view
                    && dependency.wf(),
                None => parsed is Err,
            },
    {
        let name = match Self::parse_name(key, s) {
            Some(name) => name,
            None => {
                return Err(Error::Parse);
            },
        };
        let version = Self::parse_version(node, s);
        let features = Self::parse_features(node, s);
        let kind = Self::parse_kind(node, s);
        Ok(Self { name, kind, version, features })
    }
}

/// What a list of dependencies holds.
pub open spec fn dependency_views(dependencies: Seq<Dependency>) -> Seq<DependencyView> {
    Seq::new(dependencies.len(), |i: int| dependencies[i]@)
}

/// The dependencies that the entries of one table declare, in their order.
/// An entry that declares none is passed over.
pub open spec fn dependencies_in(bytes: Seq<u8>, entries: Seq<EntryView>) -> Seq<DependencyView>
    decreases entries.len(),
{
    if entries.len() == 0 {
        Seq::empty()
    } else {
        let front = dependencies_in(bytes, entries.drop_last());
        match dependency_of(bytes, entries.last().key, entries.last().node) {
            Some(dependency) => front.push(dependency),
            None => front,
        }
    }
}

/// The dependencies of the top-level table `name`; none where the document
/// has no such table.
pub open spec fn section_of(bytes: Seq<u8>, root: ValueView, name: Seq<char>) -> Seq<
    DependencyView,
> {
    match field(root, name) {
        Some(ValueView::Table(entries)) => dependencies_in(bytes, entries),
        _ => Seq::empty(),
    }
}

/// All dependencies of a manifest: those of `dependencies`, then those of
/// `dev-dependencies`, then those of `build-dependencies`. A name that
/// several tables declare occurs once for each.
pub open spec fn dependencies_of(bytes: Seq<u8>, root: ValueView) -> Seq<DependencyView> {
    section_of(bytes, root, DEPENDENCIES_KEYS[0]@) + section_of(bytes, root, DEPENDENCIES_KEYS[1]@)
        + section_of(bytes, root, DEPENDENCIES_KEYS[2]@)
}

/// Every dependency of the list is well formed.
pub open spec fn all_wf(dependencies: Seq<Dependency>) -> bool {
    forall|i: int| 0 <= i < dependencies.len() ==> (#[trigger] dependencies[i]).wf()
}

/// Appends to `found` the dependencies that the top-level table `name`
/// declares.
fn parse_section(doc: &str, root: &Value, name: &str, found: &mut Vec<Dependency>)
    requires
        all_wf(old(found)@),
    ensures
        dependency_views(final(found)@) == dependency_views(old(found)@) + section_of(
            doc.spec_bytes(),
            root@,
            name@,
        ),
        all_wf(final(found)@),
{
    let ghost before = dependency_views(found@);
    let table = match root.get(name) {
        Some(table) => table,
        None => {
            return ;
        },
    };
    if let Value::Table(entries) = table {
        let ghost views = table@->Table_0;
        let mut i: usize = 0;
        while i < entries.len()
            invariant
                i <= entries.len(),
                views.len() == entries.len(),
                forall|k: int| 0 <= k < entries.len() ==> (#[trigger] views[k]) == entries[k]@,
                dependency_views(found@) =~= before + dependencies_in(
                    doc.spec_bytes(),
                    views.take(i as int),
                ),
                all_wf(found@),
            decreases entries.len() - i,
        {
            let ghost so_far = dependency_views(found@);
            assert(views.take(i + 1).drop_last() =~= views.take(i as int));
            let entry = &entries[i];
            if let Ok(dependency) = Dependency::parse(doc, &entry.key, &entry.node) {
                found.push(dependency);
                assert(dependency_views(found@) =~= so_far.push(dependency@));
            }
            i = i + 1;
        }
        assert(views.take(i as int) =~= views);
    }
}

/// Reads the dependencies out of a parsed manifest. Never fails: what
/// cannot be read as a dependency is passed over.
pub fn parse_document(doc: &str, root: &Value) -> (dependencies: Vec<Dependency>)
    ensures
        dependency_views(dependencies@) == dependencies_of(doc.spec_bytes(), root@),
        all_wf(dependencies@),
{
    let mut found: Vec<Dependency> = Vec::new();
    parse_section(doc, root, DEPENDENCIES_KEYS[0], &mut found);
    parse_section(doc, root, DEPENDENCIES_KEYS[1], &mut found);
    parse_section(doc, root, DEPENDENCIES_KEYS[2], &mut found);
    found
}

/// The dependencies that a manifest text declares. A text that is too long
/// for the TOML parser declares none that can be read.
pub open spec fn manifest_dependencies(text: Seq<char>, bytes: Seq<u8>) -> Seq<DependencyView> {
    if bytes.len() <= MAX_TEXT_LEN {
        dependencies_of(bytes, manifest_tree(text))
    } else {
        Seq::empty()
    }
}

/// Parses a manifest and reads its dependencies.
pub fn parse_manifest(doc: &str) -> (dependencies: Vec<Dependency>)
    ensures
        dependency_views(dependencies@) == manifest_dependencies(doc@, doc.spec_bytes()),
        all_wf(dependencies@),
{
    if doc.as_bytes().len() <= MAX_TEXT_LEN {
        let root = parse_toml(doc);
        parse_document(doc, &root)
    } else {
        let none: Vec<Dependency> = Vec::new();
        none
    }
}

} // verus!
