//! The document tree of a manifest, as plain values: what the TOML parser
//! found, kept in the shape that the dependency parser reads.

use vstd::prelude::*;
use vstd::string::StringSliceAdditionalSpecFns;

verus! {

/// A half-open range of byte offsets in the source text.
#[derive(Clone, Copy, Debug, PartialEq, Eq)]
pub struct TextSpan {
    start: usize,
    end: usize,
}

impl TextSpan {
    #[verifier::type_invariant]
    spec fn ordered(self) -> bool {
        self.start <= self.end
    }

    /// The offset of the first byte.
    pub closed spec fn spec_start(&self) -> usize {
        self.start
    }

    /// The offset behind the last byte.
    pub closed spec fn spec_end(&self) -> usize {
        self.end
    }

    /// The range from `start` to `end`, unless it would end before it starts.
    pub fn new(start: usize, end: usize) -> (span: Option<Self>)
        ensures
            span is Some <==> start <= end,
            span matches Some(s) ==> s.spec_start() == start && s.spec_end() == end,
    {
        if start <= end {
            Some(Self { start, end })
        } else {
            None
        }
    }

    #[verifier::when_used_as_spec(spec_start)]
    pub fn start(&self) -> (start: usize)
        ensures
            start == self.spec_start(),
            start <= self.spec_end(),
    {
        proof {
            use_type_invariant(self);
        }
        self.start
    }

    #[verifier::when_used_as_spec(spec_end)]
    pub fn end(&self) -> (end: usize)
        ensures
            end == self.spec_end(),
            self.spec_start() <= end,
    {
        proof {
            use_type_invariant(self);
        }
        self.end
    }
}

/// The key of a table entry.
#[derive(Debug)]
pub struct Name {
    /// The key as it is written in the source, quotes included.
    pub text: String,
    /// The key with its quotes removed and its escapes resolved.
    pub value: String,
    /// Whether the key is one that a lookup can find.
    pub valid: bool,
    /// Where the key is written; the first place, if it occurs more than once.
    pub range: Option<TextSpan>,
}

/// A string value.
#[derive(Debug)]
pub struct Text {
    /// The string with its quotes removed and its escapes resolved.
    pub value: String,
    /// Where the string is written, quotes included.
    pub range: Option<TextSpan>,
}

/// A key and the value that it is bound to.
#[derive(Debug)]
pub struct Entry {
    pub key: Name,
    pub node: Value,
}

/// A value in a manifest.
#[derive(Debug)]
pub enum Value {
    Text(Text),
    /// The entries of a table, in the order of the document.
    Table(Vec<Entry>),
    Array(Vec<Value>),
    /// A value of a kind that no dependency is declared with.
    Other,
}

/// What a `Name` holds.
pub struct NameView {
    pub text: Seq<char>,
    pub value: Seq<char>,
    pub valid: bool,
    pub range: Option<TextSpan>,
}

/// What a `Text` holds.
pub struct TextView {
    pub value: Seq<char>,
    pub range: Option<TextSpan>,
}

/// What an `Entry` holds.
pub struct EntryView {
    pub key: NameView,
    pub node: ValueView,
}

/// What a `Value` holds, and all below it.
pub enum ValueView {
    Text(TextView),
    Table(Seq<EntryView>),
    Array(Seq<ValueView>),
    Other,
}

impl View for Name {
    type V = NameView;

    open spec fn view(&self) -> NameView {
        NameView { text: self.text@, value: self.value@, valid: self.valid, range: self.range }
    }
}

impl View for Text {
    type V = TextView;

    open spec fn view(&self) -> TextView {
        TextView { value: self.value@, range: self.range }
    }
}

/// What a value holds, and all below it.
pub open spec fn value_view(value: Value) -> ValueView
    decreases value,
{
    match value {
        Value::Text(text) => ValueView::Text(text@),
        Value::Table(entries) => ValueView::Table(
            Seq::new(
                entries.len() as nat,
                |i: int|
                    if 0 <= i < entries.len() {
                        EntryView { key: entries[i].key@, node: value_view(entries[i].node) }
                    } else {
                        arbitrary()
                    },
            ),
        ),
        Value::Array(items) => ValueView::Array(
            Seq::new(
                items.len() as nat,
                |i: int|
                    if 0 <= i < items.len() {
                        value_view(items[i])
                    } else {
                        arbitrary()
                    },
            ),
        ),
        Value::Other => ValueView::Other,
    }
}

impl View for Value {
    type V = ValueView;

    open spec fn view(&self) -> ValueView {
        value_view(*self)
    }
}

impl View for Entry {
    type V = EntryView;

    open spec fn view(&self) -> EntryView {
        EntryView { key: self.key@, node: self.node@ }
    }
}

/// Whether a lookup of `name` can be answered by `entry`.
pub open spec fn answers(entry: EntryView, name: Seq<char>) -> bool {
    entry.key.valid && entry.key.value == name
}

/// The index of the entry that a lookup of `name` finds: where a table
/// binds a key more than once, the last binding.
pub open spec fn lookup(entries: Seq<EntryView>, name: Seq<char>) -> Option<int>
    decreases entries.len(),
{
    if entries.len() == 0 {
        None
    } else if answers(entries.last(), name) {
        Some(entries.len() - 1)
    } else {
        lookup(entries.drop_last(), name)
    }
}

/// The value that `node` binds `name` to, if `node` is a table that binds it.
pub open spec fn field(node: ValueView, name: Seq<char>) -> Option<ValueView> {
    match node {
        ValueView::Table(entries) => match lookup(entries, name) {
            Some(i) => Some(entries[i].node),
            None => None,
        },
        _ => None,
    }
}

/// The string that `node` binds `name` to, if it binds it to a string.
pub open spec fn text_field(node: ValueView, name: Seq<char>) -> Option<TextView> {
    match field(node, name) {
        Some(ValueView::Text(text)) => Some(text),
        _ => None,
    }
}

impl Value {
    /// Looks `name` up in a table.
    pub fn get(&self, name: &str) -> (found: Option<&Value>)
        ensures
            match field(self@, name@) {
                Some(value) => found matches Some(bound) && bound@ == value,
                None => found is None,
            },
    {
        match self {
            Value::Table(entries) => {
                let ghost views = self@->Table_0;
                let wanted = name.to_owned();
                let mut i: usize = entries.len();
                assert(views.take(i as int) =~= views);
                while i > 0
                    invariant
                        i <= entries.len(),
                        wanted@ == name@,
                        self@ == ValueView::Table(views),
                        views.len() == entries.len(),
                        forall|k: int| 0 <= k < entries.len() ==> (#[trigger] views[k]) == entries[k]@,
                        lookup(views, name@) == lookup(views.take(i as int), name@),
                    decreases i,
                {
                    let ghost front = views.take(i as int);
                    i = i - 1;
                    let entry = &entries[i];
                    assert(front.drop_last() =~= views.take(i as int));
                    if entry.key.valid && entry.key.value == wanted {
                        return Some(&entry.node);
                    }
                }
                None
            },
            _ => None,
        }
    }

    /// Looks up the string that a table binds `name` to.
    pub fn get_text(&self, name: &str) -> (found: Option<&Text>)
        ensures
            match text_field(self@, name@) {
                Some(text) => found matches Some(bound) && bound@ == text,
                None => found is None,
            },
    {
        match self.get(name) {
            Some(Value::Text(text)) => Some(text),
            _ => None,
        }
    }
}

#[verifier::external_type_specification]
#[verifier::external_body]
pub struct ExTextRange(taplo::rowan::TextRange);

#[verifier::external_type_specification]
#[verifier::external_body]
pub struct ExDomKey(taplo::dom::node::Key);

#[verifier::external_type_specification]
#[verifier::external_body]
pub struct ExDomStr(taplo::dom::node::Str);

#[verifier::external_type_specification]
#[verifier::external_body]
pub struct ExDomNode(taplo::dom::Node);

/// The longest text, in bytes, that the TOML parser takes: it counts
/// offsets in 32 bits.
pub const MAX_TEXT_LEN: usize = 4294967295;

/// The tree that the TOML parser builds from a text.
pub uninterp spec fn manifest_tree(text: Seq<char>) -> ValueView;

/// Reads the two ends of a `rowan::TextRange` with its `start` and `end`.
/// Such a range never ends before it starts.
#[verifier::external_body]
pub fn text_range_to_range(text_range: taplo::rowan::TextRange) -> (span: TextSpan) {
    TextSpan { start: usize::from(text_range.start()), end: usize::from(text_range.end()) }
}

/// Copies out of a `taplo::dom::node::Key` its text (`Display`), its value
/// (`value`), the first of its places (`text_ranges`), and whether it equals
/// itself (`==`), which an invalid key does not.
#[verifier::external_body]
fn key_from(key: &taplo::dom::node::Key) -> Name {
    Name {
        text: key.to_string(),
        value: key.value().to_owned(),
        valid: key == key,
        range: key.text_ranges().next().map(text_range_to_range),
    }
}

/// Copies out of a `taplo::dom::node::Str` its value (`value`) and its place
/// (`syntax`, `text_range`).
#[verifier::external_body]
fn str_from(string: &taplo::dom::node::Str) -> Text {
    Text {
        value: string.value().to_owned(),
        range: taplo::dom::node::DomNode::syntax(string).map(|s| text_range_to_range(s.text_range())),
    }
}

/// Copies a `taplo::dom::Node` and all below it: the entries of a table
/// (`entries`) and the items of an array (`items`) in their order.
#[verifier::external_body]
fn node_from(node: &taplo::dom::Node) -> Value {
    match node {
        taplo::dom::Node::Str(s) => Value::Text(str_from(s)),
        taplo::dom::Node::Table(t) => Value::Table(
            t.entries().read().iter().map(|(k, n)| Entry { key: key_from(k), node: node_from(n) }).collect(),
        ),
        taplo::dom::Node::Array(a) => Value::Array(a.items().read().iter().map(node_from).collect()),
        _ => Value::Other,
    }
}

/// Parses a TOML text with `taplo::parser::parse` and turns the result into
/// a tree with `into_dom`. The parser accepts every text whose offsets it
/// can count: what it cannot read becomes part of the tree. The same text
/// gives the same tree.
#[verifier::external_body]
pub(crate) fn parse_toml(text: &str) -> (tree: Value)
    requires
        text.spec_bytes().len() <= MAX_TEXT_LEN,
    ensures
        tree@ == manifest_tree(text@),
{
    node_from(&taplo::parser::parse(text).into_dom())
}

} // verus!
