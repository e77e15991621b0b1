//! Texts shown to the user: hovers and completion labels.

use crate::crates::decimal;
use crate::crates::decimal_string;
use crate::crates::triple_text;
use crate::crates::version_text;
use crate::crates::FeaturesView;
use crate::crates::Latest;
use crate::crates::LatestView;
use crate::crates::VersionView;
use crate::map::key_texts;
use crate::map::list_texts;
use crate::parse::span_views;
use crate::parse::Dependency;
use crate::parse::DependencyView;
use crate::parse::SpanView;
use vstd::prelude::*;
use vstd::string::StringExecFns;

verus! {

/// The items of `items` from index `from` on, with `sep` between neighbours.
pub open spec fn joined_from(items: Seq<Seq<char>>, sep: Seq<char>, from: int) -> Seq<char>
    decreases items.len() - from,
{
    if from < 0 || from >= items.len() {
        Seq::empty()
    } else if from == items.len() - 1 {
        items[from]
    } else {
        items[from] + sep + joined_from(items, sep, from + 1)
    }
}

/// All of `items` with `sep` between neighbours.
pub open spec fn joined(items: Seq<Seq<char>>, sep: Seq<char>) -> Seq<char> {
    joined_from(items, sep, 0)
}

/// The texts that a slice of strings holds.
pub open spec fn texts(items: Seq<String>) -> Seq<Seq<char>> {
    key_texts(items)
}

/// A list in brackets: `[ a, b, c ]`.
pub open spec fn bracketed(items: Seq<Seq<char>>) -> Seq<char> {
    "[ "@ + joined(items, ", "@) + " ]"@
}

/// Joins `items` with `sep` between neighbours.
pub fn join(items: &[String], sep: &str) -> (out: String)
    ensures
        out@ == joined(texts(items@), sep@),
{
    let ghost all = texts(items@);
    let mut out = String::new();
    let mut i: usize = items.len();
    while i > 0
        invariant
            i <= items.len(),
            all == texts(items@),
            out@ == joined_from(all, sep@, i as int),
        decreases i,
    {
        i = i - 1;
        let mut next = items[i].clone();
        if i + 1 < items.len() {
            next.append(sep);
            next.append(out.as_str());
        }
        out = next;
    }
    out
}

/// Formats a list of names as `[ a, b, c ]`.
pub fn format_vec(vec: &[String]) -> (out: String)
    ensures
        out@ == bracketed(texts(vec@)),
{
    let mut out = String::from_str("[ ");
    let inner = join(vec, ", ");
    out.append(inner.as_str());
    out.append(" ]");
    out
}

/// The hover text of a feature: its name, an empty line, and what it enables.
pub open spec fn feature_hover(feature: Seq<char>, enables: Seq<Seq<char>>) -> Seq<char> {
    feature + "\n\n"@ + bracketed(enables)
}

/// Formats the hover shown on a feature of a dependency.
pub fn format_feature_hover(feature: &str, feature_description: &[String]) -> (out: String)
    ensures
        out@ == feature_hover(feature@, texts(feature_description@)),
{
    let mut out = String::from_str(feature);
    out.append("\n\n");
    let list = format_vec(feature_description);
    out.append(list.as_str());
    out
}

/// The names of the features, in brackets, where there is anything to show.
pub open spec fn feature_list(features: Option<FeaturesView>) -> Seq<char> {
    match features {
        Some(map) => if joined(map.names, ", "@).len() > 0 {
            "\n\n"@ + bracketed(map.names)
        } else {
            Seq::empty()
        },
        None => Seq::empty(),
    }
}

/// The hover text of a dependency's name: the name with the latest version,
/// then the names of its features, then its description, each part that
/// there is set off by an empty line.
pub open spec fn name_hover(name: Seq<char>, latest: LatestView) -> Seq<char> {
    name + ": "@ + version_text(latest.version) + feature_list(latest.features) + match latest.description {
        Some(description) => "\n\n"@ + description,
        None => Seq::empty(),
    }
}

/// Formats the hover shown on the name of a dependency.
pub fn format_name_hover(name: &str, latest: Latest) -> (out: String)
    requires
        latest.wf(),
    ensures
        out@ == name_hover(name@, latest@),
{
    let mut out = String::from_str(name);
    out.append(": ");
    out.append(latest.version.to_string().as_str());
    if let Some(map) = &latest.features {
        let listed = join(map.names().as_slice(), ", ");
        if !listed.as_str().is_empty() {
            out.append("\n\n");
            out.append("[ ");
            out.append(listed.as_str());
            out.append(" ]");
        }
    }
    if let Some(description) = &latest.description {
        out.append("\n\n");
        out.append(description.as_str());
    }
    out
}

/// A proposal for what may be written at the cursor.
#[derive(Debug)]
pub struct CompletionItem {
    pub label: String,
    pub detail: String,
}

/// What a `CompletionItem` holds.
pub struct CompletionItemView {
    pub label: Seq<char>,
    pub detail: Seq<char>,
}

impl View for CompletionItem {
    type V = CompletionItemView;

    open spec fn view(&self) -> CompletionItemView {
        CompletionItemView { label: self.label@, detail: self.detail@ }
    }
}

impl CompletionItem {
    /// A proposal with its text and a word on what it is.
    pub fn new_simple(label: String, detail: String) -> (item: Self)
        ensures
            item.label == label,
            item.detail == detail,
    {
        CompletionItem { label, detail }
    }
}

/// What a list of proposals holds.
pub open spec fn item_views(items: Seq<CompletionItem>) -> Seq<CompletionItemView> {
    Seq::new(items.len(), |i: int| items[i]@)
}

/// The versions proposed for a requirement: the latest version to its
/// patch, to its minor and to its major number; before them the whole
/// version, where it has a pre-release or a build.
pub open spec fn version_items(version: VersionView) -> Seq<CompletionItemView> {
    let plain = seq![
        CompletionItemView {
            label: triple_text(version.major, version.minor, version.patch),
            detail: "patch"@,
        },
        CompletionItemView {
            label: decimal(version.major as nat) + "."@ + decimal(version.minor as nat),
            detail: "minor"@,
        },
        CompletionItemView { label: decimal(version.major as nat), detail: "major"@ },
    ];
    if version.pre.len() == 0 && version.build.len() == 0 {
        plain
    } else {
        seq![CompletionItemView { label: version_text(version), detail: "latest"@ }] + plain
    }
}

/// Proposes versions for the requirement of a dependency.
pub fn version_completions(latest: Latest) -> (items: Vec<CompletionItem>)
    ensures
        item_views(items@) == version_items(latest@.version),
{
    let version = latest.version;
    let mut items: Vec<CompletionItem> = Vec::new();
    if !(version.pre.as_str().is_empty() && version.build.as_str().is_empty()) {
        items.push(CompletionItem::new_simple(version.to_string(), String::from_str("latest")));
    }
    let major = decimal_string(version.major);
    let mut minor = decimal_string(version.major);
    minor.append(".");
    minor.append(decimal_string(version.minor).as_str());
    let mut patch = minor.clone();
    patch.append(".");
    patch.append(decimal_string(version.patch).as_str());
    items.push(CompletionItem::new_simple(patch, String::from_str("patch")));
    items.push(CompletionItem::new_simple(minor, String::from_str("minor")));
    items.push(CompletionItem::new_simple(major, String::from_str("major")));
    items
}

/// Whether the dependency lists the feature `name` already.
pub open spec fn is_used(used: Option<Seq<SpanView<Seq<char>>>>, name: Seq<char>) -> bool {
    match used {
        Some(list) => exists|i: int| 0 <= i < list.len() && (#[trigger] list[i]).value == name,
        None => false,
    }
}

/// The proposals for the first `n` features of a crate: each feature that
/// the dependency does not list yet, with what it enables.
pub open spec fn feature_items(
    features: FeaturesView,
    used: Option<Seq<SpanView<Seq<char>>>>,
    n: int,
) -> Seq<CompletionItemView>
    decreases n,
{
    if n <= 0 {
        Seq::empty()
    } else {
        let front = feature_items(features, used, n - 1);
        if is_used(used, features.names[n - 1]) {
            front
        } else {
            front.push(
                CompletionItemView {
                    label: features.names[n - 1],
                    detail: bracketed(features.enables[n - 1]),
                },
            )
        }
    }
}

/// The features proposed for a dependency: those of the crate that it does
/// not list yet.
pub open spec fn features_items(dependency: DependencyView, latest: LatestView) -> Seq<
    CompletionItemView,
> {
    match latest.features {
        Some(features) => feature_items(features, dependency.features, features.names.len() as int),
        None => Seq::empty(),
    }
}

fn already_used(dependency: &Dependency, name: &String) -> (used: bool)
    ensures
        used == is_used(dependency@.features, name@),
{
    match &dependency.features {
        Some(list) => {
            let mut i: usize = 0;
            while i < list.len()
                invariant
                    i <= list.len(),
                    dependency.features == Some(*list),
                    forall|k: int| 0 <= k < i ==> list[k].value@ != name@,
                decreases list.len() - i,
            {
                if list[i].value == *name {
                    proof {
                        let used = dependency@.features;
                        assert(used->0[i as int].value == name@);
                    }
                    return true;
                }
                i = i + 1;
            }
            assert forall|k: int| 0 <= k < span_views(list@).len() implies (#[trigger] span_views(
                list@,
            )[k]).value != name@ by {}
            false
        },
        None => false,
    }
}

/// Proposes features for a dependency.
pub fn features_completions(dependency: &Dependency, latest: Latest) -> (items: Vec<CompletionItem>)
    requires
        latest.wf(),
    ensures
        item_views(items@) == features_items(dependency@, latest@),
{
    let mut items: Vec<CompletionItem> = Vec::new();
    if let Some(map) = &latest.features {
        let ghost features = FeaturesView { names: map.keys(), enables: list_texts(map.values()) };
        let count = map.len();
        let mut i: usize = 0;
        while i < count
            invariant
                map.wf(),
                i <= count,
                count == map.keys().len(),
                count == map.values().len(),
                features == (FeaturesView { names: map.keys(), enables: list_texts(map.values()) }),
                item_views(items@) =~= feature_items(features, dependency@.features, i as int),
            decreases count - i,
        {
            let name = map.name_at(i);
            if !already_used(dependency, name) {
                let detail = format_vec(map.value_at(i).as_slice());
                items.push(CompletionItem::new_simple(name.clone(), detail));
            }
            i = i + 1;
        }
    }
    items
}

} // verus!
