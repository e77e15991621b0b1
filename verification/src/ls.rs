//! What the server answers to the editor: which dependency the cursor is on,
//! and what there is to say about it.

use crate::crates::version_text;
use crate::crates::Latest;
use crate::crates::LatestView;
use crate::crates::DOCS_RS_URL;
use crate::format::feature_hover;
use crate::format::format_feature_hover;
use crate::map::index_of;
use crate::map::lemma_index_of;
use crate::parse::names_version;
use crate::parse::range_contains;
use crate::parse::requires_version;
use crate::parse::span_views;
use crate::parse::Dependency;
use crate::parse::DependencyView;
use crate::parse::SpanView;
use crate::parse::Position;
use crate::parse::Range;
use vstd::prelude::*;
use vstd::string::StringExecFns;

verus! {

/// Whether the cursor is on the name of the dependency.
pub open spec fn on_name(dependency: Dependency, pos: Position) -> bool {
    range_contains(dependency.name.range, pos)
}

/// Whether the cursor is on the version requirement of the dependency.
pub open spec fn on_version(dependency: Dependency, pos: Position) -> bool {
    dependency.version matches Some(version) && range_contains(version.range, pos)
}

/// Whether the cursor is on the feature at index `k` of the dependency.
pub open spec fn on_feature(dependency: Dependency, pos: Position, k: int) -> bool {
    dependency.features matches Some(features) && 0 <= k < features.len() && range_contains(
        features[k].range,
        pos,
    )
}

/// Whether the cursor is on one of the features of the dependency.
pub open spec fn on_features(dependency: Dependency, pos: Position) -> bool {
    exists|k: int| on_feature(dependency, pos, k)
}

impl Dependency {
    /// Whether the cursor is on the version requirement.
    pub fn version_contains(&self, pos: Position) -> (inside: bool)
        ensures
            inside == on_version(*self, pos),
    {
        match &self.version {
            Some(version) => version.contains_pos(pos),
            None => false,
        }
    }

    /// The first feature that the cursor is on.
    pub fn feature_at(&self, pos: Position) -> (found: Option<usize>)
        ensures
            match found {
                Some(k) => on_feature(*self, pos, k as int) && forall|j: int|
                    0 <= j < k ==> !on_feature(*self, pos, j),
                None => !on_features(*self, pos),
            },
    {
        match &self.features {
            Some(features) => {
                let mut k: usize = 0;
                while k < features.len()
                    invariant
                        k <= features.len(),
                        self.features == Some(*features),
                        forall|j: int| 0 <= j < k ==> !on_feature(*self, pos, j),
                    decreases features.len() - k,
                {
                    if features[k].contains_pos(pos) {
                        return Some(k);
                    }
                    k = k + 1;
                }
                None
            },
            None => None,
        }
    }
}

/// The first dependency whose name the cursor is on.
pub fn find_name(dependencies: &[Dependency], pos: Position) -> (found: Option<usize>)
    ensures
        match found {
            Some(i) => i < dependencies.len() && on_name(dependencies[i as int], pos) && forall|
                j: int,
            |
                0 <= j < i ==> !on_name(#[trigger] dependencies[j], pos),
            None => forall|j: int|
                0 <= j < dependencies.len() ==> !on_name(#[trigger] dependencies[j], pos),
        },
{
    let mut i: usize = 0;
    while i < dependencies.len()
        invariant
            i <= dependencies.len(),
            forall|j: int| 0 <= j < i ==> !on_name(#[trigger] dependencies[j], pos),
        decreases dependencies.len() - i,
    {
        if dependencies[i].name.contains_pos(pos) {
            return Some(i);
        }
        i = i + 1;
    }
    None
}

/// The first dependency with a feature that the cursor is on, and the first
/// such feature of it.
pub fn find_feature(dependencies: &[Dependency], pos: Position) -> (found: Option<(usize, usize)>)
    ensures
        match found {
            Some((i, k)) => i < dependencies.len() && on_feature(
                dependencies[i as int],
                pos,
                k as int,
            ) && (forall|j: int| 0 <= j < k ==> !on_feature(dependencies[i as int], pos, j))
                && forall|j: int| 0 <= j < i ==> !on_features(#[trigger] dependencies[j], pos),
            None => forall|j: int|
                0 <= j < dependencies.len() ==> !on_features(#[trigger] dependencies[j], pos),
        },
{
    let mut i: usize = 0;
    while i < dependencies.len()
        invariant
            i <= dependencies.len(),
            forall|j: int| 0 <= j < i ==> !on_features(#[trigger] dependencies[j], pos),
        decreases dependencies.len() - i,
    {
        if let Some(k) = dependencies[i].feature_at(pos) {
            return Some((i, k));
        }
        i = i + 1;
    }
    None
}

/// What a completion at the cursor is about.
#[derive(Clone, Copy, Debug, PartialEq, Eq, Structural)]
pub enum CompletionTarget {
    /// The version requirement of the dependency at this index.
    Version(usize),
    /// The features of the dependency at this index.
    Features(usize),
}

/// Whether the cursor is where the dependency can be completed.
pub open spec fn completes(dependency: Dependency, pos: Position) -> bool {
    on_version(dependency, pos) || on_features(dependency, pos)
}

/// What a completion at the cursor is about: the first dependency that has
/// the cursor on its version requirement or on one of its features, the
/// version where it is on both.
pub fn completion_target(dependencies: &[Dependency], pos: Position) -> (target: Option<
    CompletionTarget,
>)
    ensures
        match target {
            Some(CompletionTarget::Version(i)) => i < dependencies.len() && on_version(
                dependencies[i as int],
                pos,
            ) && forall|j: int| 0 <= j < i ==> !completes(#[trigger] dependencies[j], pos),
            Some(CompletionTarget::Features(i)) => i < dependencies.len() && !on_version(
                dependencies[i as int],
                pos,
            ) && on_features(dependencies[i as int], pos) && forall|j: int|
                0 <= j < i ==> !completes(#[trigger] dependencies[j], pos),
            None => forall|j: int|
                0 <= j < dependencies.len() ==> !completes(#[trigger] dependencies[j], pos),
        },
{
    let mut i: usize = 0;
    while i < dependencies.len()
        invariant
            i <= dependencies.len(),
            forall|j: int| 0 <= j < i ==> !completes(#[trigger] dependencies[j], pos),
        decreases dependencies.len() - i,
    {
        if dependencies[i].version_contains(pos) {
            return Some(CompletionTarget::Version(i));
        } else if dependencies[i].feature_at(pos).is_some() {
            return Some(CompletionTarget::Features(i));
        }
        i = i + 1;
    }
    None
}

/// Whether one end of the selection is on the version requirement.
pub open spec fn selects_version(dependency: Dependency, start: Position, end: Position) -> bool {
    on_version(dependency, start) || on_version(dependency, end)
}

/// The first dependency that has an end of the selection on its version
/// requirement.
pub fn find_version(dependencies: &[Dependency], start: Position, end: Position) -> (found: Option<
    usize,
>)
    ensures
        match found {
            Some(i) => i < dependencies.len() && selects_version(
                dependencies[i as int],
                start,
                end,
            ) && forall|j: int|
                0 <= j < i ==> !selects_version(#[trigger] dependencies[j], start, end),
            None => forall|j: int|
                0 <= j < dependencies.len() ==> !selects_version(
                    #[trigger] dependencies[j],
                    start,
                    end,
                ),
        },
{
    let mut i: usize = 0;
    while i < dependencies.len()
        invariant
            i <= dependencies.len(),
            forall|j: int| 0 <= j < i ==> !selects_version(#[trigger] dependencies[j], start, end),
        decreases dependencies.len() - i,
    {
        if dependencies[i].version_contains(start) || dependencies[i].version_contains(end) {
            return Some(i);
        }
        i = i + 1;
    }
    None
}

/// The first dependency of the name `name`.
pub fn find_by_name(dependencies: &[Dependency], name: &str) -> (found: Option<usize>)
    ensures
        match found {
            Some(i) => i < dependencies.len() && dependencies[i as int].name.value@ == name@
                && forall|j: int| 0 <= j < i ==> (#[trigger] dependencies[j]).name.value@ != name@,
            None => forall|j: int|
                0 <= j < dependencies.len() ==> (#[trigger] dependencies[j]).name.value@ != name@,
        },
{
    let wanted = name.to_owned();
    let mut i: usize = 0;
    while i < dependencies.len()
        invariant
            i <= dependencies.len(),
            wanted@ == name@,
            forall|j: int| 0 <= j < i ==> (#[trigger] dependencies[j]).name.value@ != name@,
        decreases dependencies.len() - i,
    {
        if dependencies[i].name.value == wanted {
            return Some(i);
        }
        i = i + 1;
    }
    None
}

/// Whether the dependency at index `i` is the first of the name `name`.
pub open spec fn is_first_named(dependencies: Seq<Dependency>, name: Seq<char>, i: int) -> bool {
    &&& 0 <= i < dependencies.len()
    &&& dependencies[i].name.value@ == name
    &&& forall|j: int| 0 <= j < i ==> (#[trigger] dependencies[j]).name.value@ != name
}

/// Where the version requirement of the first dependency of the name `name`
/// is written; `None` where no dependency has that name, or the first that
/// has it declares no version.
pub fn version_range(dependencies: &[Dependency], name: &str) -> (range: Option<Range>)
    ensures
        match range {
            Some(found) => exists|i: int|
                is_first_named(dependencies@, name@, i) && (#[trigger] dependencies[i]).version == Some(
                    dependencies[i].version->0,
                ) && dependencies[i].version->0.range == found,
            None => forall|i: int|
                is_first_named(dependencies@, name@, i) ==> (#[trigger] dependencies[i]).version is None,
        },
{
    match find_by_name(dependencies, name) {
        Some(i) => {
            match &dependencies[i].version {
                Some(version) => Some(version.range),
                None => {
                    None
                },
            }
        },
        None => None,
    }
}

/// The address of the documentation of a crate.
pub open spec fn docs_url_of(name: Seq<char>) -> Seq<char> {
    DOCS_RS_URL@ + "/"@ + name
}

/// Builds the address of the documentation of the crate `name`.
pub fn docs_url(name: &str) -> (url: String)
    ensures
        url@ == docs_url_of(name@),
{
    let mut url = String::from_str(DOCS_RS_URL);
    url.append("/");
    url.append(name);
    url
}

/// The latest version in quotes, as it is written into a manifest.
pub fn quoted_version(latest: &Latest) -> (text: String)
    ensures
        text@ == "\""@ + version_text(latest@.version) + "\""@,
{
    let mut text = String::from_str("\"");
    text.append(latest.version.to_string().as_str());
    text.append("\"");
    text
}

/// The hover text of the feature `feature`, if the crate has that feature.
pub open spec fn feature_hover_of(latest: LatestView, feature: Seq<char>) -> Option<Seq<char>> {
    match latest.features {
        Some(features) => match index_of(features.names, feature) {
            Some(i) => Some(feature_hover(feature, features.enables[i])),
            None => None,
        },
        None => None,
    }
}

/// Formats the hover shown on a feature of a dependency, if the crate has
/// that feature.
pub fn feature_description_hover(latest: &Latest, feature: &str) -> (text: Option<String>)
    requires
        latest.wf(),
    ensures
        match feature_hover_of(latest@, feature@) {
            Some(expected) => text matches Some(found) && found@ == expected,
            None => text is None,
        },
{
    match &latest.features {
        Some(map) => {
            proof {
                lemma_index_of(map.keys(), feature@);
                map.lemma_wf();
            }
            match map.get(feature) {
                Some(enables) => Some(format_feature_hover(feature, enables.as_slice())),
                None => None,
            }
        },
        None => None,
    }
}

/// How grave a diagnostic is.
#[derive(Clone, Copy, Debug, PartialEq, Eq, Structural)]
pub enum Severity {
    Error,
    Information,
}

/// A remark on a place in the manifest.
#[derive(Debug)]
pub struct Diagnostic {
    pub range: Range,
    pub severity: Severity,
    pub message: String,
}

/// What a `Diagnostic` holds.
pub struct DiagnosticView {
    pub range: Range,
    pub severity: Severity,
    pub message: Seq<char>,
}

impl View for Diagnostic {
    type V = DiagnosticView;

    open spec fn view(&self) -> DiagnosticView {
        DiagnosticView { range: self.range, severity: self.severity, message: self.message@ }
    }
}

/// What a list of diagnostics holds.
pub open spec fn diagnostic_views(diagnostics: Seq<Diagnostic>) -> Seq<DiagnosticView> {
    Seq::new(diagnostics.len(), |i: int| diagnostics[i]@)
}

/// The hint at the latest version, on a requirement that does not name it.
pub open spec fn version_hint(dependency: DependencyView, latest: LatestView) -> Seq<
    DiagnosticView,
> {
    match dependency.version {
        Some(version) => if names_version(version.value, version_text(latest.version)) {
            Seq::empty()
        } else {
            seq![
                DiagnosticView {
                    range: version.range,
                    severity: Severity::Information,
                    message: version_text(latest.version),
                },
            ]
        },
        None => Seq::empty(),
    }
}

/// What is said of a feature that the crate does not have.
pub open spec fn no_such_feature(name: Seq<char>) -> Seq<char> {
    "No such feature available for crate `"@ + name + "`"@
}

/// The errors on the first `n` listed features: one on each that is not
/// among the features of the crate.
pub open spec fn unknown_features(
    name: Seq<char>,
    listed: Seq<SpanView<Seq<char>>>,
    available: Seq<Seq<char>>,
    n: int,
) -> Seq<DiagnosticView>
    decreases n,
{
    if n <= 0 {
        Seq::empty()
    } else {
        let front = unknown_features(name, listed, available, n - 1);
        if index_of(available, listed[n - 1].value) is Some {
            front
        } else {
            front.push(
                DiagnosticView {
                    range: listed[n - 1].range,
                    severity: Severity::Error,
                    message: no_such_feature(name),
                },
            )
        }
    }
}

/// The errors on the listed features, where both the crate and the
/// dependency have a list of features.
pub open spec fn feature_errors(dependency: DependencyView, latest: LatestView) -> Seq<
    DiagnosticView,
> {
    match (latest.features, dependency.features) {
        (Some(available), Some(listed)) => unknown_features(
            dependency.name.value,
            listed,
            available.names,
            listed.len() as int,
        ),
        _ => Seq::empty(),
    }
}

/// The diagnostics of a dependency, given what its crate resolved to: for
/// a crate that did not resolve, one error on the name; else the hint at the
/// latest version and an error on each unknown feature.
pub open spec fn diagnostics_of(dependency: DependencyView, resolved: Option<LatestView>) -> Seq<
    DiagnosticView,
> {
    match resolved {
        Some(latest) => version_hint(dependency, latest) + feature_errors(dependency, latest),
        None => seq![
            DiagnosticView {
                range: dependency.name.range,
                severity: Severity::Error,
                message: "No such crate in crates.io"@,
            },
        ],
    }
}

/// Finds what there is to remark on a dependency.
pub fn generate_diagnostics(dependency: &Dependency, resolved: Option<&Latest>) -> (diagnostics:
    Vec<Diagnostic>)
    requires
        resolved matches Some(latest) ==> latest.wf(),
    ensures
        diagnostic_views(diagnostics@) == diagnostics_of(
            dependency@,
            match resolved {
                Some(latest) => Some(latest@),
                None => None,
            },
        ),
{
    let mut diagnostics: Vec<Diagnostic> = Vec::new();
    let latest = match resolved {
        Some(latest) => latest,
        None => {
            diagnostics.push(
                Diagnostic {
                    range: dependency.name.range,
                    severity: Severity::Error,
                    message: String::from_str("No such crate in crates.io"),
                },
            );
            return diagnostics;
        },
    };
    if let Some(version) = &dependency.version {
        let newest = latest.version.to_string();
        if !requires_version(&version.value, newest.as_str()) {
            diagnostics.push(
                Diagnostic { range: version.range, severity: Severity::Information, message: newest },
            );
        }
    }
    let ghost hint = diagnostic_views(diagnostics@);
    if let Some(available) = &latest.features {
        if let Some(listed) = &dependency.features {
            let ghost views = span_views(listed@);
            let mut k: usize = 0;
            while k < listed.len()
                invariant
                    k <= listed.len(),
                    available.wf(),
                    views == span_views(listed@),
                    diagnostic_views(diagnostics@) =~= hint + unknown_features(
                        dependency.name.value@,
                        views,
                        available.keys(),
                        k as int,
                    ),
                decreases listed.len() - k,
            {
                let ghost before = diagnostic_views(diagnostics@);
                if !available.contains_key(listed[k].value.as_str()) {
                    let mut message = String::from_str("No such feature available for crate `");
                    message.append(dependency.name.value.as_str());
                    message.append("`");
                    let diagnostic = Diagnostic {
                        range: listed[k].range,
                        severity: Severity::Error,
                        message,
                    };
                    diagnostics.push(diagnostic);
                    assert(diagnostic_views(diagnostics@) =~= before.push(
                        DiagnosticView {
                            range: views[k as int].range,
                            severity: Severity::Error,
                            message: no_such_feature(dependency.name.value@),
                        },
                    ));
                }
                k = k + 1;
            }
        }
    }
    diagnostics
}

} // verus!
