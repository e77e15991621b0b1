use crates_language_server::crates::{Latest, Version};
use crates_language_server::ls::{
    completion_target, docs_url, feature_description_hover, find_by_name, find_feature, find_name,
    find_version, generate_diagnostics, quoted_version, version_range, CompletionTarget, Severity,
};
use crates_language_server::map::NameMap;
use crates_language_server::parse::{parse_manifest, requires_version, Dependency, Position, Range};

const MANIFEST: &str = "[dependencies]\nserde = \"1.0.200\"\ntokio = { version = \"1\", features = [\"rt\", \"macros\"] }\nlocal = { path = \"../local\" }\n\n[dev-dependencies]\nserde = { version = \"oops\", features = [\"derive\", \"nope\"] }\n";

fn deps() -> Vec<Dependency> {
    parse_manifest(MANIFEST)
}

fn pos(line: usize, character: usize) -> Position {
    Position { line, character }
}

fn latest(version: (u64, u64, u64), features: Option<&[(&str, &[&str])]>) -> Latest {
    Latest {
        version: Version {
            major: version.0,
            minor: version.1,
            patch: version.2,
            pre: String::new(),
            build: String::new(),
        },
        features: features.map(|pairs| {
            let mut map = NameMap::new();
            for (name, enables) in pairs {
                map.insert((*name).to_owned(), enables.iter().map(|s| (*s).to_owned()).collect());
            }
            map
        }),
        description: None,
    }
}

#[test]
fn the_manifest_parses_as_expected() {
    let deps = deps();
    let names: Vec<&str> = deps.iter().map(|d| d.name.value.as_str()).collect();
    assert_eq!(names, vec!["serde", "tokio", "local", "serde"]);
}

#[test]
fn name_under_the_cursor() {
    let deps = deps();
    assert_eq!(find_name(&deps, pos(1, 0)), Some(0));
    assert_eq!(find_name(&deps, pos(1, 5)), Some(0));
    assert_eq!(find_name(&deps, pos(1, 6)), None);
    assert_eq!(find_name(&deps, pos(2, 3)), Some(1));
    assert_eq!(find_name(&deps, pos(6, 2)), Some(3));
    assert_eq!(find_name(&deps, pos(0, 3)), None);
    assert_eq!(find_name(&[], pos(0, 0)), None);
}

#[test]
fn feature_under_the_cursor() {
    let deps = deps();
    assert_eq!(find_feature(&deps, pos(2, 38)), Some((1, 0)));
    assert_eq!(find_feature(&deps, pos(2, 45)), Some((1, 1)));
    assert_eq!(find_feature(&deps, pos(2, 41)), Some((1, 0)));
    assert_eq!(find_feature(&deps, pos(2, 42)), None);
    assert_eq!(find_feature(&deps, pos(6, 40)), Some((3, 0)));
    assert_eq!(find_feature(&deps, pos(1, 10)), None);
    assert_eq!(deps[1].feature_at(pos(2, 45)), Some(1));
    assert_eq!(deps[0].feature_at(pos(2, 45)), None);
}

#[test]
fn completion_under_the_cursor() {
    let deps = deps();
    assert_eq!(completion_target(&deps, pos(1, 9)), Some(CompletionTarget::Version(0)));
    assert_eq!(completion_target(&deps, pos(2, 21)), Some(CompletionTarget::Version(1)));
    assert_eq!(completion_target(&deps, pos(2, 38)), Some(CompletionTarget::Features(1)));
    assert_eq!(completion_target(&deps, pos(6, 20)), Some(CompletionTarget::Version(3)));
    assert_eq!(completion_target(&deps, pos(3, 20)), None);
    assert_eq!(completion_target(&deps, pos(1, 2)), None);
    assert!(deps[0].version_contains(pos(1, 9)));
    assert!(!deps[2].version_contains(pos(3, 9)));
}

#[test]
fn version_under_the_selection() {
    let deps = deps();
    assert_eq!(find_version(&deps, pos(1, 9), pos(1, 9)), Some(0));
    assert_eq!(find_version(&deps, pos(0, 0), pos(2, 21)), Some(1));
    assert_eq!(find_version(&deps, pos(2, 21), pos(1, 9)), Some(0));
    assert_eq!(find_version(&deps, pos(0, 0), pos(0, 5)), None);
}

#[test]
fn dependency_by_name() {
    let deps = deps();
    assert_eq!(find_by_name(&deps, "serde"), Some(0));
    assert_eq!(find_by_name(&deps, "tokio"), Some(1));
    assert_eq!(find_by_name(&deps, "Serde"), None);
    assert_eq!(
        version_range(&deps, "serde"),
        Some(Range { start: pos(1, 8), end: pos(1, 17) })
    );
    assert_eq!(version_range(&deps, "local"), None);
    assert_eq!(version_range(&deps, "missing"), None);
}

#[test]
fn requirement_that_names_the_version() {
    let deps = deps();
    let serde = &deps[0].version.as_ref().unwrap().value;
    assert!(requires_version(serde, "1.0.200"));
    assert!(!requires_version(serde, "1.0.201"));
    assert!(!requires_version(serde, "1"));
    let tokio = &deps[1].version.as_ref().unwrap().value;
    assert!(requires_version(tokio, "1"));
    assert!(!requires_version(tokio, "1.0.0"));
    assert!(!requires_version(&None, "1.0.0"));
    assert!(!requires_version(serde, "not a version"));
}

#[test]
fn diagnostics_of_an_unresolved_crate() {
    let deps = deps();
    let diagnostics = generate_diagnostics(&deps[2], None);
    assert_eq!(diagnostics.len(), 1);
    assert_eq!(diagnostics[0].range, deps[2].name.range);
    assert_eq!(diagnostics[0].severity, Severity::Error);
    assert_eq!(diagnostics[0].message, "No such crate in crates.io");
}

#[test]
fn diagnostics_hint_at_the_latest_version() {
    let deps = deps();
    let newer = latest((1, 0, 219), None);
    let diagnostics = generate_diagnostics(&deps[0], Some(&newer));
    assert_eq!(diagnostics.len(), 1);
    assert_eq!(diagnostics[0].range, deps[0].version.as_ref().unwrap().range);
    assert_eq!(diagnostics[0].severity, Severity::Information);
    assert_eq!(diagnostics[0].message, "1.0.219");

    let same = latest((1, 0, 200), None);
    assert!(generate_diagnostics(&deps[0], Some(&same)).is_empty());
    assert!(generate_diagnostics(&deps[2], Some(&same)).is_empty());
}

#[test]
fn diagnostics_mark_unknown_features() {
    let deps = deps();
    let have: &[(&str, &[&str])] = &[("derive", &["serde_derive"]), ("std", &[])];
    let resolved = latest((1, 0, 200), Some(have));
    let diagnostics = generate_diagnostics(&deps[3], Some(&resolved));
    assert_eq!(diagnostics.len(), 2);
    assert_eq!(diagnostics[0].severity, Severity::Information);
    assert_eq!(diagnostics[0].message, "1.0.200");
    assert_eq!(diagnostics[0].range, deps[3].version.as_ref().unwrap().range);
    assert_eq!(diagnostics[1].severity, Severity::Error);
    assert_eq!(diagnostics[1].message, "No such feature available for crate `serde`");
    assert_eq!(diagnostics[1].range, deps[3].features.as_ref().unwrap()[1].range);

    let unknown = latest((1, 0, 200), None);
    assert_eq!(generate_diagnostics(&deps[3], Some(&unknown)).len(), 1);
}

#[test]
fn texts_for_the_editor() {
    assert_eq!(docs_url("serde"), "https://docs.rs/serde");
    assert_eq!(quoted_version(&latest((1, 2, 3), None)), "\"1.2.3\"");
    let have: &[(&str, &[&str])] = &[("full", &["rt", "macros"])];
    let resolved = latest((1, 0, 0), Some(have));
    assert_eq!(
        feature_description_hover(&resolved, "full").as_deref(),
        Some("full\n\n[ rt, macros ]")
    );
    assert_eq!(feature_description_hover(&resolved, "rt"), None);
    assert_eq!(feature_description_hover(&latest((1, 0, 0), None), "full"), None);
}
