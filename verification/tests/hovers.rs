use crates_language_server::crates::{Latest, Version};
use crates_language_server::format::{
    features_completions, format_feature_hover, format_name_hover, format_vec, join,
    version_completions, CompletionItem,
};
use crates_language_server::map::NameMap;
use crates_language_server::parse::parse_manifest;

fn strings(items: &[&str]) -> Vec<String> {
    items.iter().map(|s| (*s).to_owned()).collect()
}

fn version(major: u64, minor: u64, patch: u64, pre: &str, build: &str) -> Version {
    Version { major, minor, patch, pre: pre.to_owned(), build: build.to_owned() }
}

fn latest(features: Option<&[(&str, &[&str])]>, description: Option<&str>) -> Latest {
    Latest {
        version: version(1, 4, 2, "", ""),
        features: features.map(|pairs| {
            let mut map = NameMap::new();
            for (name, enables) in pairs {
                map.insert((*name).to_owned(), strings(enables));
            }
            map
        }),
        description: description.map(str::to_owned),
    }
}

fn pairs(items: &[CompletionItem]) -> Vec<(&str, &str)> {
    items.iter().map(|i| (i.label.as_str(), i.detail.as_str())).collect()
}

#[test]
fn vec_in_brackets() {
    assert_eq!(format_vec(&strings(&["a", "b", "c"])), "[ a, b, c ]");
    assert_eq!(format_vec(&strings(&["one"])), "[ one ]");
    assert_eq!(format_vec(&[]), "[  ]");
}

#[test]
fn join_puts_the_separator_between() {
    assert_eq!(join(&strings(&["a", "b"]), "--"), "a--b");
    assert_eq!(join(&strings(&["", ""]), ","), ",");
    assert_eq!(join(&[], ","), "");
}

#[test]
fn feature_hover() {
    assert_eq!(format_feature_hover("full", &strings(&["rt", "macros"])), "full\n\n[ rt, macros ]");
    assert_eq!(format_feature_hover("std", &[]), "std\n\n[  ]");
}

#[test]
fn name_hover_with_all_parts() {
    let both: &[(&str, &[&str])] = &[("rt", &[]), ("macros", &["rt"])];
    assert_eq!(
        format_name_hover("tokio", latest(Some(both), Some("An async runtime"))),
        "tokio: 1.4.2\n\n[ rt, macros ]\n\nAn async runtime"
    );
}

#[test]
fn name_hover_leaves_out_what_is_missing() {
    assert_eq!(format_name_hover("tokio", latest(None, None)), "tokio: 1.4.2");
    assert_eq!(format_name_hover("tokio", latest(Some(&[]), None)), "tokio: 1.4.2");
    assert_eq!(format_name_hover("tokio", latest(None, Some("text"))), "tokio: 1.4.2\n\ntext");
    let one: &[(&str, &[&str])] = &[("rt", &["a", "b"])];
    assert_eq!(format_name_hover("tokio", latest(Some(one), None)), "tokio: 1.4.2\n\n[ rt ]");
}

#[test]
fn version_completions_of_a_plain_version() {
    let items = version_completions(latest(None, None));
    assert_eq!(pairs(&items), vec![("1.4.2", "patch"), ("1.4", "minor"), ("1", "major")]);
}

#[test]
fn version_completions_of_a_pre_release() {
    let mut pre = latest(None, None);
    pre.version = version(2, 0, 0, "beta.1", "");
    let items = version_completions(pre);
    assert_eq!(
        pairs(&items),
        vec![("2.0.0-beta.1", "latest"), ("2.0.0", "patch"), ("2.0", "minor"), ("2", "major")]
    );
    let mut build = latest(None, None);
    build.version = version(2, 0, 0, "", "x");
    assert_eq!(pairs(&version_completions(build))[0], ("2.0.0+x", "latest"));
}

#[test]
fn features_completions_leave_out_what_is_listed() {
    let deps = parse_manifest("[dependencies]\ntokio = { version = \"1\", features = [\"rt\"] }\nserde = \"1\"\n");
    let all: &[(&str, &[&str])] = &[("rt", &[]), ("macros", &["rt", "dep:tokio-macros"]), ("full", &["rt", "macros"])];
    let items = features_completions(&deps[0], latest(Some(all), None));
    assert_eq!(pairs(&items), vec![("macros", "[ rt, dep:tokio-macros ]"), ("full", "[ rt, macros ]")]);
    let items = features_completions(&deps[1], latest(Some(all), None));
    assert_eq!(pairs(&items), vec![("rt", "[  ]"), ("macros", "[ rt, dep:tokio-macros ]"), ("full", "[ rt, macros ]")]);
    assert!(features_completions(&deps[0], latest(None, None)).is_empty());
}

#[test]
fn a_simple_completion_item() {
    let item = CompletionItem::new_simple("label".to_owned(), "detail".to_owned());
    assert_eq!(item.label, "label");
    assert_eq!(item.detail, "detail");
}
