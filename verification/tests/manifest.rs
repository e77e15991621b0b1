use crates_language_server::dom::{Entry, Name, Text, TextSpan, Value};
use crates_language_server::parse::{
    parse_document, parse_manifest, Dependency, Error, GitSpecifier, Kind, Position, Range,
};

fn pos(line: usize, character: usize) -> Position {
    Position { line, character }
}

fn range(line: usize, from: usize, to: usize) -> Range {
    Range { start: pos(line, from), end: pos(line, to) }
}

#[test]
fn bare_string_dependency() {
    let doc = "[dependencies]\nserde = \"1\"\n";
    let deps = parse_manifest(doc);
    assert_eq!(deps.len(), 1);
    let dep = &deps[0];
    assert_eq!(dep.name.value, "serde");
    assert_eq!(dep.name.range, range(1, 0, 5));
    assert!(matches!(dep.kind, Kind::Registry));
    assert!(dep.features.is_none());
    let version = dep.version.as_ref().unwrap();
    assert_eq!(version.range, range(1, 8, 11));
    let req = version.value.as_ref().unwrap();
    assert_eq!(*req, semver::VersionReq::parse("1").unwrap());
    assert!(req.matches(&semver::Version::new(1, 0, 0)));
    assert!(req.matches(&semver::Version::new(1, 9, 3)));
    assert!(!req.matches(&semver::Version::new(2, 0, 0)));
    assert!(!req.matches(&semver::Version::new(0, 9, 0)));
}

#[test]
fn inline_table_with_features() {
    let doc = "[dependencies]\ntokio = { version = \"1\", features = [\"rt\", \"macros\"] }\n";
    let deps = parse_manifest(doc);
    assert_eq!(deps.len(), 1);
    let dep = &deps[0];
    assert_eq!(dep.name.value, "tokio");
    assert!(matches!(dep.kind, Kind::Registry));
    assert!(dep.version.as_ref().unwrap().value.is_some());
    let features = dep.features.as_ref().unwrap();
    assert_eq!(features.len(), 2);
    assert_eq!(features[0].value, "rt");
    assert_eq!(features[1].value, "macros");
    assert_eq!(features[0].range, range(1, 37, 41));
    assert_eq!(features[1].range, range(1, 43, 51));
    assert!(features[0].contains_pos(pos(1, 40)));
    assert!(!features[0].contains_pos(pos(1, 46)));
    assert!(features[1].contains_pos(pos(1, 46)));
    assert!(!features[1].contains_pos(pos(1, 40)));
}

#[test]
fn git_dependency_with_branch() {
    let doc = "[dependencies]\nfoo = { git = \"https://example.com/repo\", branch = \"main\" }\n";
    let deps = parse_manifest(doc);
    assert_eq!(deps.len(), 1);
    let dep = &deps[0];
    assert!(dep.version.is_none());
    assert!(dep.features.is_none());
    match &dep.kind {
        Kind::Git(git) => {
            assert_eq!(git.url.value, "https://example.com/repo");
            match &git.specifier {
                Some(GitSpecifier::Branch(branch)) => assert_eq!(branch.value, "main"),
                other => panic!("unexpected specifier {:?}", other),
            }
        }
        other => panic!("unexpected kind {:?}", other),
    }
}

#[test]
fn git_specifier_prefers_rev_then_branch_then_tag() {
    let doc = "[dependencies]\na = { git = \"u\", tag = \"t\", branch = \"b\", rev = \"r\" }\nb = { git = \"u\", tag = \"t\", branch = \"b\" }\nc = { git = \"u\", tag = \"t\" }\nd = { git = \"u\" }\n";
    let deps = parse_manifest(doc);
    assert_eq!(deps.len(), 4);
    let specifier = |dep: &Dependency| match &dep.kind {
        Kind::Git(git) => match &git.specifier {
            Some(GitSpecifier::Rev(s)) => format!("rev {}", s.value),
            Some(GitSpecifier::Branch(s)) => format!("branch {}", s.value),
            Some(GitSpecifier::Tag(s)) => format!("tag {}", s.value),
            None => "none".to_owned(),
        },
        _ => "not git".to_owned(),
    };
    assert_eq!(specifier(&deps[0]), "rev r");
    assert_eq!(specifier(&deps[1]), "branch b");
    assert_eq!(specifier(&deps[2]), "tag t");
    assert_eq!(specifier(&deps[3]), "none");
}

#[test]
fn local_dependency_wins_over_git() {
    let doc = "[dependencies]\nfoo = { path = \"../foo\", git = \"u\" }\n";
    let deps = parse_manifest(doc);
    assert_eq!(deps.len(), 1);
    match &deps[0].kind {
        Kind::Local(local) => {
            assert_eq!(local.path.value, "../foo");
            assert_eq!(local.path.range, range(1, 15, 23));
        }
        other => panic!("unexpected kind {:?}", other),
    }
}

#[test]
fn empty_inline_table_is_a_registry_dependency() {
    let deps = parse_manifest("[dependencies]\nfoo = {}\n");
    assert_eq!(deps.len(), 1);
    assert_eq!(deps[0].name.value, "foo");
    assert!(matches!(deps[0].kind, Kind::Registry));
    assert!(deps[0].version.is_none());
    assert!(deps[0].features.is_none());
}

#[test]
fn empty_feature_list_differs_from_none() {
    let deps = parse_manifest("[dependencies]\nfoo = { version = \"1\", features = [] }\n");
    assert_eq!(deps.len(), 1);
    assert_eq!(deps[0].features.as_ref().unwrap().len(), 0);
}

#[test]
fn features_skip_what_is_no_string() {
    let deps = parse_manifest("[dependencies]\nfoo = { features = [\"a\", 1, true, \"b\"] }\n");
    let features = deps[0].features.as_ref().unwrap();
    assert_eq!(features.len(), 2);
    assert_eq!(features[0].value, "a");
    assert_eq!(features[1].value, "b");
}

#[test]
fn invalid_version_keeps_its_span() {
    let deps = parse_manifest("[dependencies]\nfoo = \"not a version\"\n");
    assert_eq!(deps.len(), 1);
    let version = deps[0].version.as_ref().unwrap();
    assert!(version.value.is_none());
    assert_eq!(version.range, range(1, 6, 21));
}

#[test]
fn sections_are_read_in_order_and_not_merged() {
    let doc = "[build-dependencies]\ncc = \"1\"\n\n[dev-dependencies]\nserde = \"1\"\n\n[dependencies]\nserde = \"1\"\nlog = \"0.4\"\n\n[package]\nname = \"x\"\n";
    let deps = parse_manifest(doc);
    let names: Vec<&str> = deps.iter().map(|d| d.name.value.as_str()).collect();
    assert_eq!(names, vec!["serde", "log", "serde", "cc"]);
    assert_eq!(deps[0].name.range, range(7, 0, 5));
    assert_eq!(deps[2].name.range, range(4, 0, 5));
}

#[test]
fn dependency_declared_as_a_table_of_its_own() {
    let doc = "[dependencies.serde]\nversion = \"1.0\"\nfeatures = [\"derive\"]\n";
    let deps = parse_manifest(doc);
    assert_eq!(deps.len(), 1);
    assert_eq!(deps[0].name.value, "serde");
    assert_eq!(deps[0].version.as_ref().unwrap().range, range(1, 10, 15));
    assert_eq!(deps[0].features.as_ref().unwrap()[0].value, "derive");
}

#[test]
fn documents_without_dependencies() {
    assert_eq!(parse_manifest("").len(), 0);
    assert_eq!(parse_manifest("[package]\nname = \"x\"\n").len(), 0);
    assert_eq!(parse_manifest("dependencies = 3\n").len(), 0);
    assert_eq!(parse_manifest("this is = = not toml [[[").len(), 0);
}

fn name(text: &str, range: Option<TextSpan>) -> Name {
    Name { text: text.to_owned(), value: text.to_owned(), valid: true, range }
}

fn text(value: &str, start: usize, end: usize) -> Value {
    Value::Text(Text { value: value.to_owned(), range: TextSpan::new(start, end) })
}

#[test]
fn entry_whose_key_has_no_place_is_dropped() {
    let doc = "[dependencies]\nserde = \"1\"\n";
    let key = name("serde", None);
    assert!(matches!(Dependency::parse(doc, &key, &text("1", 23, 26)), Err(Error::Parse)));
    let root = Value::Table(vec![Entry {
        key: name("dependencies", TextSpan::new(1, 13)),
        node: Value::Table(vec![
            Entry { key: name("serde", None), node: text("1", 23, 26) },
            Entry { key: name("log", TextSpan::new(15, 18)), node: text("0.4", 23, 26) },
        ]),
    }]);
    let deps = parse_document(doc, &root);
    assert_eq!(deps.len(), 1);
    assert_eq!(deps[0].name.value, "log");
}

#[test]
fn lookup_in_a_tree() {
    let tree = Value::Table(vec![
        Entry { key: name("a", TextSpan::new(0, 1)), node: text("x", 4, 7) },
        Entry {
            key: name("t", TextSpan::new(9, 10)),
            node: Value::Table(vec![Entry {
                key: name("b", TextSpan::new(12, 13)),
                node: Value::Array(vec![text("y", 17, 20), Value::Other]),
            }]),
        },
    ]);
    let a = tree.get_text("a").unwrap();
    assert_eq!(a.value, "x");
    assert_eq!(a.range.unwrap().start(), 4);
    assert_eq!(a.range.unwrap().end(), 7);
    let t = tree.get("t").unwrap();
    match t.get("b") {
        Some(Value::Array(items)) => {
            assert_eq!(items.len(), 2);
            assert!(matches!(&items[0], Value::Text(text) if text.value == "y"));
            assert!(matches!(&items[1], Value::Other));
        }
        other => panic!("unexpected value {:?}", other),
    }
    assert!(tree.get("missing").is_none());
    assert!(t.get_text("b").is_none());
    assert!(tree.get_text("t").is_none());
}

#[test]
fn quoted_keys_keep_their_quotes_in_the_name() {
    let deps = parse_manifest("[dependencies]\n\"serde\" = \"1\"\n'log' = \"0.4\"\n");
    assert_eq!(deps.len(), 2);
    assert_eq!(deps[0].name.value, "\"serde\"");
    assert_eq!(deps[0].name.range, range(1, 0, 7));
    assert_eq!(deps[1].name.value, "'log'");
}

#[test]
fn a_key_bound_twice_is_read_twice() {
    let deps = parse_manifest("[dependencies]\nserde = \"1\"\nserde = \"2\"\n");
    assert_eq!(deps.len(), 2);
    assert_eq!(deps[0].version.as_ref().unwrap().range, range(1, 8, 11));
    assert_eq!(deps[1].version.as_ref().unwrap().range, range(2, 8, 11));
}

#[test]
fn escapes_in_strings_are_resolved() {
    let deps = parse_manifest("[dependencies]\nfoo = { git = \"a\\tb\", tag = 'v\\1' }\n");
    match &deps[0].kind {
        Kind::Git(git) => {
            assert_eq!(git.url.value, "a\tb");
            match &git.specifier {
                Some(GitSpecifier::Tag(tag)) => assert_eq!(tag.value, "v\\1"),
                other => panic!("unexpected specifier {:?}", other),
            }
        }
        other => panic!("unexpected kind {:?}", other),
    }
}

#[test]
fn lookup_finds_the_last_valid_binding() {
    let table = Value::Table(vec![
        Entry { key: name("version", None), node: text("1", 0, 1) },
        Entry { key: name("version", None), node: text("2", 0, 1) },
        Entry {
            key: Name { text: "version".to_owned(), value: "version".to_owned(), valid: false, range: None },
            node: text("3", 0, 1),
        },
    ]);
    assert_eq!(table.get_text("version").unwrap().value, "2");
    assert!(text("x", 0, 1).get("version").is_none());
}

#[test]
fn string_without_a_place_gives_no_version() {
    let node = Value::Text(Text { value: "1".to_owned(), range: None });
    let dep = Dependency::parse("serde = \"1\"", &name("serde", TextSpan::new(0, 5)), &node).unwrap();
    assert!(dep.version.is_none());
    assert_eq!(dep.name.range, range(0, 0, 5));
}

#[test]
fn text_span_rejects_a_backward_range() {
    assert!(TextSpan::new(3, 2).is_none());
    assert!(TextSpan::new(2, 2).is_some());
}

#[test]
fn parse_error_message() {
    assert_eq!(Error::Parse.message(), "failed to parse toml document");
}
