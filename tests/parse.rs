use crates_lsp::manifest::{parse_manifest, ManifestTracker};
use crates_lsp::parse::{
    Dependency, DependencyVersion, DependencyWithVersion, Line, Position, Range,
};
use crates_lsp::version::Requirement;
use semver::VersionReq;

fn matches_complete(line: &str, name: &str, version: &str) {
    let line = Line::parse(line, 0).unwrap();
    let Dependency::WithVersion(line) = line else {
        panic!("expected complete version selector")
    };
    let expected_version = VersionReq::parse(version).unwrap();

    assert_eq!(line.name, name);

    match line.version {
        DependencyVersion::Partial { .. } => panic!("expected complete version selector"),
        DependencyVersion::Complete { version, .. } => {
            assert_eq!(*version.as_semver(), expected_version)
        }
    }
}

fn matches_partial(line: &str, name: &str, expected_version: &str) {
    let line = Line::parse(line, 0).unwrap();
    let Dependency::WithVersion(line) = line else {
        panic!("expected complete version selector")
    };
    assert_eq!(line.name, name);

    match line.version {
        DependencyVersion::Complete { .. } => panic!("expected partial version selector"),
        DependencyVersion::Partial { version, .. } => {
            assert_eq!(version.as_str(), expected_version)
        }
    }
}

fn complete(name: &str, line: u32, start: u32, end: u32, req: &str) -> Dependency {
    Dependency::WithVersion(DependencyWithVersion {
        name: name.to_string(),
        version: DependencyVersion::Complete {
            range: Range::new(Position::new(line, start), Position::new(line, end)),
            version: Requirement::parse(req).unwrap(),
        },
    })
}

#[test]
fn parse_detect_plain_version() {
    let cargo = "[dependencies]\ncomplete_simple_major = \"1\"\ncomplete_simple_minor = \"1.2\"\ncomplete_simple_patch = \"1.2.3\"\ncomplete_simple_range = \">=1, <2\"\ncomplete = { version = \"1.2.3\" }\npartial_simple = \"1.2\npartial_simple_pre = \"1.2.0-alpha.1\"\npartial_struct1 = { version = \"1.20 }\npartial_struct2 = { version = \"1.20\npartial_struct3 = { version = \"1.20 features = [\"serde\"] }\npartial_struct4 = { version = \"1.20 feature }\npartial_struct5 = { version = \"1.20, features = }\n";

    let mut manifests = ManifestTracker::new();
    manifests.update_from_source("file:///test", cargo);

    let dependencies = manifests.get("file:///test").unwrap();
    for dependency in &dependencies {
        println!("{dependency:?}");
    }
    assert_eq!(dependencies.len(), 12);
}

#[test]
fn parse_complete() {
    matches_complete("complete = \"1.2.3\"", "complete", "1.2.3");
    matches_complete("complete = \"=1.2.3\"", "complete", "=1.2.3");
    matches_complete("complete = \"1.2\"", "complete", "1.2");
    matches_complete("complete = \"=1.2\"", "complete", "=1.2");
    matches_complete("complete = \"1\"", "complete", "1");
    matches_complete("complete = \"=1\"", "complete", "=1");
}

#[test]
fn parse_complete_version_field() {
    matches_complete("complete = { version = \"1.2.3\" }", "complete", "1.2.3");
    matches_complete("complete = { version = \"=1.2.3\" }", "complete", "=1.2.3");
    matches_complete("complete = { version = \"1.2\" }", "complete", "1.2");
    matches_complete("complete = { version = \"=1.2\" }", "complete", "=1.2");
    matches_complete("complete = { version = \"1\" }", "complete", "1");
    matches_complete("complete = { version = \"=1\" }", "complete", "=1");
}

#[test]
fn parse_partial() {
    matches_partial("partial = \"1.2.3", "partial", "1.2.3");
    matches_partial("partial = \"1.2.", "partial", "1.2.");
    matches_partial("partial = \"1.2", "partial", "1.2");
    matches_partial("partial \"1.", "partial", "1.");
    matches_partial("partial \"1", "partial", "1");

    matches_partial("partial \"1.2.3, features = [", "partial", "1.2.3");
    matches_partial("partial \"1.2., features = [", "partial", "1.2.");
    matches_partial("partial \"1.2, features = [", "partial", "1.2");
    matches_partial("partial \"1., features = [", "partial", "1.");
    matches_partial("partial \"1, features = [", "partial", "1");
}

#[test]
fn parse_independent_dependency_section() {
    let cargo = "[dependencies]\nlog = \"1\"\n\n[dependencies.serde]\nversion = \"1\"\n\n[dependencies.tokio]\nversion = \"1\"\n";

    let mut manifests = ManifestTracker::new();
    manifests.update_from_source("file:///test", cargo);

    assert_eq!(
        manifests.get("file:///test").unwrap(),
        vec![
            complete("log", 1, 7, 8, "1"),
            complete("serde", 4, 11, 12, "1"),
            complete("tokio", 7, 11, 12, "1"),
        ]
    );
}

#[test]
fn complete_version_spans_quoted_text() {
    let dep = Line::parse("name = \"1.2.3\"", 0).unwrap();
    assert_eq!(dep, complete("name", 0, 8, 13, "1.2.3"));
}

#[test]
fn unterminated_version_is_partial_to_end_of_line() {
    let line = "name = \"1.2";
    let dep = Line::parse(line, 0).unwrap();
    assert_eq!(
        dep,
        Dependency::WithVersion(DependencyWithVersion {
            name: "name".to_string(),
            version: DependencyVersion::Partial {
                range: Range::new(Position::new(0, 8), Position::new(0, line.len() as u32)),
                version: "1.2".to_string(),
            },
        })
    );
}

#[test]
fn package_version_is_not_a_dependency() {
    let cargo = "[package]\nname = \"demo\"\nversion = \"9.9.9\"\n";
    assert!(parse_manifest(cargo).is_empty());

    let cargo = "[package]\nversion = \"9.9.9\"\n\n[dependencies]\nlog = \"1\"\n";
    assert_eq!(parse_manifest(cargo), vec![complete("log", 4, 7, 8, "1")]);
}

#[test]
fn named_dependency_table_yields_one_fact() {
    let cargo = "[dependencies.foo]\nversion = \"1\"\n";
    let deps = parse_manifest(cargo);
    assert_eq!(deps, vec![complete("foo", 1, 11, 12, "1")]);
    assert!(deps.iter().all(|d| d.name().map(|n| n.as_str()) != Some("version")));

    let cargo = "[dependencies.foo]\nfeatures = [\"a\"]\nversion = \"1\"\n";
    assert_eq!(parse_manifest(cargo), vec![complete("foo", 2, 11, 12, "1")]);
}

#[test]
fn dev_and_target_sections_count() {
    let cargo = "[dev-dependencies]\na = \"1\"\n[target.'cfg(unix)'.dependencies]\nb = \"2\"\n[features]\nc = \"3\"\n";
    let deps = parse_manifest(cargo);
    let names: Vec<_> = deps.iter().filter_map(|d| d.name().cloned()).collect();
    assert_eq!(names, vec!["a".to_string(), "b".to_string()]);
}

#[test]
fn partial_key_and_other_values() {
    assert_eq!(
        Line::parse("anyho", 3),
        Some(Dependency::Partial { name: "anyho".to_string(), line: 3 })
    );
    assert_eq!(
        Line::parse("anyhow = { git = \"https://example.org\" }", 0),
        Some(Dependency::Other { name: "anyhow".to_string() })
    );
    assert_eq!(Line::parse("# comment", 0), None);
    assert_eq!(Line::parse("", 0), None);
}

#[test]
fn unparseable_requirement_is_kept_as_text() {
    let dep = Line::parse("x = \"1.2.0-alpha.1\"", 0).unwrap();
    let Dependency::WithVersion(dep) = dep else { panic!("expected a version") };
    match dep.version {
        DependencyVersion::Complete { version, .. } => assert_eq!(version.text(), "1.2.0-alpha.1"),
        DependencyVersion::Partial { version, .. } => assert_eq!(version, "1.2.0-alpha.1"),
    }

    let dep = Line::parse("x = \"~~1\"", 0).unwrap();
    let Dependency::WithVersion(dep) = dep else { panic!("expected a version") };
    assert!(matches!(dep.version, DependencyVersion::Partial { .. }));
}

#[test]
fn tracker_replaces_and_separates_documents() {
    let mut t = ManifestTracker::new();
    assert!(t.get("a").is_none());
    t.update_from_source("a", "[dependencies]\nx = \"1\"\n");
    t.update_from_source("b", "[dependencies]\ny = \"2\"\nz = \"3\"\n");
    t.update_from_source("a", "[dependencies]\n");
    assert_eq!(t.get("a").unwrap().len(), 0);
    assert_eq!(t.get("b").unwrap().len(), 2);
}

#[test]
fn crlf_lines_and_indentation() {
    let deps = parse_manifest("[dependencies]\r\n  log = \"1\"\r\n");
    assert_eq!(deps, vec![complete("log", 1, 9, 10, "1")]);
}

#[test]
fn version_text_is_written_back() {
    let Some(Dependency::WithVersion(d)) = Line::parse("a = \">=1, <2\"", 0) else {
        panic!("expected a version")
    };
    assert_eq!(d.version.to_text(), ">=1, <2");
    let Some(Dependency::WithVersion(d)) = Line::parse("a = \"1.2, features", 0) else {
        panic!("expected a version")
    };
    assert_eq!(d.version.to_text(), "1.2");
    assert_eq!(d.version.range(), Range::new(Position::new(0, 5), Position::new(0, 18)));
}

#[test]
fn empty_quotes_keep_range_in_order() {
    let Some(Dependency::WithVersion(d)) = Line::parse("a = \"\"\"", 0) else {
        panic!("expected a version")
    };
    let range = d.version.range();
    assert!(range.start.character <= range.end.character);
    assert_eq!(range, Range::new(Position::new(0, 5), Position::new(0, 5)));
}

#[test]
fn named_table_ignores_keys_being_typed() {
    let cargo = "[dependencies.foo]\nfeatures = [\"derive\"]\nfeat";
    assert!(parse_manifest(cargo).is_empty());
    let mut t = ManifestTracker::new();
    assert!(t.update_from_source("file:///x", cargo).is_empty());
}

#[test]
fn indented_lines_count_columns_in_the_document() {
    let cargo = "[dependencies]\n    a = \"1\"\n\tb = { version = \"2\" }\n[dependencies.c]\n  version = \"3\"\n";
    assert_eq!(
        parse_manifest(cargo),
        vec![
            complete("a", 1, 9, 10, "1"),
            complete("b", 2, 18, 19, "2"),
            complete("c", 4, 13, 14, "3"),
        ]
    );
}
