use crates_lsp::editor::{completion_text, dependency_at, update_status, UpdateStatus};
use crates_lsp::parse::{Dependency, DependencyVersion, DependencyWithVersion, Line, Position, Range};
use crates_lsp::version::{CrateVersion, Requirement};

fn version_of(line: &str) -> DependencyVersion {
    match Line::parse(line, 0) {
        Some(Dependency::WithVersion(d)) => d.version,
        other => panic!("expected a version, got {other:?}"),
    }
}

#[test]
fn status_up_to_date_needs_update_unknown() {
    let newest = Some(CrateVersion::parse("1.4.0").unwrap());
    assert_eq!(update_status(&version_of("a = \"1.2\""), &newest), UpdateStatus::UpToDate);
    assert_eq!(update_status(&version_of("a = \"=1.2\""), &newest), UpdateStatus::NeedsUpdate);
    assert_eq!(update_status(&version_of("a = \"1.2"), &newest), UpdateStatus::NeedsUpdate);
    assert_eq!(update_status(&version_of("a = \"1.2\""), &None), UpdateStatus::Unknown);
}

#[test]
fn requirement_matching() {
    let req = Requirement::parse(">=1, <2").unwrap();
    assert_eq!(req.text(), ">=1, <2");
    assert!(req.matches(&CrateVersion::parse("1.9.9").unwrap()));
    assert!(!req.matches(&CrateVersion::parse("2.0.0").unwrap()));
    assert!(Requirement::parse("not a requirement").is_none());
}

#[test]
fn cursor_finds_first_dependency() {
    let deps = vec![
        Dependency::Other { name: "x".to_string() },
        Dependency::Partial { name: "ser".to_string(), line: 4 },
        Dependency::WithVersion(DependencyWithVersion {
            name: "log".to_string(),
            version: DependencyVersion::Partial {
                range: Range::new(Position::new(6, 7), Position::new(6, 10)),
                version: "0.4".to_string(),
            },
        }),
    ];
    assert_eq!(dependency_at(&deps, 4, 0), Some(1));
    assert_eq!(dependency_at(&deps, 6, 7), Some(2));
    assert_eq!(dependency_at(&deps, 6, 10), Some(2));
    assert_eq!(dependency_at(&deps, 6, 11), None);
    assert_eq!(dependency_at(&deps, 5, 0), None);
}

#[test]
fn completion_inserts_rest_of_version() {
    assert_eq!(completion_text("1.2", "1.2.5"), ".5");
    assert_eq!(completion_text("^1.", "1.2.5"), "2.5");
    assert_eq!(completion_text(">=", "1.2.5"), "1.2.5");
    assert_eq!(completion_text("2", "1.2.5"), "1.2.5");
    assert_eq!(completion_text("1.2.5.1", "1.2.5"), "1.2.5");
}

#[test]
fn filename_is_the_last_path_segment() {
    let files = crates_lsp::default_files();
    assert!(crates_lsp::settings::matches_filename(&files, "/home/me/project/Cargo.toml"));
    assert!(crates_lsp::settings::matches_filename(&files, "Cargo.toml"));
    assert!(!crates_lsp::settings::matches_filename(&files, "/home/me/Cargo.toml/"));
    assert!(!crates_lsp::settings::matches_filename(&files, "/home/me/Cargo.lock"));
    assert!(!crates_lsp::settings::matches_filename(&vec![], "/Cargo.toml"));
}
