use chain::error::{ErrorKind, FetchError};
use chain::installer::{
    check_cache, decide_install, declared_sources, prepare_dependencies, InstallAction, Installer,
    Outcome, WarningKind,
};
use chain::manifests::{DependenciesManifest, DependencyDetails};
use chain::project::{dependency_entries, Dependency, DependencyEntry};
use chain::source::{PathState, Source};

fn entry(name: &str, source: Option<&str>, required: bool) -> DependencyEntry {
    Dependency { source: source.map(|s| s.to_string()), version: None, required: Some(required) }
        .into_entry(name.to_string())
}

fn row(name: &str, file: &str, source: &str) -> (String, DependencyDetails) {
    (name.to_string(), DependencyDetails { file_name: file.to_string(), source: source.to_string() })
}

fn pairs(p: &[(&str, &str)]) -> Vec<(String, String)> {
    p.iter().map(|(a, b)| (a.to_string(), b.to_string())).collect()
}

/// Runs an install over `entries`, the cache holding a file for each name
/// in `cached`; fetches succeed except for the names in `failing`, which
/// fail with `SourceNotFound`. Returns the manifest (or the error) and the
/// names that were fetched.
fn run_install(
    entries: &[DependencyEntry],
    force: bool,
    cached: &[&str],
    failing: &[&str],
) -> (Result<DependenciesManifest, ErrorKind>, Vec<String>, Installer) {
    let mut installer = Installer::new();
    let mut fetched = Vec::new();
    for e in entries {
        let state = if cached.contains(&e.name.as_str()) { PathState::File } else { PathState::Missing };
        let outcome = match decide_install(e, force, state) {
            InstallAction::Skip => Outcome::Skipped,
            InstallAction::SkipDirectory => Outcome::DirectoryInTheWay,
            InstallAction::Unresolved => Outcome::Unresolved,
            InstallAction::Fetch => {
                fetched.push(e.name.clone());
                if failing.contains(&e.name.as_str()) {
                    Outcome::Failed(FetchError::SourceNotFound)
                } else {
                    Outcome::Fetched
                }
            }
        };
        if let Err(err) = installer.record(e, outcome) {
            return (Err(err.kind), fetched, installer);
        }
    }
    (Ok(installer.clone().finish()), fetched, installer)
}

#[test]
fn decisions() {
    let e = entry("a", Some("libs/a.jar"), false);
    assert_eq!(decide_install(&e, false, PathState::File), InstallAction::Skip);
    assert_eq!(decide_install(&e, false, PathState::Directory), InstallAction::SkipDirectory);
    assert_eq!(decide_install(&e, false, PathState::Missing), InstallAction::Fetch);
    assert_eq!(decide_install(&e, true, PathState::File), InstallAction::Fetch);
    let u = entry("u", None, false);
    assert_eq!(decide_install(&u, false, PathState::Missing), InstallAction::Unresolved);
}

#[test]
fn install_twice_is_idempotent() {
    let entries = vec![
        entry("a", Some("https://example.com/files/a-1.jar"), true),
        entry("b", Some("libs/b.jar"), false),
    ];
    let (first, fetched1, _) = run_install(&entries, false, &[], &[]);
    let first = first.unwrap();
    assert_eq!(fetched1, vec!["a".to_string(), "b".to_string()]);
    let (second, fetched2, _) = run_install(&entries, false, &["a", "b"], &[]);
    let second = second.unwrap();
    assert!(fetched2.is_empty());
    assert_eq!(format!("{:?}", first), format!("{:?}", second));
    assert_eq!(first.dependencies[0].1.file_name, "a-1.jar");
    assert_eq!(first.dependencies[1].1.file_name, "b.jar");
    assert_eq!(first.dependencies[1].1.source, "libs/b.jar");
}

#[test]
fn required_missing_source_fails_the_install() {
    let entries = vec![entry("a", Some("libs/a.jar"), false), entry("b", Some("missing/b.jar"), true)];
    let (r, _, _) = run_install(&entries, false, &[], &["b"]);
    assert_eq!(r.err(), Some(ErrorKind::SourceNotFound));
}

#[test]
fn optional_missing_source_is_left_out_with_a_warning() {
    let entries = vec![entry("a", Some("libs/a.jar"), false), entry("b", Some("missing/b.jar"), false)];
    let (r, _, installer) = run_install(&entries, false, &[], &["b"]);
    let manifest = r.unwrap();
    assert_eq!(manifest.dependencies.len(), 1);
    assert_eq!(manifest.dependencies[0].0, "a");
    assert_eq!(installer.warnings.len(), 1);
    assert_eq!(installer.warnings[0].0, "b");
    assert_eq!(installer.warnings[0].1, WarningKind::Failed(FetchError::SourceNotFound));
}

#[test]
fn unresolved_dependencies() {
    let mut installer = Installer::new();
    assert!(installer.record(&entry("x", None, false), Outcome::Unresolved).is_ok());
    assert_eq!(installer.warnings[0].1, WarningKind::Unresolved);
    let err = installer.record(&entry("y", None, true), Outcome::Unresolved).unwrap_err();
    assert_eq!(err.kind, ErrorKind::SourceNotFound);
    assert_eq!(err.subject, "y");
    assert!(installer.installed.is_empty());
}

#[test]
fn directory_in_the_way_is_a_warning() {
    let mut installer = Installer::new();
    let e = entry("d", Some("libs/d.jar"), true);
    assert_eq!(decide_install(&e, false, PathState::Directory), InstallAction::SkipDirectory);
    assert!(installer.record(&e, Outcome::DirectoryInTheWay).is_ok());
    assert!(installer.installed.is_empty());
    assert_eq!(installer.warnings[0].1, WarningKind::DirectoryInTheWay);
}

#[test]
fn changed_source_makes_the_cache_stale() {
    let cached = DependenciesManifest::new(vec![row("a", "a.jar", "url1"), row("b", "b.jar", "path1")]);
    let same = pairs(&[("a", "url1"), ("b", "path1")]);
    assert!(check_cache(&same, &cached).is_ok());
    let changed = pairs(&[("a", "url1"), ("b", "path2")]);
    assert_eq!(check_cache(&changed, &cached).unwrap_err().kind, ErrorKind::StaleCache);
}

#[test]
fn cache_check_ignores_order() {
    let cached = DependenciesManifest::new(vec![row("a", "a.jar", "url1"), row("b", "b.jar", "path1")]);
    let reordered = pairs(&[("b", "path1"), ("a", "url1")]);
    assert!(check_cache(&reordered, &cached).is_ok());
}

#[test]
fn cache_check_compares_sizes() {
    let cached = DependenciesManifest::new(vec![row("a", "a.jar", "url1")]);
    let more = pairs(&[("a", "url1"), ("b", "path1")]);
    assert_eq!(check_cache(&more, &cached).unwrap_err().kind, ErrorKind::StaleCache);
    let fewer = pairs(&[]);
    assert!(check_cache(&fewer, &cached).is_err());
}

#[test]
fn prepared_dependency_files() {
    let cached = DependenciesManifest::new(vec![row("a", "a-1.jar", "url1"), row("b", "b.jar", "path1")]);
    let files = prepare_dependencies(&cached, &pairs(&[("a", "url1"), ("b", "path1")])).unwrap();
    assert_eq!(files, vec!["a-1.jar".to_string(), "b.jar".to_string()]);
    let stale = prepare_dependencies(&cached, &pairs(&[("a", "url2"), ("b", "path1")]));
    assert_eq!(stale.unwrap_err().kind, ErrorKind::StaleCache);
}

#[test]
fn declared_pairs_skip_unresolved_entries() {
    let entries = vec![entry("a", Some("u"), false), entry("n", None, false), entry("b", Some("p"), true)];
    assert_eq!(declared_sources(&entries), pairs(&[("a", "u"), ("b", "p")]));
}

#[test]
fn entries_from_declarations() {
    let deps = vec![
        ("a".to_string(), Dependency { source: Some("https://x.org/a.jar".into()), version: None, required: None }),
        ("b".to_string(), Dependency { source: None, version: Some("1".into()), required: Some(true) }),
    ];
    let entries = dependency_entries(&deps);
    assert_eq!(entries.len(), 2);
    assert!(matches!(entries[0].source, Source::Url(_)));
    assert!(!entries[0].required);
    assert!(matches!(entries[1].source, Source::Unspecified));
    assert!(entries[1].required);
}

#[test]
fn installed_names_are_tracked() {
    let mut installer = Installer::new();
    let e = entry("a", Some("libs/a.jar"), false);
    assert!(!installer.has_installed(&"a".to_string()));
    installer.record(&e, Outcome::Fetched).unwrap();
    assert!(installer.has_installed(&"a".to_string()));
    assert!(!installer.has_installed(&"b".to_string()));
}
