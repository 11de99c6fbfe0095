use chain::error::{Error, ErrorKind, FetchError};
use chain::source::{
    check_local_source, dependency_file, file_name_or, get_filename_from_url, is_url, server_file,
    stored_name, PathState, Source,
};

#[test]
fn urls_and_paths_are_told_apart() {
    assert!(is_url("https://example.com/plugins/worldedit.jar"));
    assert!(!is_url("plugins/worldedit.jar"));
    assert!(!is_url("/opt/server/paper.jar"));
}

#[test]
fn file_name_from_url_path() {
    assert_eq!(get_filename_from_url("https://example.com/files/paper-1.20.jar"), "paper-1.20.jar");
    assert_eq!(get_filename_from_url("https://example.com/a/b.jar?x=1"), "b.jar");
}

#[test]
fn file_name_from_url_without_segments() {
    assert_eq!(get_filename_from_url("data:text/plain,HelloWorld"), "file.chaindf");
}

#[test]
fn file_name_from_url_with_empty_last_segment() {
    assert_eq!(get_filename_from_url("https://example.com/"), "file.chaindf");
    assert_eq!(get_filename_from_url("https://example.com/files/"), "file.chaindf");
    assert_eq!(stored_name("https://example.com/", "f".to_string()), "file.chaindf");
}

#[test]
fn fallback_file_name() {
    assert_eq!(file_name_or(Some("a.jar".to_string()), "b.jar".to_string()), "a.jar");
    assert_eq!(file_name_or(None, "b.jar".to_string()), "b.jar");
}

#[test]
fn stored_names() {
    assert_eq!(stored_name("libs/x.jar", "f".to_string()), "x.jar");
    assert_eq!(stored_name("https://h.org/d/y.jar", "f".to_string()), "y.jar");
    assert_eq!(stored_name("..", "f".to_string()), "f");
}

#[test]
fn dependency_file_names() {
    let name = "worldedit".to_string();
    assert_eq!(dependency_file(&name, "plugins/worldedit-7.jar"), "worldedit-7.jar");
    assert_eq!(dependency_file(&name, "/"), "worldedit.jar");
    assert_eq!(dependency_file(&name, "https://cdn.example.org/we/we-7.2.jar"), "we-7.2.jar");
}

#[test]
fn server_file_names() {
    assert_eq!(server_file("jars/paper.jar"), "paper.jar");
    assert_eq!(server_file("/"), "server.jar");
}

#[test]
fn sources_are_classified() {
    assert!(matches!(Source::classify(None), Source::Unspecified));
    assert!(matches!(Source::classify(Some("https://a.org/x.jar".into())), Source::Url(_)));
    match Source::classify(Some("x.jar".into())) {
        Source::Path(p) => assert_eq!(p, "x.jar"),
        other => panic!("unexpected {:?}", other),
    }
    assert_eq!(Source::Path("p".into()).text(), Some(&"p".to_string()));
    assert_eq!(Source::Unspecified.text(), None);
}

#[test]
fn local_source_checks() {
    assert_eq!(check_local_source(PathState::Missing), Err(FetchError::SourceNotFound));
    assert_eq!(check_local_source(PathState::Directory), Err(FetchError::SourceIsDirectory));
    assert_eq!(check_local_source(PathState::File), Ok(()));
}

#[test]
fn fetch_error_kinds() {
    assert_eq!(FetchError::SourceNotFound.kind(), ErrorKind::SourceNotFound);
    assert_eq!(FetchError::SourceIsDirectory.kind(), ErrorKind::SourceIsDirectory);
    assert_eq!(FetchError::FetchFailed.kind(), ErrorKind::FetchFailed);
    assert_eq!(FetchError::Io.kind(), ErrorKind::IoError);
    let e = Error::new(ErrorKind::InvalidPackage, "server.zip".to_string());
    assert_eq!(e.kind, ErrorKind::InvalidPackage);
    assert_eq!(e.subject, "server.zip");
}

#[test]
fn fetched_file_record() {
    let f = chain::source::DependencyFile::new("a.jar".into(), "libs/a.jar".into(), b"abc");
    assert_eq!(f.filename, "a.jar");
    assert_eq!(f.source, "libs/a.jar");
    assert_eq!(f.hash, "900150983cd24fb0d6963f7d28e17f72");
}
