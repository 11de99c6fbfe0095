use vstd::prelude::*;
use vstd::string::*;
use crate::digest::{checksum, md5_hex};

verus! {

/// Whether `s` parses as an absolute URL.
pub uninterp spec fn url_parses(s: Seq<char>) -> bool;

/// The last segment of the path of the URL `s`; none for a URL that
/// cannot be a base (such as `data:` URLs).
pub uninterp spec fn url_last_segment(s: Seq<char>) -> Option<Seq<char>>;

/// The final component of the path `s`, if it has one.
pub uninterp spec fn path_file_name(s: Seq<char>) -> Option<Seq<char>>;

/// Relies on url::Url::parse: whether it accepts the text.
#[verifier::external_body]
fn parses_as_url(s: &str) -> (r: bool)
    ensures
        r == url_parses(s@),
{
    url::Url::parse(s).is_ok()
}

/// Relies on url::Url::parse and url::Url::path_segments: the last segment
/// of the parsed URL's path.
#[verifier::external_body]
fn last_path_segment(s: &str) -> (r: Option<String>)
    requires
        url_parses(s@),
    ensures
        match r {
            Some(seg) => url_last_segment(s@) == Some(seg@),
            None => url_last_segment(s@) is None,
        },
{
    let url = url::Url::parse(s).ok()?;
    let segment = url.path_segments()?.last()?;
    Some(segment.to_string())
}

/// Relies on std::path::Path::file_name: the final component of a path,
/// none when the path ends in `..` or is a root.
#[verifier::external_body]
fn file_name_of_path(s: &str) -> (r: Option<String>)
    ensures
        match r {
            Some(n) => path_file_name(s@) == Some(n@),
            None => path_file_name(s@) is None,
        },
{
    let name = std::path::Path::new(s).file_name()?;
    Some(name.to_str()?.to_string())
}

/// Whether `input` is a URL (else it is taken as a filesystem path).
pub fn is_url(input: &str) -> (r: bool)
    ensures
        r == url_parses(input@),
{
    parses_as_url(input)
}

/// The name that a file downloaded from `url` gets when none is given: the
/// last path segment, or `file.chaindf` when the URL has no path segments
/// or its last segment is empty (as for `https://example.com/`).
pub open spec fn url_file_name(url: Seq<char>) -> Seq<char> {
    match url_last_segment(url) {
        Some(seg) => if seg.len() > 0 {
            seg
        } else {
            "file.chaindf"@
        },
        None => "file.chaindf"@,
    }
}

/// `name` if there is one, else `fallback`.
pub fn file_name_or(name: Option<String>, fallback: String) -> (r: String)
    ensures
        r@ == match name {
            Some(n) => n@,
            None => fallback@,
        },
{
    match name {
        Some(n) => n,
        None => fallback,
    }
}

/// The file name that a download from `url` is stored under.
pub fn get_filename_from_url(url: &str) -> (r: String)
    requires
        url_parses(url@),
    ensures
        r@ == url_file_name(url@),
{
    let segment = match last_path_segment(url) {
        Some(seg) => if seg.as_str().is_empty() {
            None
        } else {
            Some(seg)
        },
        None => None,
    };
    file_name_or(segment, String::from_str("file.chaindf"))
}

/// Where a dependency's source points.
#[derive(Debug, Clone)]
pub enum Source {
    /// A URL, fetched with a single request.
    Url(String),
    /// A local file, copied.
    Path(String),
    /// Neither was given: the dependency cannot be resolved.
    Unspecified,
}

/// The source a declared source string stands for: a URL if it parses as
/// one, else a path; none when no string is given.
pub open spec fn classify_spec(source: Option<String>) -> Source {
    match source {
        None => Source::Unspecified,
        Some(s) => if url_parses(s@) {
            Source::Url(s)
        } else {
            Source::Path(s)
        },
    }
}

impl Source {
    /// The source string, if any.
    pub open spec fn text_spec(&self) -> Option<Seq<char>> {
        match self {
            Source::Url(u) => Some(u@),
            Source::Path(p) => Some(p@),
            Source::Unspecified => None,
        }
    }

    /// Classifies a source string: a URL if it parses as one, else a path.
    pub fn classify(source: Option<String>) -> (r: Source)
        ensures
            r == classify_spec(source),
    {
        match source {
            None => Source::Unspecified,
            Some(s) => if is_url(s.as_str()) {
                Source::Url(s)
            } else {
                Source::Path(s)
            },
        }
    }

    /// The source string, if any.
    pub fn text(&self) -> (r: Option<&String>)
        ensures
            match r {
                Some(s) => self.text_spec() == Some(s@),
                None => self.text_spec() is None,
            },
    {
        match self {
            Source::Url(u) => Some(u),
            Source::Path(p) => Some(p),
            Source::Unspecified => None,
        }
    }
}

/// The file name under which a source is stored in a cache directory: the
/// URL's file name for a URL, else the path's final component, else
/// `fallback`.
pub open spec fn stored_file_name(source: Seq<char>, fallback: Seq<char>) -> Seq<char> {
    if url_parses(source) {
        url_file_name(source)
    } else {
        match path_file_name(source) {
            Some(n) => n,
            None => fallback,
        }
    }
}

/// The file name under which `source` is stored in a cache directory, with
/// `fallback` for a path that has no final component.
pub fn stored_name(source: &str, fallback: String) -> (r: String)
    ensures
        r@ == stored_file_name(source@, fallback@),
{
    if is_url(source) {
        get_filename_from_url(source)
    } else {
        file_name_or(file_name_of_path(source), fallback)
    }
}

/// The fallback file name of dependency `name`: `<name>.jar`.
pub open spec fn jar_name(name: Seq<char>) -> Seq<char> {
    name + ".jar"@
}

/// The file name under which dependency `name` with source `source` is
/// cached.
pub open spec fn dependency_file_name(name: Seq<char>, source: Seq<char>) -> Seq<char> {
    stored_file_name(source, jar_name(name))
}

/// The file name under which dependency `name` with source `source` is
/// cached.
pub fn dependency_file(name: &String, source: &str) -> (r: String)
    ensures
        r@ == dependency_file_name(name@, source@),
{
    let fallback = name.clone().concat(".jar");
    stored_name(source, fallback)
}

/// The file name under which the server artifact from `source` is cached.
pub open spec fn server_file_name(source: Seq<char>) -> Seq<char> {
    stored_file_name(source, "server.jar"@)
}

/// The file name under which the server artifact from `source` is cached.
pub fn server_file(source: &str) -> (r: String)
    ensures
        r@ == server_file_name(source@),
{
    stored_name(source, String::from_str("server.jar"))
}

/// What is found at a local path.
#[derive(Debug, Clone, Copy, PartialEq, Eq, Structural)]
pub enum PathState {
    Missing,
    File,
    Directory,
}

/// Whether a local source at a path in `state` can be copied: it must be
/// an existing single file.
pub fn check_local_source(state: PathState) -> (r: Result<(), crate::error::FetchError>)
    ensures
        state == PathState::Missing ==> r == Err::<(), _>(crate::error::FetchError::SourceNotFound),
        state == PathState::Directory ==> r == Err::<(), _>(
            crate::error::FetchError::SourceIsDirectory,
        ),
        state == PathState::File ==> r is Ok,
{
    match state {
        PathState::Missing => Err(crate::error::FetchError::SourceNotFound),
        PathState::Directory => Err(crate::error::FetchError::SourceIsDirectory),
        PathState::File => Ok(()),
    }
}

/// A fetched file: its name in the cache, the source it came from and the
/// digest of its bytes.
#[derive(Debug, Clone)]
pub struct DependencyFile {
    pub filename: String,
    pub source: String,
    pub hash: String,
}

impl DependencyFile {
    /// The record of `contents`, fetched from `source` and stored as
    /// `filename`.
    pub fn new(filename: String, source: String, contents: &[u8]) -> (r: DependencyFile)
        ensures
            r.filename == filename,
            r.source == source,
            r.hash@ == md5_hex(contents@),
    {
        DependencyFile { filename, source, hash: checksum(contents) }
    }
}

} // verus!
