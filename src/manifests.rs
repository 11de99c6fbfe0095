use vstd::prelude::*;

verus! {

/// The installed server artifact: its file name in the versions cache and
/// the source string it was obtained from.
#[derive(Debug, Clone)]
pub struct VersionManifest {
    pub jar_file: String,
    pub source: String,
}

impl VersionManifest {
    /// The record of artifact `jar_file`, obtained from `source`.
    pub fn new(source: &str, jar_file: String) -> (r: VersionManifest)
        ensures
            r.jar_file == jar_file,
            r.source@ == source@,
    {
        VersionManifest { jar_file, source: source.to_owned() }
    }
}

/// An installed dependency: its file name in the dependencies cache and
/// the source string it was obtained from.
#[derive(Debug, Clone)]
pub struct DependencyDetails {
    pub file_name: String,
    pub source: String,
}

/// An installed dependency as plain values: name, file name, source.
pub type Row = (Seq<char>, Seq<char>, Seq<char>);

/// The plain values of one named entry.
pub open spec fn row_of(entry: (String, DependencyDetails)) -> Row {
    (entry.0@, entry.1.file_name@, entry.1.source@)
}

/// The plain values of named entries, in order.
pub open spec fn rows_of(entries: Seq<(String, DependencyDetails)>) -> Seq<Row> {
    entries.map_values(|e: (String, DependencyDetails)| row_of(e))
}

/// Whether no two rows share a dependency name.
pub open spec fn distinct_names(entries: Seq<(String, DependencyDetails)>) -> bool {
    forall|a: int, b: int|
        0 <= a < entries.len() && 0 <= b < entries.len() && a != b ==> (#[trigger] entries[a]).0@
            != (#[trigger] entries[b]).0@
}

/// Whether some row has the dependency name `name`.
pub open spec fn has_name(entries: Seq<(String, DependencyDetails)>, name: Seq<char>) -> bool {
    exists|k: int| 0 <= k < entries.len() && (#[trigger] entries[k]).0@ == name
}

/// The installed dependencies, one row per dependency name, in the order in
/// which they were declared.
#[derive(Debug, Clone)]
pub struct DependenciesManifest {
    pub dependencies: Vec<(String, DependencyDetails)>,
}

impl DependenciesManifest {
    /// A manifest of the given entries.
    pub fn new(dependencies: Vec<(String, DependencyDetails)>) -> (r: DependenciesManifest)
        ensures
            r.dependencies == dependencies,
    {
        DependenciesManifest { dependencies }
    }

    /// Well-formed: each dependency name has one row.
    pub open spec fn wf(&self) -> bool {
        distinct_names(self.dependencies@)
    }

    /// The plain values of its entries.
    pub open spec fn rows(&self) -> Seq<Row> {
        rows_of(self.dependencies@)
    }
}

/// The two documents of the install cache.
#[derive(Debug, Clone, Copy, PartialEq, Eq, Structural)]
pub enum Manifest {
    /// The installed server artifact.
    Version,
    /// The installed dependencies.
    Dependencies,
}

impl Manifest {
    /// The file name of the document in the data directory.
    pub open spec fn file_name_spec(&self) -> Seq<char> {
        match self {
            Manifest::Version => "version.yml"@,
            Manifest::Dependencies => "dependencies.yml"@,
        }
    }

    /// The file name of the document in the data directory.
    pub fn file_name(&self) -> (r: &'static str)
        ensures
            r@ == self.file_name_spec(),
    {
        match self {
            Manifest::Version => "version.yml",
            Manifest::Dependencies => "dependencies.yml",
        }
    }
}

} // verus!
