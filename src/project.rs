use vstd::prelude::*;
use crate::manifests::Manifest;
use crate::paths::{join_path, path_join};
use crate::settings::{ProjectSettings, base_settings_spec, dev_settings_spec};
use crate::source::{Source, classify_spec};

verus! {

/// The server artifact of a project.
#[derive(Debug, Clone)]
pub struct Server {
    /// URL or local path of the artifact.
    pub source: String,
    pub brand: String,
    pub version: String,
}

/// A dependency as declared in the project file.
#[derive(Debug, Clone)]
pub struct Dependency {
    /// URL or local path.
    pub source: Option<String>,
    pub version: Option<String>,
    /// Whether a failure to install it aborts the install; no by default.
    pub required: Option<bool>,
}

/// A declared dependency, resolved into what the installer works on.
#[derive(Debug, Clone)]
pub struct DependencyEntry {
    /// The dependency's name, unique in its project.
    pub name: String,
    pub source: Source,
    pub required: bool,
}

impl Dependency {
    /// The installer's view of this dependency, named `name`.
    pub fn into_entry(self, name: String) -> (r: DependencyEntry)
        ensures
            r.name == name,
            r.required == (self.required == Some(true)),
            r.source == classify_spec(self.source),
    {
        let required = match self.required {
            Some(b) => b,
            None => false,
        };
        DependencyEntry { name, source: Source::classify(self.source), required }
    }
}

/// Whether no two entries share a name.
pub open spec fn distinct_entry_names(entries: Seq<DependencyEntry>) -> bool {
    forall|a: int, b: int|
        0 <= a < entries.len() && 0 <= b < entries.len() && a != b ==> (#[trigger] entries[a]).name@
            != (#[trigger] entries[b]).name@
}

/// Where a dependency goes in the server directory.
#[derive(Debug, Clone, Copy, PartialEq, Eq, Structural)]
pub enum DependencyType {
    Mod,
    Plugin,
    DataPack,
    ResourcePack,
}

impl DependencyType {
    /// The server subdirectory that holds dependencies of this type; none
    /// for the types that are not placed yet.
    pub fn directory(&self) -> (r: Option<&'static str>)
        ensures
            *self == DependencyType::Mod ==> r == Some("mods"),
            *self == DependencyType::Plugin ==> r == Some("plugins"),
            *self == DependencyType::DataPack ==> r is None,
            *self == DependencyType::ResourcePack ==> r is None,
    {
        match self {
            DependencyType::Mod => Some("mods"),
            DependencyType::Plugin => Some("plugins"),
            _ => None,
        }
    }
}

/// A project as described by its project file.
#[derive(Debug, Clone)]
pub struct ProjectMetadata {
    pub name: String,
    pub server: Server,
    /// The declared dependencies, by name (each name once, as the keys of
    /// the project file's mapping), in declaration order.
    pub dependencies: Vec<(String, Dependency)>,
}

/// Whether no two declarations share a name.
pub open spec fn distinct_dependency_names(dependencies: Seq<(String, Dependency)>) -> bool {
    forall|a: int, b: int|
        0 <= a < dependencies.len() && 0 <= b < dependencies.len() && a != b ==> (
        #[trigger] dependencies[a]).0@ != (#[trigger] dependencies[b]).0@
}

impl ProjectMetadata {
    /// Well-formed: each dependency name is declared once.
    pub open spec fn wf(&self) -> bool {
        distinct_dependency_names(self.dependencies@)
    }
}

/// The installer's view of every declared dependency, in order.
pub fn dependency_entries(dependencies: &Vec<(String, Dependency)>) -> (r: Vec<DependencyEntry>)
    ensures
        r@.len() == dependencies@.len(),
        distinct_dependency_names(dependencies@) ==> distinct_entry_names(r@),
        forall|i: int|
            0 <= i < r@.len() ==> #[trigger] r@[i].name == dependencies@[i].0 && r@[i].required
                == (dependencies@[i].1.required == Some(true)) && r@[i].source == classify_spec(
                dependencies@[i].1.source,
            ),
{
    let mut r: Vec<DependencyEntry> = Vec::new();
    let mut i: usize = 0;
    while i < dependencies.len()
        invariant
            i <= dependencies@.len(),
            r@.len() == i,
            forall|k: int|
                0 <= k < i ==> #[trigger] r@[k].name == dependencies@[k].0 && r@[k].required
                    == (dependencies@[k].1.required == Some(true)) && r@[k].source
                    == classify_spec(dependencies@[k].1.source),
        decreases dependencies@.len() - i,
    {
        let name = dependencies[i].0.clone();
        let source = match &dependencies[i].1.source {
            Some(s) => Some(s.clone()),
            None => None,
        };
        let dep = Dependency { source, version: None, required: dependencies[i].1.required };
        r.push(dep.into_entry(name));
        i += 1;
    }
    assert(forall|a: int| 0 <= a < r@.len() ==> (#[trigger] r@[a]).name == dependencies@[a].0);
    r
}

/// A loaded project: its root directory and its description.
#[derive(Debug, Clone)]
pub struct Project {
    pub root_directory: String,
    pub project_details: ProjectMetadata,
}

impl Project {
    /// The project rooted at `directory`.
    pub fn new(directory: String, details: ProjectMetadata) -> (r: Project)
        ensures
            r.root_directory == directory,
            r.project_details == details,
    {
        Project { root_directory: directory, project_details: details }
    }
}

/// The directory, under the root `root`, that holds the install cache.
pub open spec fn data_directory_spec(root: Seq<char>) -> Seq<char> {
    path_join(root, ".chain"@)
}

impl Project {
    /// The directory that holds the install cache: `.chain` under the root.
    pub fn data_directory(&self) -> (r: String)
        ensures
            r@ == data_directory_spec(self.root_directory@),
    {
        join_path(self.root_directory.as_str(), ".chain")
    }

    /// The cache directory of server artifacts.
    pub fn versions_directory(&self) -> (r: String)
        ensures
            r@ == path_join(data_directory_spec(self.root_directory@), "versions"@),
    {
        let data = self.data_directory();
        join_path(data.as_str(), "versions")
    }

    /// The cache directory of dependency files.
    pub fn dependencies_directory(&self) -> (r: String)
        ensures
            r@ == path_join(data_directory_spec(self.root_directory@), "dependencies"@),
    {
        let data = self.data_directory();
        join_path(data.as_str(), "dependencies")
    }

    /// The directory the server is assembled and run in.
    pub fn server_directory(&self) -> (r: String)
        ensures
            r@ == path_join(self.root_directory@, "server"@),
    {
        join_path(self.root_directory.as_str(), "server")
    }

    /// The path of the cache document `kind`, in the data directory.
    pub fn get_manifest(&self, kind: Manifest) -> (r: String)
        ensures
            r@ == path_join(data_directory_spec(self.root_directory@), kind.file_name_spec()),
    {
        let data = self.data_directory();
        join_path(data.as_str(), kind.file_name())
    }

    /// The settings files of the project, in the order they are tried: in
    /// development the development file first, then the base file.
    pub fn settings_files(&self, is_dev: bool) -> (r: Vec<String>)
        ensures
            is_dev ==> r@.len() == 2 && r@[0]@ == path_join(
                self.root_directory@,
                dev_settings_spec(),
            ) && r@[1]@ == path_join(self.root_directory@, base_settings_spec()),
            !is_dev ==> r@.len() == 1 && r@[0]@ == path_join(
                self.root_directory@,
                base_settings_spec(),
            ),
    {
        let mut r: Vec<String> = Vec::new();
        if is_dev {
            r.push(join_path(self.root_directory.as_str(), "settings.dev.yml"));
        }
        r.push(join_path(self.root_directory.as_str(), "settings.yml"));
        r
    }

    /// The project's settings, given what its development and base settings
    /// files held (`None` for one that is missing or unreadable): in
    /// development the development file wins, otherwise the base file.
    /// `None` when no file applies: the caller then warns and uses defaults.
    pub fn get_settings(
        &self,
        is_dev: bool,
        dev: Option<ProjectSettings>,
        base: Option<ProjectSettings>,
    ) -> (r: Option<ProjectSettings>)
        ensures
            r == if is_dev && dev is Some {
                dev
            } else {
                base
            },
    {
        if is_dev {
            if let Some(settings) = dev {
                return Some(settings);
            }
        }
        base
    }
}

} // verus!
