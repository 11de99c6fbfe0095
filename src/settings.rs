use vstd::prelude::*;
use vstd::string::*;

verus! {

/// How the server is run and which project files go into the server
/// directory.
#[derive(Debug, Clone)]
pub struct ProjectSettings {
    /// The Java launcher.
    pub java_runtime: String,
    pub jvm_options: Vec<String>,
    pub server_args: Vec<String>,
    /// Values for the placeholders of processed files, by variable name.
    pub env: Vec<(String, String)>,
    /// Target path in the server directory to source path in the project.
    pub files: Vec<(String, String)>,
}

/// Whether no two pairs share a key.
pub open spec fn distinct_keys(pairs: Seq<(String, String)>) -> bool {
    forall|a: int, b: int|
        0 <= a < pairs.len() && 0 <= b < pairs.len() && a != b ==> (#[trigger] pairs[a]).0@ != (
        #[trigger] pairs[b]).0@
}

impl ProjectSettings {
    /// Well-formed: each variable has one value and each target one source
    /// (they are mappings in the settings file).
    pub open spec fn wf(&self) -> bool {
        distinct_keys(self.env@) && distinct_keys(self.files@)
    }
}

impl Default for ProjectSettings {
    /// The settings used when the project has no settings file: `java`,
    /// and nothing else.
    fn default() -> (r: ProjectSettings)
        ensures
            r.java_runtime@ == "java"@,
            r.jvm_options@.len() == 0,
            r.server_args@.len() == 0,
            r.env@.len() == 0,
            r.files@.len() == 0,
            r.wf(),
    {
        ProjectSettings {
            java_runtime: String::from_str("java"),
            jvm_options: Vec::new(),
            server_args: Vec::new(),
            env: Vec::new(),
            files: Vec::new(),
        }
    }
}

/// The base settings file.
pub open spec fn base_settings_spec() -> Seq<char> {
    "settings.yml"@
}

/// The development settings file, tried first in development.
pub open spec fn dev_settings_spec() -> Seq<char> {
    "settings.dev.yml"@
}

} // verus!
