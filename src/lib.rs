// A declarative server project: a manifest names a server artifact and its
// dependencies (each a URL or a local path). Installing resolves them into a
// local cache and records what was installed; preparing renders project
// files into a server directory, substituting `$CHAIN_<NAME>` placeholders
// in text files; packing writes the server directory into an archive with an
// embedded digest manifest, and unpacking restores it, skipping the files
// that are already up to date.
//
// The modules, leaf first:
//   binary, substitution, processor: classifying and rendering files;
//   digest, source, paths: content digests, source strings and paths;
//   error: the failure taxonomy;
//   manifests, project, settings, cli: the data model;
//   installer: install decisions, the install record and the cache check;
//   package, scripts, template: packing, unpacking, start scripts and the
//   files of a new project.

pub mod binary;
pub mod cli;
pub mod digest;
pub mod error;
pub mod installer;
pub mod manifests;
pub mod package;
pub mod paths;
pub mod processor;
pub mod project;
pub mod scripts;
pub mod settings;
pub mod source;
pub mod substitution;
pub mod template;
