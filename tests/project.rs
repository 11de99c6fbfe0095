use chain::cli::{Cli, Commands};
use chain::manifests::{DependenciesManifest, Manifest, VersionManifest};
use chain::project::{DependencyType, Project, ProjectMetadata, Server};
use chain::scripts::{start_script, ScriptKind};
use chain::settings::ProjectSettings;
use chain::template::{git_ignore_file, project_file, readme_file, settings_file};

fn project() -> Project {
    let details = ProjectMetadata {
        name: "survival".into(),
        server: Server { source: "jars/paper.jar".into(), brand: "paper".into(), version: "1.20".into() },
        dependencies: vec![],
    };
    Project::new("/srv/survival".to_string(), details)
}

#[test]
fn project_paths() {
    let p = project();
    assert_eq!(p.data_directory(), "/srv/survival/.chain");
    assert_eq!(p.versions_directory(), "/srv/survival/.chain/versions");
    assert_eq!(p.dependencies_directory(), "/srv/survival/.chain/dependencies");
    assert_eq!(p.server_directory(), "/srv/survival/server");
    assert_eq!(p.get_manifest(Manifest::Version), "/srv/survival/.chain/version.yml");
    assert_eq!(p.get_manifest(Manifest::Dependencies), "/srv/survival/.chain/dependencies.yml");
    assert_eq!(Manifest::Version.file_name(), "version.yml");
}

#[test]
fn settings_files_in_order() {
    let p = project();
    assert_eq!(
        p.settings_files(true),
        vec!["/srv/survival/settings.dev.yml".to_string(), "/srv/survival/settings.yml".to_string()]
    );
    assert_eq!(p.settings_files(false), vec!["/srv/survival/settings.yml".to_string()]);
}

#[test]
fn settings_selection() {
    let p = project();
    let mut dev = ProjectSettings::default();
    dev.java_runtime = "java-dev".into();
    let mut base = ProjectSettings::default();
    base.java_runtime = "java-base".into();
    assert_eq!(p.get_settings(true, Some(dev.clone()), Some(base.clone())).unwrap().java_runtime, "java-dev");
    assert_eq!(p.get_settings(true, None, Some(base.clone())).unwrap().java_runtime, "java-base");
    assert_eq!(p.get_settings(false, Some(dev.clone()), Some(base)).unwrap().java_runtime, "java-base");
    assert!(p.get_settings(false, Some(dev), None).is_none());
}

#[test]
fn default_settings() {
    let s = ProjectSettings::default();
    assert_eq!(s.java_runtime, "java");
    assert!(s.jvm_options.is_empty() && s.server_args.is_empty() && s.env.is_empty() && s.files.is_empty());
}

#[test]
fn start_scripts() {
    let jvm = vec!["-Dfile.encoding=UTF-8".to_string(), "-Xmx4G".to_string()];
    let args = vec!["--nogui".to_string()];
    assert_eq!(
        start_script(ScriptKind::Bash, "java", &jvm, "paper.jar", &args),
        "#!/bin/bash\n# Chain start script\n\njava -Dfile.encoding=UTF-8 -Xmx4G -jar paper.jar --nogui\n"
    );
    assert_eq!(
        start_script(ScriptKind::Batch, "java", &vec![], "paper.jar", &vec![]),
        "@echo off\n:: Chain start script\n\njava  -jar paper.jar \n"
    );
    assert_eq!(ScriptKind::Bash.file_name(), "start.sh");
    assert_eq!(ScriptKind::Batch.file_name(), "start.bat");
}

#[test]
fn manifests() {
    let v = VersionManifest::new("https://x.org/paper.jar", "paper.jar".to_string());
    assert_eq!(v.jar_file, "paper.jar");
    assert_eq!(v.source, "https://x.org/paper.jar");
    assert!(DependenciesManifest::new(vec![]).dependencies.is_empty());
}

#[test]
fn dependency_directories() {
    assert_eq!(DependencyType::Mod.directory(), Some("mods"));
    assert_eq!(DependencyType::Plugin.directory(), Some("plugins"));
    assert_eq!(DependencyType::DataPack.directory(), None);
    assert_eq!(DependencyType::ResourcePack.directory(), None);
}

#[test]
fn commands() {
    let cli = Cli { command: Commands::Run { prod: true, no_setup: false } };
    assert!(matches!(cli.command, Commands::Run { prod: true, no_setup: false }));
}

#[test]
fn new_project_files() {
    assert_eq!(
        project_file("survival", "jars/paper.jar"),
        "name: survival\n\nserver:\n  source: jars/paper.jar\n  brand: \n  version: \n\ndependencies: {}\n"
    );
    assert!(settings_file().starts_with("jvm-options:\n"));
    assert!(settings_file().contains("\"--nogui\""));
    assert!(git_ignore_file().contains(".chain/\n"));
    assert!(readme_file().contains("chain install"));
}
