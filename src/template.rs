use vstd::prelude::*;
use vstd::string::*;

verus! {

/// The project file of a new project named `name` whose server artifact
/// comes from `source`.
pub open spec fn project_file_spec(name: Seq<char>, source: Seq<char>) -> Seq<char> {
    "name: "@ + name + "\n\nserver:\n  source: "@ + source
        + "\n  brand: \n  version: \n\ndependencies: {}\n"@
}

/// The project file of a new project named `name` whose server artifact
/// comes from `source`.
pub fn project_file(name: &str, source: &str) -> (r: String)
    ensures
        r@ == project_file_spec(name@, source@),
{
    let mut out = String::from_str("name: ");
    out.append(name);
    out.append("\n\nserver:\n  source: ");
    out.append(source);
    out.append("\n  brand: \n  version: \n\ndependencies: {}\n");
    assert(out@ =~= project_file_spec(name@, source@));
    out
}

/// The settings file of a new project.
pub fn settings_file() -> (r: String)
    ensures
        r@ == "jvm-options:\n  - \"-Dfile.encoding=UTF-8\"\n  - \"-Xmx4G\"\n\nserver-args:\n  - \"--nogui\"\n"@,
{
    String::from_str(
        "jvm-options:\n  - \"-Dfile.encoding=UTF-8\"\n  - \"-Xmx4G\"\n\nserver-args:\n  - \"--nogui\"\n",
    )
}

/// The `.gitignore` of a new project: the cache, the development settings,
/// the assembled servers and local environment files stay out.
pub fn git_ignore_file() -> (r: String)
    ensures
        r@ == "### Chain\n.chain/\n\n# Settings\nsettings.dev.yml\n\n# Server\nserver/\nout/\n\n# Env files\n.env*.local\n"@,
{
    String::from_str(
        "### Chain\n.chain/\n\n# Settings\nsettings.dev.yml\n\n# Server\nserver/\nout/\n\n# Env files\n.env*.local\n",
    )
}

/// The README of a new project.
pub fn readme_file() -> (r: String)
    ensures
        r@ == "## Install\n```bash\nchain install\n```\n\n## Run the server (dev)\n```bash\nchain run\n```\n\n## Pack the server\n```bash\nchain pack\n```\n"@,
{
    String::from_str(
        "## Install\n```bash\nchain install\n```\n\n## Run the server (dev)\n```bash\nchain run\n```\n\n## Pack the server\n```bash\nchain pack\n```\n",
    )
}

} // verus!
