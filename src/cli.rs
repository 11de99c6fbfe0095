use vstd::prelude::*;

verus! {

/// The command line: one subcommand.
#[derive(Debug, Clone)]
pub struct Cli {
    pub command: Commands,
}

/// The subcommands.
#[derive(Debug, Clone)]
pub enum Commands {
    /// Create a project from the basic template, in `path` or here.
    Init { path: Option<String> },
    /// Install the server artifact and the dependencies; `force` fetches
    /// again what is already cached.
    Install { force: bool },
    /// Prepare the server directory (unless `no_setup`) and run the server,
    /// with the production settings if `prod`.
    Run { prod: bool, no_setup: bool },
    /// Assemble the server directory and pack it into an archive, with the
    /// development settings if `dev`.
    Pack { dev: bool },
    /// Unpack `archive` here; `force` rewrites files that are up to date.
    Unpack { archive: String, force: bool },
}

} // verus!
