use vstd::prelude::*;

verus! {

/// The command line: a subcommand, or none for the interactive prompt.
pub struct Cli {
    pub command: Option<Commands>,
}

pub enum Commands {
    /// Runs a `.mew` file.
    Run { file_path: String },
    /// Prints the version.
    Version,
    /// Asks for a newer release.
    Upgrade { force: bool },
    /// Creates a new project, named or asked for.
    Init { name: Option<String> },
    /// Runs the start script named in `mew.toml`.
    Start,
}

} // verus!
