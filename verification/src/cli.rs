//! The command line as the program reads it.
use vstd::prelude::*;

verus! {

/// Subcommands.
#[derive(Debug, Clone, Copy, PartialEq, Eq, Structural)]
pub enum Commands {
    /// Generate `.byedroid.toml` from detected Gradle project settings.
    Init,
    /// Verify external tools and Android project setup.
    Doctor,
}

/// The command line: the project directory (the current directory when absent) and the
/// subcommand (none runs the terminal interface).
#[derive(Debug, Clone)]
pub struct Cli {
    pub project: Option<String>,
    pub command: Option<Commands>,
}

} // verus!
