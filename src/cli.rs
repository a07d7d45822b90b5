use vstd::prelude::*;

verus! {

/// A parsed command line.
#[derive(Debug, Clone)]
pub struct Cli {
    pub command: Commands,
}

/// The subcommands.
#[derive(Debug, Clone)]
pub enum Commands {
    /// Link the installations found in the cache into the canonical directory.
    Setup,
    /// List the versions in the canonical directory.
    List { names_only: bool, short: bool },
    /// Show the active version.
    Status,
    /// Print the script that activates a version.
    Activate { distro: String },
    /// Print the script that deactivates the active version.
    Deactivate,
    /// Show what a canonical entry holds.
    Info { distro: String },
    /// Print the shell integration.
    Init { shell: String },
    /// Remove one canonical entry.
    Remove { distro: String },
    /// Remove every canonical symlink.
    Cleanup,
    /// Link installations that have no canonical entry yet.
    Refresh,
    /// Diagnose the setup.
    Doctor,
    /// Open the installation guide.
    SetupGuide,
    /// Workspace environment commands.
    Pixi { command: PixiCommands },
}

/// The subcommands for workspace environments.
#[derive(Debug, Clone)]
pub enum PixiCommands {
    /// Print the script that activates a workspace environment.
    Activate,
}

} // verus!
