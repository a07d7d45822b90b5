use vstd::prelude::*;

verus! {

/// What can stop an invocation.
#[derive(Debug, Clone, PartialEq, Eq)]
pub enum RosenvError {
    /// The canonical directory does not exist.
    RootMissing,
    /// The canonical directory cannot be written to.
    RootNotWritable,
    /// No canonical entry exists for the named version.
    NotFound { distro: String },
    /// The canonical entry holds no setup file for the shell.
    SetupFileMissing { path: String },
}

pub open spec fn root_missing_text() -> Seq<char> {
    "/opt/ros does not exist\n\nRun these commands first:\n  sudo mkdir -p /opt/ros\n  sudo chown $USER /opt/ros\n\nThen: rosenv setup"@
}

pub open spec fn not_writable_text() -> Seq<char> {
    "/opt/ros is not writable\n\nFix:\n  sudo chown $USER /opt/ros\n\nThen: rosenv setup"@
}

pub open spec fn not_found_text(distro: Seq<char>) -> Seq<char> {
    "Distribution '"@ + distro + "' not found in /opt/ros"@
}

pub open spec fn setup_missing_text(path: Seq<char>) -> Seq<char> {
    "Setup file not found: "@ + path
}

impl RosenvError {
    /// The human-readable message, with a remediation hint where one exists.
    pub open spec fn text(&self) -> Seq<char> {
        match self {
            RosenvError::RootMissing => root_missing_text(),
            RosenvError::RootNotWritable => not_writable_text(),
            RosenvError::NotFound { distro } => not_found_text(distro@),
            RosenvError::SetupFileMissing { path } => setup_missing_text(path@),
        }
    }

    pub fn message(&self) -> (r: String)
        ensures
            r@ == self.text(),
    {
        match self {
            RosenvError::RootMissing => String::from_str(
                "/opt/ros does not exist\n\nRun these commands first:\n  sudo mkdir -p /opt/ros\n  sudo chown $USER /opt/ros\n\nThen: rosenv setup",
            ),
            RosenvError::RootNotWritable => String::from_str(
                "/opt/ros is not writable\n\nFix:\n  sudo chown $USER /opt/ros\n\nThen: rosenv setup",
            ),
            RosenvError::NotFound { distro } => {
                let mut r = String::from_str("Distribution '");
                r.append(distro.as_str());
                r.append("' not found in /opt/ros");
                r
            },
            RosenvError::SetupFileMissing { path } => {
                let mut r = String::from_str("Setup file not found: ");
                r.append(path.as_str());
                r
            },
        }
    }
}

} // verus!
