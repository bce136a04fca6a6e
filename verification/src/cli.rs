//! What the command line asks for.

use vstd::prelude::*;

verus! {

/// The operation to run, with the directories it works on.
pub enum Command {
    /// Export the profile's secrets from `source` into `target`.
    Export { source: String, target: String },
    /// Check an existing export at `source` against its manifest.
    VerifyExport { source: String },
    /// Import the profile's secrets from the export at `source` into
    /// `target`; where `links` names a directory, each imported secret gets a
    /// symbolic link under it.
    Import { source: String, target: String, links: Option<String> },
}

/// The profile to act for and the operation to run.
pub struct Args {
    pub profile: String,
    pub command: Command,
}

/// The profile that a run acts for: the one named on the command line, or
/// else the host's name.
pub fn args(profile: Option<String>, host: String, command: Command) -> (r: Args)
    ensures
        r.command == command,
        r.profile == (match profile {
            Some(p) => p,
            None => host,
        }),
{
    let profile = match profile {
        Some(profile) => profile,
        None => host,
    };
    Args { profile, command }
}

} // verus!
