//! The command line: options, subcommands and the clone protocol.
use vstd::prelude::*;

verus! {

/// How the repository list is ordered.
#[derive(Copy, Clone, Debug, PartialEq, Eq, Structural)]
pub enum SortBy {
    /// Most recently updated first.
    Updated,
    /// By full name, ascending.
    Name,
    /// Most stars first.
    Stars,
}

/// The parsed command line.
#[derive(Debug)]
pub struct Args {
    pub cmd: Option<Cmd>,
    /// Clone using SSH.
    pub ssh: bool,
    /// Clone using HTTPS.
    pub https: bool,
    /// Only list repositories that the user owns.
    pub owned: bool,
    /// Include archived repositories.
    pub archived: bool,
    /// Order of the repository list.
    pub sort: SortBy,
}

/// The subcommands.
#[derive(Debug)]
pub enum Cmd {
    /// Authenticate with the device flow and store the token.
    Login,
    /// Say where the token comes from.
    AuthStatus,
    /// Remove the stored token.
    Logout,
    /// Clone `repo` (`owner/repo` or a GitHub URL) without the picker.
    Clone { repo: String },
}

/// The transport a clone URL uses.
#[derive(Copy, Clone, Debug, PartialEq, Eq, Structural)]
pub enum CloneProtocol {
    Https,
    Ssh,
}

impl CloneProtocol {
    /// The protocol chosen by the `--ssh` and `--https` flags: SSH when
    /// `--ssh` is given, HTTPS otherwise.
    pub fn from_flags(ssh: bool, https: bool) -> (p: Self)
        ensures
            p == (if ssh { CloneProtocol::Ssh } else { CloneProtocol::Https }),
    {
        if ssh {
            Self::Ssh
        } else if https {
            Self::Https
        } else {
            Self::Https
        }
    }
}

} // verus!
