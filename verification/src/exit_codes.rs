//! Process exit codes, stable for scripts.
use vstd::prelude::*;

verus! {

/// How the program ends.
#[derive(Copy, Clone, Debug, PartialEq, Eq, Structural)]
pub enum ExitCode {
    /// The run succeeded.
    Success,
    /// Command-line usage error.
    Usage,
    /// Authentication failed.
    Auth,
    /// The GitHub API failed, and the generic application error.
    GithubApi,
    /// `git` is not installed.
    GitNotFound,
    /// `git clone` failed.
    GitCloneFailed,
}

/// The number that the process exits with for each code.
pub open spec fn exit_number(c: ExitCode) -> i32 {
    match c {
        ExitCode::Success => 0,
        ExitCode::Usage => 2,
        ExitCode::Auth => 10,
        ExitCode::GithubApi => 11,
        ExitCode::GitNotFound => 20,
        ExitCode::GitCloneFailed => 21,
    }
}

impl ExitCode {
    /// The process exit status for this code.
    pub fn as_i32(self) -> (r: i32)
        ensures
            r == exit_number(self),
    {
        match self {
            ExitCode::Success => 0,
            ExitCode::Usage => 2,
            ExitCode::Auth => 10,
            ExitCode::GithubApi => 11,
            ExitCode::GitNotFound => 20,
            ExitCode::GitCloneFailed => 21,
        }
    }
}

/// Different codes exit with different numbers, and only `Ok` exits with 0.
pub proof fn lemma_exit_numbers_distinct(a: ExitCode, b: ExitCode)
    ensures
        a != b ==> exit_number(a) != exit_number(b),
        exit_number(a) == 0 <==> a == ExitCode::Success,
{
}

} // verus!
