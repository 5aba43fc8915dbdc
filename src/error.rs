//! Errors that the commands report.

use vstd::prelude::*;
use vstd::string::*;

use crate::text::{cat, owned};

verus! {

/// A failure of a command.
#[derive(Debug)]
pub enum DeadbranchError {
    /// The working directory is not in a repository.
    NotAGitRepository,
    /// The version-control tool failed; its message.
    GitCommandFailed(String),
    /// The branch is protected.
    ProtectedBranch(String),
    /// The branch has unmerged changes and the safe delete refused it.
    UnmergedBranch(String),
    /// No branch of that name.
    BranchNotFound(String),
    /// The settings could not be read.
    ConfigRead(String),
    /// The settings could not be written.
    ConfigWrite(String),
    /// The user declined.
    UserCancelled,
}

impl DeadbranchError {
    /// The error as a sentence.
    pub open spec fn message_spec(&self) -> Seq<char> {
        match self {
            DeadbranchError::NotAGitRepository => "Not a git repository (or any parent up to mount point)"@,
            DeadbranchError::GitCommandFailed(m) => "Git command failed: "@ + m@,
            DeadbranchError::ProtectedBranch(b) => "Branch '"@ + b@ + "' is protected and cannot be deleted"@,
            DeadbranchError::UnmergedBranch(b) => "Branch '"@ + b@ + "' has unmerged changes. Use --force to delete anyway"@,
            DeadbranchError::BranchNotFound(b) => "Branch '"@ + b@ + "' not found"@,
            DeadbranchError::ConfigRead(m) => "Failed to read config: "@ + m@,
            DeadbranchError::ConfigWrite(m) => "Failed to write config: "@ + m@,
            DeadbranchError::UserCancelled => "Operation cancelled by user"@,
        }
    }

    /// The error as a sentence.
    pub fn message(&self) -> (r: String)
        ensures
            r@ == self.message_spec(),
    {
        match self {
            DeadbranchError::NotAGitRepository => owned("Not a git repository (or any parent up to mount point)"),
            DeadbranchError::GitCommandFailed(m) => cat("Git command failed: ", m.as_str()),
            DeadbranchError::ProtectedBranch(b) => {
                let a = cat("Branch '", b.as_str());
                cat(a.as_str(), "' is protected and cannot be deleted")
            },
            DeadbranchError::UnmergedBranch(b) => {
                let a = cat("Branch '", b.as_str());
                cat(a.as_str(), "' has unmerged changes. Use --force to delete anyway")
            },
            DeadbranchError::BranchNotFound(b) => {
                let a = cat("Branch '", b.as_str());
                cat(a.as_str(), "' not found")
            },
            DeadbranchError::ConfigRead(m) => cat("Failed to read config: ", m.as_str()),
            DeadbranchError::ConfigWrite(m) => cat("Failed to write config: ", m.as_str()),
            DeadbranchError::UserCancelled => owned("Operation cancelled by user"),
        }
    }
}

} // verus!
