//! Recreating a branch from a manifest entry, as a sequence of decisions
//! between questions put to the repository and the file system.
//!
//! [`RestoreSession::start`] gives the first question; the caller answers
//! each [`RestoreAction`] with the matching [`RestoreEvent`] through
//! [`RestoreSession::step`] until the action is `Finished`. Only
//! `CreateBranch` changes anything, and it comes last.

use vstd::prelude::*;

use crate::config::{join, join_path};
use crate::manifest::{
    entries_view, parse_backup, parse_spec, skipped_view, BackupBranchEntry, ParsedBackup,
    SkippedLine,
};
use crate::text::{cat, owned, same};

verus! {

/// Why a restore did not happen.
#[derive(Debug)]
pub enum RestoreError {
    /// The target branch exists and overwriting was not asked for.
    BranchExists { branch_name: String },
    /// The recorded commit is no longer in the repository.
    CommitNotFound { branch_name: String, commit_sha: String },
    /// The manifest has no entry of that name.
    BranchNotInBackup {
        branch_name: String,
        available_branches: Vec<BackupBranchEntry>,
        skipped_lines: Vec<SkippedLine>,
    },
    /// The repository has no manifest.
    NoBackupsFound { repo_name: String },
    /// The manifest lacks its header.
    BackupCorrupted { message: String },
    /// Reading the manifest or running the version-control tool failed.
    Other { message: String },
}

impl RestoreError {
    /// The error as a sentence.
    pub open spec fn message_spec(&self) -> Seq<char> {
        match self {
            RestoreError::BranchExists { branch_name } => "Branch '"@ + branch_name@
                + "' already exists"@,
            RestoreError::CommitNotFound { branch_name, commit_sha } => "Cannot restore '"@
                + branch_name@ + "': commit "@ + commit_sha@ + " no longer exists"@,
            RestoreError::BranchNotInBackup { branch_name, .. } => "Branch '"@ + branch_name@
                + "' not found in backup"@,
            RestoreError::NoBackupsFound { repo_name } => "No backups found for repository '"@
                + repo_name@ + "'"@,
            RestoreError::BackupCorrupted { message } => "Backup file is corrupted: "@ + message@,
            RestoreError::Other { message } => message@,
        }
    }

    /// The error as a sentence.
    pub fn message(&self) -> (r: String)
        ensures
            r@ == self.message_spec(),
    {
        match self {
            RestoreError::BranchExists { branch_name } => {
                let a = cat("Branch '", branch_name.as_str());
                cat(a.as_str(), "' already exists")
            },
            RestoreError::CommitNotFound { branch_name, commit_sha } => {
                let a = cat("Cannot restore '", branch_name.as_str());
                let b = cat(a.as_str(), "': commit ");
                let c = cat(b.as_str(), commit_sha.as_str());
                cat(c.as_str(), " no longer exists")
            },
            RestoreError::BranchNotInBackup { branch_name, .. } => {
                let a = cat("Branch '", branch_name.as_str());
                cat(a.as_str(), "' not found in backup")
            },
            RestoreError::NoBackupsFound { repo_name } => {
                let a = cat("No backups found for repository '", repo_name.as_str());
                cat(a.as_str(), "'")
            },
            RestoreError::BackupCorrupted { message } => cat(
                "Backup file is corrupted: ",
                message.as_str(),
            ),
            RestoreError::Other { message } => owned(message.as_str()),
        }
    }
}

/// A restored branch.
#[derive(Debug)]
pub struct RestoreResult {
    /// The name in the manifest.
    pub original_name: String,
    /// The name it was restored under.
    pub restored_name: String,
    /// The commit it now points to.
    pub commit_sha: String,
    /// Whether a branch of that name was overwritten.
    pub overwrote_existing: bool,
}

/// What the restore needs next.
#[derive(Debug)]
pub enum RestoreAction {
    /// Does the local branch `name` exist? Answer `BranchChecked`.
    CheckBranch { name: String },
    /// Is `selector` an absolute path or an existing file? Answer
    /// `SelectorChecked`.
    CheckSelector { selector: String },
    /// Which is the newest manifest of `repo_name`? Answer `NewestFound`.
    FindNewest { repo_name: String },
    /// What does the manifest at `path` hold? Answer `ManifestRead`.
    ReadManifest { path: String },
    /// Is `sha` a commit of the repository? Answer `CommitChecked`.
    CheckCommit { sha: String },
    /// Create (or with `force`, move) branch `name` at `sha`. Answer
    /// `BranchCreated`.
    CreateBranch { name: String, sha: String, force: bool },
    /// The restore is over.
    Finished { result: Result<RestoreResult, RestoreError> },
}

/// An answer to a [`RestoreAction`].
#[derive(Debug)]
pub enum RestoreEvent {
    BranchChecked { exists: bool },
    SelectorChecked { is_path: bool },
    NewestFound { path: Option<String> },
    ManifestRead { content: Result<String, String> },
    CommitChecked { exists: bool },
    BranchCreated { result: Result<(), String> },
}

/// Where a restore stands.
#[derive(Debug, PartialEq, Eq, Structural)]
pub enum RestorePhase {
    AwaitBranch,
    AwaitSelector,
    AwaitNewest,
    AwaitManifest,
    AwaitCommit,
    AwaitCreate,
    Done,
}

/// Entry `i` of `es` is the first named `name`.
pub open spec fn first_named(es: Seq<(Seq<char>, Seq<char>)>, name: Seq<char>, i: int) -> bool {
    0 <= i < es.len() && es[i].0 == name && forall|j: int| 0 <= j < i ==> #[trigger] es[j].0 != name
}

/// Whether `e` is the answer that a session in phase `p` waits for.
pub open spec fn answers(p: RestorePhase, e: RestoreEvent) -> bool {
    match p {
        RestorePhase::AwaitBranch => e is BranchChecked,
        RestorePhase::AwaitSelector => e is SelectorChecked,
        RestorePhase::AwaitNewest => e is NewestFound,
        RestorePhase::AwaitManifest => e is ManifestRead,
        RestorePhase::AwaitCommit => e is CommitChecked,
        RestorePhase::AwaitCreate => e is BranchCreated,
        RestorePhase::Done => false,
    }
}

/// A restore in progress.
pub struct RestoreSession {
    /// The name in the manifest.
    pub branch_name: String,
    /// The name to restore under.
    pub target: String,
    /// The manifest asked for, if any.
    pub selector: Option<String>,
    /// Whether an existing branch may be overwritten.
    pub force: bool,
    /// The repository whose manifests are searched.
    pub repo_name: String,
    /// The directory of its manifests.
    pub backup_dir: String,
    pub phase: RestorePhase,
    /// Whether the target branch existed.
    pub existed: bool,
    /// The commit of the entry found.
    pub sha: String,
    /// The entries of the manifest read.
    pub recorded: Ghost<Seq<(Seq<char>, Seq<char>)>>,
}

impl RestoreSession {
    /// Past the checks that precede creating the branch, they all held: the
    /// target is absent or may be overwritten, and the commit is the first
    /// entry of the manifest under the branch's name.
    pub open spec fn wf(&self) -> bool {
        &&& (self.phase != RestorePhase::AwaitBranch && self.phase != RestorePhase::Done) ==> (
        !self.existed || self.force)
        &&& (self.phase == RestorePhase::AwaitCommit || self.phase == RestorePhase::AwaitCreate)
            ==> exists|i: int|
            first_named(self.recorded@, self.branch_name@, i) && self.recorded@[i].1 == self.sha@
    }

    /// Begins restoring `branch_name` (under `target_name` if given) from
    /// the manifest `backup_file` (otherwise the newest of `repo_name`, whose
    /// manifests lie in `backup_dir`). The first question is whether the
    /// target exists.
    pub fn start(
        branch_name: &str,
        backup_file: Option<&str>,
        target_name: Option<&str>,
        force: bool,
        repo_name: &str,
        backup_dir: &str,
    ) -> (r: (RestoreSession, RestoreAction))
        ensures
            r.0.wf(),
            r.0.phase == RestorePhase::AwaitBranch,
            r.0.branch_name@ == branch_name@,
            r.0.target@ == (match target_name {
                Some(t) => t@,
                None => branch_name@,
            }),
            r.0.force == force,
            r.0.repo_name@ == repo_name@,
            r.0.backup_dir@ == backup_dir@,
            backup_file is None ==> r.0.selector is None,
            backup_file matches Some(f) ==> r.0.selector matches Some(s) && s@ == f@,
            r.1 matches RestoreAction::CheckBranch { name } && name@ == r.0.target@,
    {
        let target = match target_name {
            Some(t) => owned(t),
            None => owned(branch_name),
        };
        let selector = match backup_file {
            Some(f) => Some(owned(f)),
            None => None,
        };
        let name = owned(target.as_str());
        let s = RestoreSession {
            branch_name: owned(branch_name),
            target,
            selector,
            force,
            repo_name: owned(repo_name),
            backup_dir: owned(backup_dir),
            phase: RestorePhase::AwaitBranch,
            existed: false,
            sha: String::new(),
            recorded: Ghost(Seq::empty()),
        };
        (s, RestoreAction::CheckBranch { name })
    }

    /// Takes the answer to the last action and gives the next one.
    ///
    /// The checks come in a fixed order, each failing the restore at once:
    /// the target exists without `force`; no manifest; a manifest without
    /// header; no entry of that name; the commit is gone. A branch is
    /// created only when none of them failed: the action `CreateBranch`
    /// comes only from a `CommitChecked { exists: true }` answer for the
    /// first entry of the manifest under the branch's name, with the target
    /// absent or `force` given.
    pub fn step(&mut self, event: RestoreEvent) -> (r: RestoreAction)
        requires
            old(self).wf(),
        ensures
            final(self).wf(),
            final(self).branch_name == old(self).branch_name,
            final(self).target == old(self).target,
            final(self).selector == old(self).selector,
            final(self).force == old(self).force,
            final(self).repo_name == old(self).repo_name,
            final(self).backup_dir == old(self).backup_dir,
            old(self).phase != RestorePhase::AwaitBranch ==> final(self).existed == old(self).existed,
            old(self).phase != RestorePhase::AwaitManifest ==> final(self).sha == old(self).sha
                && final(self).recorded == old(self).recorded,
            (r is Finished) == (final(self).phase == RestorePhase::Done),
            !answers(old(self).phase, event) ==> (r matches RestoreAction::Finished {
                result: Err(RestoreError::Other { .. }),
            }),
            (r matches RestoreAction::Finished { result: Ok(_) }) ==> old(self).phase
                == RestorePhase::AwaitCreate && (event matches RestoreEvent::BranchCreated {
                result: Ok(_),
            }),
            r matches RestoreAction::CreateBranch { name, sha, force } ==> (old(self).phase
                == RestorePhase::AwaitCommit && (event matches RestoreEvent::CommitChecked {
                exists: true,
            }) && (!old(self).existed || old(self).force) && (exists|i: int|
                first_named(old(self).recorded@, old(self).branch_name@, i)
                    && old(self).recorded@[i].1 == sha@) && name@ == old(self).target@ && sha@
                == old(self).sha@ && force == old(self).force),
            old(self).phase == RestorePhase::AwaitBranch ==> (event matches RestoreEvent::BranchChecked {
                exists,
            } ==> if exists && !old(self).force {
                r matches RestoreAction::Finished { result: Err(RestoreError::BranchExists { branch_name }) }
                    && branch_name@ == old(self).target@
            } else {
                final(self).existed == exists && final(self).phase == (if old(self).selector is Some {
                    RestorePhase::AwaitSelector
                } else {
                    RestorePhase::AwaitNewest
                }) && match old(self).selector {
                    Some(sel) => r matches RestoreAction::CheckSelector { selector } && selector@ == sel@,
                    None => r matches RestoreAction::FindNewest { repo_name } && repo_name@ == old(
                        self,
                    ).repo_name@,
                }
            }),
            old(self).phase == RestorePhase::AwaitSelector ==> (event matches RestoreEvent::SelectorChecked {
                is_path,
            } ==> (old(self).selector matches Some(sel) ==> (r matches RestoreAction::ReadManifest {
                path,
            } && final(self).phase == RestorePhase::AwaitManifest && path@ == if is_path {
                sel@
            } else {
                join_path(old(self).backup_dir@, sel@)
            }))),
            old(self).phase == RestorePhase::AwaitNewest ==> (event matches RestoreEvent::NewestFound {
                path,
            } ==> match path {
                None => r matches RestoreAction::Finished {
                    result: Err(RestoreError::NoBackupsFound { repo_name }),
                } && repo_name@ == old(self).repo_name@,
                Some(p) => r matches RestoreAction::ReadManifest { path } && path@ == p@
                    && final(self).phase == RestorePhase::AwaitManifest,
            }),
            old(self).phase == RestorePhase::AwaitManifest ==> (event matches RestoreEvent::ManifestRead {
                content,
            } ==> match content {
                Err(m) => r matches RestoreAction::Finished {
                    result: Err(RestoreError::Other { message }),
                } && message@ == m@,
                Ok(text) => match parse_spec(text@) {
                    Err(m) => r matches RestoreAction::Finished {
                        result: Err(RestoreError::BackupCorrupted { message }),
                    } && message@ == m,
                    Ok((es, sk)) => if exists|i: int| first_named(es, old(self).branch_name@, i) {
                        r matches RestoreAction::CheckCommit { sha } && final(self).phase
                            == RestorePhase::AwaitCommit && final(self).recorded@ == es
                            && final(self).sha@ == sha@ && exists|i: int|
                            first_named(es, old(self).branch_name@, i) && es[i].1 == sha@
                    } else {
                        r matches RestoreAction::Finished {
                            result: Err(
                                RestoreError::BranchNotInBackup {
                                    branch_name,
                                    available_branches,
                                    skipped_lines,
                                },
                            ),
                        } && branch_name@ == old(self).branch_name@ && entries_view(
                            available_branches@,
                        ) == es && skipped_view(skipped_lines@) == sk
                    },
                },
            }),
            old(self).phase == RestorePhase::AwaitCommit ==> (event matches RestoreEvent::CommitChecked {
                exists,
            } ==> if exists {
                (r matches RestoreAction::CreateBranch { .. }) && final(self).phase
                    == RestorePhase::AwaitCreate
            } else {
                r matches RestoreAction::Finished {
                    result: Err(RestoreError::CommitNotFound { branch_name, commit_sha }),
                } && branch_name@ == old(self).branch_name@ && commit_sha@ == old(self).sha@
            }),
            old(self).phase == RestorePhase::AwaitCreate ==> (event matches RestoreEvent::BranchCreated {
                result,
            } ==> match result {
                Err(m) => r matches RestoreAction::Finished {
                    result: Err(RestoreError::Other { message }),
                } && message@ == m@,
                Ok(_) => r matches RestoreAction::Finished { result: Ok(res) }
                    && res.original_name@ == old(self).branch_name@ && res.restored_name@ == old(
                    self,
                ).target@ && res.commit_sha@ == old(self).sha@ && res.overwrote_existing == (old(
                    self,
                ).existed && old(self).force),
            }),
    {
        let phase = if self.phase == RestorePhase::AwaitBranch {
            RestorePhase::AwaitBranch
        } else if self.phase == RestorePhase::AwaitSelector {
            RestorePhase::AwaitSelector
        } else if self.phase == RestorePhase::AwaitNewest {
            RestorePhase::AwaitNewest
        } else if self.phase == RestorePhase::AwaitManifest {
            RestorePhase::AwaitManifest
        } else if self.phase == RestorePhase::AwaitCommit {
            RestorePhase::AwaitCommit
        } else if self.phase == RestorePhase::AwaitCreate {
            RestorePhase::AwaitCreate
        } else {
            RestorePhase::Done
        };
        match (phase, event) {
            (RestorePhase::AwaitBranch, RestoreEvent::BranchChecked { exists }) => {
                if exists && !self.force {
                    self.phase = RestorePhase::Done;
                    return RestoreAction::Finished {
                        result: Err(RestoreError::BranchExists { branch_name: owned(self.target.as_str()) }),
                    };
                }
                self.existed = exists;
                match &self.selector {
                    Some(sel) => {
                        let selector = owned(sel.as_str());
                        self.phase = RestorePhase::AwaitSelector;
                        RestoreAction::CheckSelector { selector }
                    },
                    None => {
                        let repo_name = owned(self.repo_name.as_str());
                        self.phase = RestorePhase::AwaitNewest;
                        RestoreAction::FindNewest { repo_name }
                    },
                }
            },
            (RestorePhase::AwaitSelector, RestoreEvent::SelectorChecked { is_path }) => {
                match &self.selector {
                    Some(sel) => {
                        let path = if is_path {
                            owned(sel.as_str())
                        } else {
                            join(self.backup_dir.as_str(), sel.as_str())
                        };
                        self.phase = RestorePhase::AwaitManifest;
                        RestoreAction::ReadManifest { path }
                    },
                    None => self.fail_unexpected(),
                }
            },
            (RestorePhase::AwaitNewest, RestoreEvent::NewestFound { path }) => {
                match path {
                    None => {
                        self.phase = RestorePhase::Done;
                        RestoreAction::Finished {
                            result: Err(RestoreError::NoBackupsFound { repo_name: owned(self.repo_name.as_str()) }),
                        }
                    },
                    Some(p) => {
                        self.phase = RestorePhase::AwaitManifest;
                        RestoreAction::ReadManifest { path: p }
                    },
                }
            },
            (RestorePhase::AwaitManifest, RestoreEvent::ManifestRead { content }) => {
                match content {
                    Err(m) => {
                        self.phase = RestorePhase::Done;
                        RestoreAction::Finished { result: Err(RestoreError::Other { message: m }) }
                    },
                    Ok(text) => match parse_backup(text.as_str()) {
                        Err(e) => {
                            self.phase = RestorePhase::Done;
                            RestoreAction::Finished { result: Err(e) }
                        },
                        Ok(pb) => self.choose_entry(pb),
                    },
                }
            },
            (RestorePhase::AwaitCommit, RestoreEvent::CommitChecked { exists }) => {
                if !exists {
                    self.phase = RestorePhase::Done;
                    return RestoreAction::Finished {
                        result: Err(
                            RestoreError::CommitNotFound {
                                branch_name: owned(self.branch_name.as_str()),
                                commit_sha: owned(self.sha.as_str()),
                            },
                        ),
                    };
                }
                self.phase = RestorePhase::AwaitCreate;
                RestoreAction::CreateBranch {
                    name: owned(self.target.as_str()),
                    sha: owned(self.sha.as_str()),
                    force: self.force,
                }
            },
            (RestorePhase::AwaitCreate, RestoreEvent::BranchCreated { result }) => {
                self.phase = RestorePhase::Done;
                match result {
                    Err(m) => RestoreAction::Finished { result: Err(RestoreError::Other { message: m }) },
                    Ok(()) => RestoreAction::Finished {
                        result: Ok(
                            RestoreResult {
                                original_name: owned(self.branch_name.as_str()),
                                restored_name: owned(self.target.as_str()),
                                commit_sha: owned(self.sha.as_str()),
                                overwrote_existing: self.existed && self.force,
                            },
                        ),
                    },
                }
            },
            _ => self.fail_unexpected(),
        }
    }

    fn fail_unexpected(&mut self) -> (r: RestoreAction)
        ensures
            final(self).phase == RestorePhase::Done,
            r matches RestoreAction::Finished { result: Err(RestoreError::Other { .. }) },
            final(self).branch_name == old(self).branch_name,
            final(self).target == old(self).target,
            final(self).selector == old(self).selector,
            final(self).force == old(self).force,
            final(self).repo_name == old(self).repo_name,
            final(self).backup_dir == old(self).backup_dir,
            final(self).existed == old(self).existed,
            final(self).sha == old(self).sha,
            final(self).recorded == old(self).recorded,
    {
        self.phase = RestorePhase::Done;
        RestoreAction::Finished {
            result: Err(RestoreError::Other { message: owned("unexpected answer during restore") }),
        }
    }

    /// Looks up the branch among the entries of the manifest just read.
    fn choose_entry(&mut self, pb: ParsedBackup) -> (r: RestoreAction)
        requires
            old(self).phase == RestorePhase::AwaitManifest,
            old(self).wf(),
        ensures
            final(self).wf(),
            final(self).branch_name == old(self).branch_name,
            final(self).target == old(self).target,
            final(self).force == old(self).force,
            final(self).existed == old(self).existed,
            final(self).selector == old(self).selector,
            final(self).repo_name == old(self).repo_name,
            final(self).backup_dir == old(self).backup_dir,
            (r is Finished) == (final(self).phase == RestorePhase::Done),
            !(r is CreateBranch),
            !(r matches RestoreAction::Finished { result: Ok(_) }),
            if exists|i: int| first_named(entries_view(pb.entries@), old(self).branch_name@, i) {
                r matches RestoreAction::CheckCommit { sha } && final(self).phase
                    == RestorePhase::AwaitCommit && final(self).recorded@ == entries_view(
                    pb.entries@,
                ) && final(self).sha@ == sha@ && exists|i: int|
                    first_named(entries_view(pb.entries@), old(self).branch_name@, i) && entries_view(
                        pb.entries@,
                    )[i].1 == sha@
            } else {
                r matches RestoreAction::Finished {
                    result: Err(
                        RestoreError::BranchNotInBackup {
                            branch_name,
                            available_branches,
                            skipped_lines,
                        },
                    ),
                } && branch_name@ == old(self).branch_name@ && entries_view(available_branches@)
                    == entries_view(pb.entries@) && skipped_view(skipped_lines@) == skipped_view(
                    pb.skipped_lines@,
                )
            },
    {
        let ghost es = entries_view(pb.entries@);
        let mut i: usize = 0;
        while i < pb.entries.len()
            invariant
                *self == *old(self),
                old(self).phase == RestorePhase::AwaitManifest,
                old(self).wf(),
                i <= pb.entries@.len(),
                es == entries_view(pb.entries@),
                forall|j: int| 0 <= j < i ==> #[trigger] es[j].0 != self.branch_name@,
            decreases pb.entries.len() - i,
        {
            if same(pb.entries[i].name.as_str(), self.branch_name.as_str()) {
                self.sha = owned(pb.entries[i].commit_sha.as_str());
                self.recorded = Ghost(es);
                self.phase = RestorePhase::AwaitCommit;
                assert(first_named(es, self.branch_name@, i as int));
                assert(es[i as int].1 == self.sha@);
                assert(self.recorded@[i as int].1 == self.sha@);

                return RestoreAction::CheckCommit { sha: owned(self.sha.as_str()) };
            }
            i = i + 1;
        }
        self.phase = RestorePhase::Done;
        assert forall|k: int| !first_named(es, self.branch_name@, k) by {
            if first_named(es, self.branch_name@, k) {
                assert(es[k].0 != self.branch_name@);
            }
        }
        RestoreAction::Finished {
            result: Err(
                RestoreError::BranchNotInBackup {
                    branch_name: owned(self.branch_name.as_str()),
                    available_branches: pb.entries,
                    skipped_lines: pb.skipped_lines,
                },
            ),
        }
    }
}

} // verus!
