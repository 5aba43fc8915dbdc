//! Deleting stale branches: which branches are candidates, the commands a
//! dry run shows, the phrase that confirms remote deletion, and the order of
//! one deletion phase (manifest first, then each branch).

use vstd::prelude::*;
use vstd::string::*;

use crate::branch::{
    branch_le, sort_branches, Branch, BranchFilter,
};
use crate::config::views;
use crate::glob::sfx;
use crate::manifest::{
    branch_blocks, is_ws, is_ws_char, joined, lemma_manifest_round_trip, manifest_lines, one_line,
    parse_spec, recorded_entries, recorded_sha, render_manifest, writable,
};
use crate::text::{cat, chars_of, decimal, decimal_string, owned, same};
use crate::ui::pluralize_branch;

verus! {

broadcast use vstd::seq_lib::group_to_multiset_ensures;

/// `v` is in display order.
pub open spec fn in_order(v: Seq<Branch>) -> bool {
    forall|i: int, j: int| 0 <= i < j < v.len() ==> branch_le(#[trigger] v[i], #[trigger] v[j])
}

/// The branches of `all` that pass `filter` and are remote-tracking or local
/// as `remote` says, in their order.
pub open spec fn kept(all: Seq<Branch>, filter: BranchFilter, remote: bool) -> Seq<Branch>
    decreases all.len(),
{
    if all.len() == 0 {
        seq![]
    } else if filter.matches_spec(all.last()) && all.last().is_remote == remote {
        kept(all.drop_last(), filter, remote).push(all.last())
    } else {
        kept(all.drop_last(), filter, remote)
    }
}

/// The stale branches, local and remote-tracking apart, each in display
/// order.
#[derive(Debug)]
pub struct StaleBranches {
    pub local: Vec<Branch>,
    pub remote: Vec<Branch>,
}

/// The branches of `branches` that pass `filter`, local and remote-tracking
/// apart, each group sorted for display and deletion.
pub fn select_stale(branches: Vec<Branch>, filter: &BranchFilter) -> (r: StaleBranches)
    ensures
        r.local@.to_multiset() == kept(branches@, *filter, false).to_multiset(),
        r.remote@.to_multiset() == kept(branches@, *filter, true).to_multiset(),
        in_order(r.local@),
        in_order(r.remote@),
{
    let ghost all = branches@;
    let mut rest = branches;
    let mut local: Vec<Branch> = Vec::new();
    let mut remote: Vec<Branch> = Vec::new();
    while rest.len() > 0
        invariant
            local@.to_multiset().add(kept(rest@, *filter, false).to_multiset()) == kept(
                all,
                *filter,
                false,
            ).to_multiset(),
            remote@.to_multiset().add(kept(rest@, *filter, true).to_multiset()) == kept(
                all,
                *filter,
                true,
            ).to_multiset(),
        decreases rest.len(),
    {
        let ghost before = rest@;
        let b = rest.pop().unwrap();
        proof {
            assert(before.drop_last() =~= rest@);
            assert(before.last() == b);
        }
        if filter.matches(&b) {
            if b.is_remote {
                remote.push(b);
            } else {
                local.push(b);
            }
        }
        proof {
            assert(local@.to_multiset().add(kept(rest@, *filter, false).to_multiset()) =~= kept(
                all,
                *filter,
                false,
            ).to_multiset());
            assert(remote@.to_multiset().add(kept(rest@, *filter, true).to_multiset()) =~= kept(
                all,
                *filter,
                true,
            ).to_multiset());
        }
    }
    assert(local@.to_multiset() =~= kept(all, *filter, false).to_multiset());
    assert(remote@.to_multiset() =~= kept(all, *filter, true).to_multiset());
    sort_branches(&mut local);
    sort_branches(&mut remote);
    StaleBranches { local, remote }
}

/// The filter of a clean run. Unless `force` is given only merged branches
/// are candidates, whatever `merged` says.
pub fn clean_filter(
    min_age_days: u32,
    local_only: bool,
    remote_only: bool,
    merged: bool,
    force: bool,
    protected_branches: Vec<String>,
    exclude_patterns: Vec<String>,
) -> (r: BranchFilter)
    ensures
        r.min_age_days == min_age_days,
        r.local_only == local_only,
        r.remote_only == remote_only,
        r.merged_only == (merged || !force),
        r.protected_branches == protected_branches,
        r.exclude_patterns == exclude_patterns,
{
    BranchFilter {
        min_age_days,
        local_only,
        remote_only,
        merged_only: merged || !force,
        protected_branches,
        exclude_patterns,
    }
}

/// Whether a local branch is deleted with the force flag: unless `force`
/// was given and the branch is merged, the safe flag is used.
pub open spec fn forced_delete(force: bool, b: Branch) -> bool {
    force || !b.is_merged
}

/// The command that deletes local branch `b`.
pub open spec fn local_command(force: bool, b: Branch) -> Seq<char> {
    "git branch "@ + (if forced_delete(force, b) {
        "-D"@
    } else {
        "-d"@
    }) + " "@ + b.name@
}

/// The command that deletes remote-tracking branch `b` on `origin`.
pub open spec fn remote_command(b: Branch) -> Seq<char> {
    "git push origin --delete "@ + b.short_spec()
}

/// The commands a dry run shows: one per local branch, then one per remote
/// branch, in the order given.
pub fn dry_run_commands(local: &[Branch], remote: &[Branch], force: bool) -> (r: Vec<String>)
    ensures
        views(r@) == Seq::new(local@.len(), |i: int| local_command(force, local@[i])) + Seq::new(
            remote@.len(),
            |i: int| remote_command(remote@[i]),
        ),
{
    let mut r: Vec<String> = Vec::new();
    let mut i: usize = 0;
    while i < local.len()
        invariant
            i <= local@.len(),
            views(r@) == Seq::new(i as nat, |k: int| local_command(force, local@[k])),
        decreases local.len() - i,
    {
        let b = &local[i];
        let flag = if force || !b.is_merged {
            "-D"
        } else {
            "-d"
        };
        let c1 = cat("git branch ", flag);
        let c2 = cat(c1.as_str(), " ");
        let c3 = cat(c2.as_str(), b.name.as_str());
        let ghost before = r@;
        r.push(c3);
        assert(c3@ == local_command(force, local@[i as int]));
        assert(views(r@) =~= views(before).push(c3@));
        assert(views(r@) =~= Seq::new((i + 1) as nat, |k: int| local_command(force, local@[k])));
        i = i + 1;
    }
    let ghost n = local@.len();
    let mut j: usize = 0;
    while j < remote.len()
        invariant
            j <= remote@.len(),
            n == local@.len(),
            views(r@) == Seq::new(n, |k: int| local_command(force, local@[k])) + Seq::new(
                j as nat,
                |k: int| remote_command(remote@[k]),
            ),
        decreases remote.len() - j,
    {
        let c = cat("git push origin --delete ", remote[j].short_name());
        let ghost before = r@;
        r.push(c);
        assert(c@ == remote_command(remote@[j as int]));
        assert(views(r@) =~= views(before).push(c@));
        assert(views(r@) =~= Seq::new(n, |k: int| local_command(force, local@[k])) + Seq::new(
            (j + 1) as nat,
            |k: int| remote_command(remote@[k]),
        ));
        j = j + 1;
    }
    r
}

/// The phrase to type to confirm deleting `n` remote branches.
pub open spec fn remote_phrase(n: nat) -> Seq<char> {
    "delete "@ + decimal(n) + " remote "@ + if n == 1 {
        "branch"@
    } else {
        "branches"@
    }
}

/// The phrase to type to confirm deleting `count` remote branches, e.g.
/// "delete 2 remote branches".
pub fn remote_confirmation_phrase(count: usize) -> (r: String)
    ensures
        r@ == remote_phrase(count as nat),
{
    let n = decimal_string(count as u64);
    let a = cat("delete ", n.as_str());
    let b = cat(a.as_str(), " remote ");
    cat(b.as_str(), pluralize_branch(count))
}

/// `s` without leading white space.
pub open spec fn trim_start(s: Seq<char>) -> Seq<char>
    decreases s.len(),
{
    if s.len() > 0 && is_ws(s[0]) {
        trim_start(sfx(s, 1))
    } else {
        s
    }
}

/// `s` without trailing white space.
pub open spec fn trim_end(s: Seq<char>) -> Seq<char>
    decreases s.len(),
{
    if s.len() > 0 && is_ws(s.last()) {
        trim_end(s.drop_last())
    } else {
        s
    }
}

/// `s` without white space at either end (what `str::trim` gives).
pub open spec fn trim(s: Seq<char>) -> Seq<char> {
    trim_end(trim_start(s))
}

/// `s` without white space at either end.
pub fn trim_str(s: &str) -> (r: &str)
    ensures
        r@ == trim(s@),
{
    let c = chars_of(s);
    let mut a: usize = 0;
    assert(sfx(c@, 0) =~= c@);
    while a < c.len() && is_ws_char(c[a])
        invariant
            c@ == s@,
            a <= c.len(),
            trim_start(s@) == trim_start(sfx(c@, a as int)),
        decreases c.len() - a,
    {
        assert(sfx(sfx(c@, a as int), 1) =~= sfx(c@, a + 1));
        a = a + 1;
    }
    let mut b: usize = c.len();
    assert(c@.subrange(a as int, b as int) =~= sfx(c@, a as int));
    while b > a && is_ws_char(c[b - 1])
        invariant
            c@ == s@,
            a <= b <= c.len(),
            trim(s@) == trim_end(c@.subrange(a as int, b as int)),
        decreases b,
    {
        assert(c@.subrange(a as int, b as int).drop_last() =~= c@.subrange(a as int, b - 1));
        b = b - 1;
    }
    s.substring_char(a, b)
}

/// Whether `input` confirms deleting `count` remote branches: once trimmed
/// it must be the phrase exactly.
pub fn remote_deletion_confirmed(input: &str, count: usize) -> (r: bool)
    ensures
        r == (trim(input@) == remote_phrase(count as nat)),
{
    let phrase = remote_confirmation_phrase(count);
    same(trim_str(input), phrase.as_str())
}

/// What a deletion phase needs next.
#[derive(Debug)]
pub enum DeletionAction {
    /// Write `text` to a new file at `path`, flushed and closed. Answer
    /// `ManifestWritten`.
    WriteManifest { path: String, text: String },
    /// Delete local branch `name`, with the force flag or the safe one.
    /// Answer `Deleted`.
    DeleteLocal { name: String, force: bool },
    /// Delete branch `name` on `origin`. Answer `Deleted`.
    DeleteRemote { name: String },
    /// The phase is over: how many deletions succeeded and failed, and where
    /// the manifest is; or why nothing was deleted.
    Finished { result: Result<DeletionSummary, String> },
}

/// An answer to a [`DeletionAction`].
#[derive(Debug)]
pub enum DeletionEvent {
    ManifestWritten { result: Result<(), String> },
    Deleted { result: Result<(), String> },
}

/// How a deletion phase went.
#[derive(Debug)]
pub struct DeletionSummary {
    pub deleted: usize,
    pub failed: usize,
    pub manifest_path: String,
}

/// One deletion phase: local branches or remote ones. It first has the
/// manifest of all its branches written, and asks for no deletion unless
/// that succeeded; then it deletes the branches one by one in their order,
/// going on past failures.
pub struct DeletionPhase {
    pub branches: Vec<Branch>,
    pub resolved: Vec<Option<String>>,
    pub remote: bool,
    pub force: bool,
    pub created: String,
    pub repo_name: String,
    pub working_dir: String,
    pub manifest_path: String,
    pub manifest_text: String,
    /// The manifest was written.
    pub written: bool,
    /// The branch whose deletion was asked last.
    pub pending: usize,
    pub deleted: usize,
    pub failed: usize,
    pub done: bool,
}

impl DeletionPhase {
    /// The manifest lists every branch of the phase.
    pub open spec fn wf(&self) -> bool {
        &&& self.resolved@.len() == self.branches@.len()
        &&& self.manifest_text@ == joined(
            manifest_lines(
                self.created@,
                self.repo_name@,
                self.working_dir@,
                branch_blocks(self.branches@, self.resolved@),
            ),
        )
        &&& self.pending <= self.branches@.len()
        &&& self.deleted + self.failed == self.pending
        &&& self.pending > 0 ==> self.written
        &&& !self.done ==> self.written ==> self.pending < self.branches@.len()
    }

    /// The action that deletes branch `pending`.
    pub open spec fn deletes(&self, a: DeletionAction) -> bool {
        let b = self.branches@[self.pending as int];
        if self.remote {
            a matches DeletionAction::DeleteRemote { name } && name@ == b.short_spec()
        } else {
            a matches DeletionAction::DeleteLocal { name, force } && name@ == b.name@ && force
                == forced_delete(self.force, b)
        }
    }

    /// Begins a phase over `branches` (each with its full commit id in
    /// `resolved` where found): the first action writes their manifest to
    /// `manifest_path`.
    pub fn new(
        branches: Vec<Branch>,
        resolved: Vec<Option<String>>,
        remote: bool,
        force: bool,
        created: &str,
        repo_name: &str,
        working_dir: &str,
        manifest_path: &str,
    ) -> (r: (DeletionPhase, DeletionAction))
        requires
            resolved@.len() == branches@.len(),
        ensures
            r.0.wf(),
            !r.0.written,
            !r.0.done,
            r.0.branches@ == branches@,
            r.1 matches DeletionAction::WriteManifest { path, text } && path@ == manifest_path@
                && text@ == r.0.manifest_text@,
    {
        let text = render_manifest(
            created,
            repo_name,
            working_dir,
            branches.as_slice(),
            resolved.as_slice(),
        );
        let action = DeletionAction::WriteManifest {
            path: owned(manifest_path),
            text: owned(text.as_str()),
        };
        let phase = DeletionPhase {
            branches,
            resolved,
            remote,
            force,
            created: owned(created),
            repo_name: owned(repo_name),
            working_dir: owned(working_dir),
            manifest_path: owned(manifest_path),
            manifest_text: text,
            written: false,
            pending: 0,
            deleted: 0,
            failed: 0,
            done: false,
        };
        (phase, action)
    }

    fn delete_pending(&self) -> (r: DeletionAction)
        requires
            self.pending < self.branches@.len(),
        ensures
            self.deletes(r),
    {
        let b = &self.branches[self.pending];
        if self.remote {
            DeletionAction::DeleteRemote { name: owned(b.short_name()) }
        } else {
            DeletionAction::DeleteLocal {
                name: owned(b.name.as_str()),
                force: self.force || !b.is_merged,
            }
        }
    }

    /// Takes the answer to the last action and gives the next one. A
    /// deletion is asked for only once the manifest was written, and for
    /// the branch at `pending`, which the manifest lists.
    pub fn step(&mut self, event: DeletionEvent) -> (r: DeletionAction)
        requires
            old(self).wf(),
        ensures
            final(self).wf(),
            final(self).branches == old(self).branches,
            final(self).manifest_text == old(self).manifest_text,
            final(self).resolved == old(self).resolved,
            final(self).remote == old(self).remote,
            final(self).force == old(self).force,
            final(self).created == old(self).created,
            final(self).repo_name == old(self).repo_name,
            final(self).working_dir == old(self).working_dir,
            final(self).manifest_path == old(self).manifest_path,
            (r is Finished) == final(self).done,
            old(self).done ==> (r matches DeletionAction::Finished { result: Err(_) }),
            !old(self).done && !old(self).written && (event matches DeletionEvent::ManifestWritten {
                result: Ok(_),
            }) ==> final(self).written && final(self).pending == 0 && if old(self).branches@.len() == 0 {
                r matches DeletionAction::Finished { result: Ok(_) }
            } else {
                !final(self).done && final(self).deletes(r)
            },
            !old(self).done && old(self).written && (event is Deleted) ==> if final(self).pending
                < final(self).branches@.len() {
                !final(self).done && final(self).deletes(r)
            } else {
                r matches DeletionAction::Finished { result: Ok(_) }
            },
            !old(self).done && !old(self).written && (event is Deleted) ==> (r matches DeletionAction::Finished {
                result: Err(_),
            }) && final(self).pending == 0,
            (r is DeleteLocal || r is DeleteRemote) ==> final(self).written && !final(self).done
                && final(self).deletes(r),
            (r is DeleteLocal || r is DeleteRemote) ==> (old(self).written || (event matches DeletionEvent::ManifestWritten {
                result: Ok(_),
            })),
            !old(self).done && !old(self).written ==> (event matches DeletionEvent::ManifestWritten {
                result: Err(m),
            } ==> (r matches DeletionAction::Finished { result: Err(e) } && e@ == m@)
                && final(self).pending == 0),
            !old(self).done && old(self).written ==> (event matches DeletionEvent::Deleted {
                result,
            } ==> final(self).pending == old(self).pending + 1
                && (result is Ok ==> final(self).deleted == old(self).deleted + 1 && final(self).failed == old(self).failed)
                && (result is Err ==> final(self).failed == old(self).failed + 1 && final(self).deleted == old(self).deleted)),
            r matches DeletionAction::Finished { result: Ok(s) } ==> s.deleted + s.failed
                == final(self).branches@.len() && s.deleted == final(self).deleted && s.failed
                == final(self).failed && s.manifest_path == final(self).manifest_path,
    {
        if self.done {
            return DeletionAction::Finished { result: Err(owned("the phase is over")) };
        }
        match event {
            DeletionEvent::ManifestWritten { result } => {
                if self.written {
                    self.done = true;
                    return DeletionAction::Finished { result: Err(owned("the manifest was already written")) };
                }
                match result {
                    Err(m) => {
                        self.done = true;
                        DeletionAction::Finished { result: Err(m) }
                    },
                    Ok(()) => {
                        self.written = true;
                        if self.branches.len() == 0 {
                            self.done = true;
                            return DeletionAction::Finished {
                                result: Ok(
                                    DeletionSummary {
                                        deleted: 0,
                                        failed: 0,
                                        manifest_path: self.manifest_path.clone(),
                                    },
                                ),
                            };
                        }
                        self.delete_pending()
                    },
                }
            },
            DeletionEvent::Deleted { result } => {
                if !self.written {
                    self.done = true;
                    return DeletionAction::Finished { result: Err(owned("no manifest was written")) };
                }
                let n = self.branches.len();
                assert(self.deleted + self.failed < n);
                match result {
                    Ok(()) => {
                        self.deleted = self.deleted + 1;
                    },
                    Err(_) => {
                        self.failed = self.failed + 1;
                    },
                }
                self.pending = self.pending + 1;
                if self.pending == self.branches.len() {
                    self.done = true;
                    DeletionAction::Finished {
                        result: Ok(
                            DeletionSummary {
                                deleted: self.deleted,
                                failed: self.failed,
                                manifest_path: self.manifest_path.clone(),
                            },
                        ),
                    }
                } else {
                    self.delete_pending()
                }
            },
        }
    }
}

/// Where a clean run stands.
#[derive(Debug, PartialEq, Eq, Structural)]
pub enum CleanStage {
    AwaitLocalAnswer,
    AwaitLocalPhase,
    AwaitFetch,
    AwaitRemoteAnswer,
    AwaitRemotePhase,
    Done,
}

/// What a clean run needs next.
#[derive(Debug)]
pub enum CleanAction {
    /// Ask whether to delete the local candidates. Answer `LocalAnswered`.
    ConfirmLocal,
    /// Run the local deletion phase. Answer `LocalDeleted`.
    DeleteLocal,
    /// Update the remote-tracking refs; a failure is only a warning. Answer
    /// `Fetched`.
    FetchRemote,
    /// Ask the user to type `phrase`. Answer `RemoteAnswered`.
    ConfirmRemote { phrase: String },
    /// Run the remote deletion phase. Answer `RemoteDeleted`.
    DeleteRemote,
    /// The run is over.
    Done,
}

/// An answer to a [`CleanAction`].
#[derive(Debug)]
pub enum CleanEvent {
    LocalAnswered { accepted: bool },
    LocalDeleted,
    Fetched,
    RemoteAnswered { input: String },
    RemoteDeleted,
}

/// The order of a (not dry) clean run: the local phase, if there are local
/// candidates and it is confirmed; then, if there are remote candidates, a
/// fetch, the typed confirmation and the remote phase. With `skip_confirm`
/// no question is asked.
pub struct CleanRun {
    pub local_count: usize,
    pub remote_count: usize,
    pub skip_confirm: bool,
    pub stage: CleanStage,
}

impl CleanRun {
    /// A stage of the local part has local candidates, one of the remote
    /// part remote ones.
    pub open spec fn wf(&self) -> bool {
        &&& (self.stage == CleanStage::AwaitLocalAnswer || self.stage == CleanStage::AwaitLocalPhase)
            ==> self.local_count > 0
        &&& (self.stage == CleanStage::AwaitFetch || self.stage == CleanStage::AwaitRemoteAnswer
            || self.stage == CleanStage::AwaitRemotePhase) ==> self.remote_count > 0
    }

    /// The step after the local part: the remote part if there is one.
    pub open spec fn to_remote(&self, r: CleanAction, stage: CleanStage) -> bool {
        if self.remote_count > 0 {
            r is FetchRemote && stage == CleanStage::AwaitFetch
        } else {
            r is Done && stage == CleanStage::Done
        }
    }

    /// Starts a run over `local_count` local and `remote_count` remote
    /// candidates.
    pub fn new(local_count: usize, remote_count: usize, skip_confirm: bool) -> (r: (CleanRun, CleanAction))
        ensures
            r.0.wf(),
            r.0.local_count == local_count,
            r.0.remote_count == remote_count,
            r.0.skip_confirm == skip_confirm,
            local_count > 0 && !skip_confirm ==> r.1 is ConfirmLocal && r.0.stage
                == CleanStage::AwaitLocalAnswer,
            local_count > 0 && skip_confirm ==> r.1 is DeleteLocal && r.0.stage
                == CleanStage::AwaitLocalPhase,
            local_count == 0 ==> r.0.to_remote(r.1, r.0.stage),
    {
        let mut run = CleanRun { local_count, remote_count, skip_confirm, stage: CleanStage::Done };
        let a = if local_count > 0 {
            if skip_confirm {
                run.stage = CleanStage::AwaitLocalPhase;
                CleanAction::DeleteLocal
            } else {
                run.stage = CleanStage::AwaitLocalAnswer;
                CleanAction::ConfirmLocal
            }
        } else {
            run.go_remote()
        };
        (run, a)
    }

    fn go_remote(&mut self) -> (r: CleanAction)
        ensures
            final(self).wf(),
            final(self).local_count == old(self).local_count,
            final(self).remote_count == old(self).remote_count,
            final(self).skip_confirm == old(self).skip_confirm,
            final(self).to_remote(r, final(self).stage),
    {
        if self.remote_count > 0 {
            self.stage = CleanStage::AwaitFetch;
            CleanAction::FetchRemote
        } else {
            self.stage = CleanStage::Done;
            CleanAction::Done
        }
    }

    /// Takes the answer to the last action and gives the next one. Local
    /// branches are deleted only after a yes (or with `skip_confirm`);
    /// remote ones only after a fetch and the exact typed phrase (or with
    /// `skip_confirm`); the remote part comes after the local part.
    pub fn step(&mut self, event: CleanEvent) -> (r: CleanAction)
        requires
            old(self).wf(),
        ensures
            final(self).wf(),
            final(self).local_count == old(self).local_count,
            final(self).remote_count == old(self).remote_count,
            final(self).skip_confirm == old(self).skip_confirm,
            (r is Done) == (final(self).stage == CleanStage::Done),
            r is DeleteLocal ==> old(self).local_count > 0 && final(self).stage == CleanStage::AwaitLocalPhase
                && old(self).stage == CleanStage::AwaitLocalAnswer && (event matches CleanEvent::LocalAnswered {
                accepted: true,
            }),
            r is DeleteRemote ==> old(self).remote_count > 0 && final(self).stage
                == CleanStage::AwaitRemotePhase && (old(self).skip_confirm && old(self).stage
                == CleanStage::AwaitFetch && (event is Fetched) || old(self).stage
                == CleanStage::AwaitRemoteAnswer && (event matches CleanEvent::RemoteAnswered {
                input,
            } && trim(input@) == remote_phrase(old(self).remote_count as nat))),
            old(self).stage == CleanStage::AwaitLocalAnswer ==> (event matches CleanEvent::LocalAnswered {
                accepted,
            } ==> if accepted {
                r is DeleteLocal
            } else {
                final(self).to_remote(r, final(self).stage)
            }),
            old(self).stage == CleanStage::AwaitLocalPhase ==> (event is LocalDeleted
                ==> final(self).to_remote(r, final(self).stage)),
            old(self).stage == CleanStage::AwaitFetch ==> (event is Fetched ==> if old(self).skip_confirm {
                r is DeleteRemote
            } else {
                (r matches CleanAction::ConfirmRemote { phrase } && phrase@ == remote_phrase(
                    old(self).remote_count as nat,
                )) && final(self).stage == CleanStage::AwaitRemoteAnswer
            }),
            old(self).stage == CleanStage::AwaitRemoteAnswer ==> (event matches CleanEvent::RemoteAnswered {
                input,
            } ==> if trim(input@) == remote_phrase(old(self).remote_count as nat) {
                r is DeleteRemote
            } else {
                r is Done
            }),
            old(self).stage == CleanStage::AwaitRemotePhase ==> (event is RemoteDeleted ==> r is Done),
    {
        if self.stage == CleanStage::AwaitLocalAnswer {
            if let CleanEvent::LocalAnswered { accepted } = event {
                if accepted && self.local_count > 0 {
                    self.stage = CleanStage::AwaitLocalPhase;
                    return CleanAction::DeleteLocal;
                }
                return self.go_remote();
            }
        } else if self.stage == CleanStage::AwaitLocalPhase {
            if let CleanEvent::LocalDeleted = event {
                return self.go_remote();
            }
        } else if self.stage == CleanStage::AwaitFetch {
            if let CleanEvent::Fetched = event {
                if self.remote_count == 0 {
                    self.stage = CleanStage::Done;
                    return CleanAction::Done;
                }
                if self.skip_confirm {
                    self.stage = CleanStage::AwaitRemotePhase;
                    return CleanAction::DeleteRemote;
                }
                self.stage = CleanStage::AwaitRemoteAnswer;
                return CleanAction::ConfirmRemote { phrase: remote_confirmation_phrase(self.remote_count) };
            }
        } else if self.stage == CleanStage::AwaitRemoteAnswer {
            if let CleanEvent::RemoteAnswered { input } = event {
                if self.remote_count > 0 && remote_deletion_confirmed(input.as_str(), self.remote_count) {
                    self.stage = CleanStage::AwaitRemotePhase;
                    return CleanAction::DeleteRemote;
                }
                self.stage = CleanStage::Done;
                return CleanAction::Done;
            }
        }
        self.stage = CleanStage::Done;
        CleanAction::Done
    }
}

/// Every branch that a phase asks to delete is recorded in the manifest
/// that was written before: read back, the manifest gives, at the branch's
/// place, its restore name and recorded commit. This holds when no header
/// value and no listed name holds a line break and every restore name and
/// commit is a single word.
pub proof fn lemma_deleted_branch_in_manifest(phase: DeletionPhase, a: DeletionAction)
    requires
        phase.wf(),
        phase.written,
        !phase.done,
        phase.deletes(a),
        one_line(phase.created@),
        one_line(phase.repo_name@),
        one_line(phase.working_dir@),
        writable(branch_blocks(phase.branches@, phase.resolved@)),
    ensures
        parse_spec(phase.manifest_text@) == Ok::<_, Seq<char>>(
            (
                recorded_entries(branch_blocks(phase.branches@, phase.resolved@)),
                Seq::<(int, Seq<char>)>::empty(),
            ),
        ),
        recorded_entries(branch_blocks(phase.branches@, phase.resolved@))[phase.pending as int] == (
            phase.branches@[phase.pending as int].short_spec(),
            recorded_sha(phase.branches@[phase.pending as int], phase.resolved@[phase.pending as int]),
        ),
{
    lemma_manifest_round_trip(
        phase.created@,
        phase.repo_name@,
        phase.working_dir@,
        branch_blocks(phase.branches@, phase.resolved@),
    );
}

} // verus!
