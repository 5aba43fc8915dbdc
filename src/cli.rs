//! The actions of the `config` and `backup` commands.

use vstd::prelude::*;

verus! {

/// What `config` does.
#[derive(Debug)]
pub enum ConfigAction {
    /// Set a setting to one or more values.
    SetValues { key: String, values: Vec<String> },
    /// Show the settings.
    Show,
    /// Open the settings file in an editor.
    Edit,
    /// Restore the default settings.
    Reset,
}

/// What `backup` does.
#[derive(Debug)]
pub enum BackupAction {
    /// List manifests: of the current repository, of a named one, or all.
    List { current: bool, repo: Option<String> },
    /// Restore a branch from a manifest, under another name if given.
    Restore { branch: String, from: Option<String>, as_name: Option<String>, force: bool },
    /// Show how much the manifests take.
    Stats,
    /// Remove old manifests, keeping the newest `keep`.
    Clean { current: bool, repo: Option<String>, keep: usize, dry_run: bool, yes: bool },
}

} // verus!
