use deadbranch::branch::Branch;
use deadbranch::clean::{
    clean_filter, dry_run_commands, remote_confirmation_phrase, remote_deletion_confirmed,
    trim_str, CleanAction, CleanEvent, CleanRun, DeletionAction, DeletionEvent, DeletionPhase,
};
use deadbranch::manifest::parse_backup;

fn branch(name: &str, merged: bool, remote: bool) -> Branch {
    Branch {
        name: name.to_string(),
        age_days: 45,
        is_merged: merged,
        is_remote: remote,
        last_commit_sha: "deadbee".to_string(),
        last_commit_date: 0,
    }
}

#[test]
fn dry_run_shows_exact_commands() {
    let local = vec![branch("feat/a", true, false), branch("wip", false, false)];
    let remote = vec![branch("origin/old", true, true)];
    assert_eq!(
        dry_run_commands(&local, &remote, false),
        vec![
            "git branch -d feat/a",
            "git branch -D wip",
            "git push origin --delete old"
        ]
    );
    assert_eq!(dry_run_commands(&local[..1], &[], true), vec!["git branch -D feat/a"]);
}

#[test]
fn clean_filter_forces_merged_without_force() {
    assert!(clean_filter(30, false, false, false, false, vec![], vec![]).merged_only);
    assert!(!clean_filter(30, false, false, false, true, vec![], vec![]).merged_only);
    assert!(clean_filter(30, false, false, true, true, vec![], vec![]).merged_only);
}

#[test]
fn remote_confirmation_needs_exact_phrase() {
    assert_eq!(remote_confirmation_phrase(2), "delete 2 remote branches");
    assert_eq!(remote_confirmation_phrase(1), "delete 1 remote branch");
    assert!(!remote_deletion_confirmed("yes", 2));
    assert!(remote_deletion_confirmed("delete 2 remote branches", 2));
    assert!(remote_deletion_confirmed("  delete 2 remote branches \n", 2));
    assert!(!remote_deletion_confirmed("delete 2 remote branch", 2));
    assert!(!remote_deletion_confirmed("Delete 2 remote branches", 2));
}

#[test]
fn trim_removes_unicode_spaces() {
    assert_eq!(trim_str("\u{3000} a b \t"), "a b");
    assert_eq!(trim_str("   "), "");
}

#[test]
fn phase_writes_manifest_before_deleting() {
    let branches = vec![branch("a", true, false), branch("b", false, false)];
    let (mut phase, first) = DeletionPhase::new(
        branches,
        vec![Some("1111111".to_string()), None],
        false,
        false,
        "2026-01-01T00:00:00+00:00",
        "repo",
        "/w",
        "/h/.deadbranch/backups/repo/backup-20260101-000000.txt",
    );
    let text = match first {
        DeletionAction::WriteManifest { path, text } => {
            assert!(path.ends_with("backup-20260101-000000.txt"));
            text
        }
        other => panic!("unexpected {:?}", other),
    };
    let parsed = parse_backup(&text).unwrap();
    assert_eq!(parsed.entries.len(), 2);
    assert_eq!(parsed.entries[0].name, "a");
    assert_eq!(parsed.entries[0].commit_sha, "1111111");
    assert_eq!(parsed.entries[1].commit_sha, "deadbee");

    match phase.step(DeletionEvent::ManifestWritten { result: Ok(()) }) {
        DeletionAction::DeleteLocal { name, force } => {
            assert_eq!(name, "a");
            assert!(!force);
        }
        other => panic!("unexpected {:?}", other),
    }
    match phase.step(DeletionEvent::Deleted { result: Ok(()) }) {
        DeletionAction::DeleteLocal { name, force } => {
            assert_eq!(name, "b");
            assert!(force);
        }
        other => panic!("unexpected {:?}", other),
    }
    match phase.step(DeletionEvent::Deleted { result: Err("refused".to_string()) }) {
        DeletionAction::Finished { result: Ok(s) } => {
            assert_eq!(s.deleted, 1);
            assert_eq!(s.failed, 1);
        }
        other => panic!("unexpected {:?}", other),
    }
}

#[test]
fn phase_deletes_nothing_when_manifest_fails() {
    let (mut phase, _) = DeletionPhase::new(
        vec![branch("a", true, false)],
        vec![None],
        false,
        false,
        "t",
        "r",
        "/w",
        "/p",
    );
    match phase.step(DeletionEvent::ManifestWritten { result: Err("disk full".to_string()) }) {
        DeletionAction::Finished { result: Err(m) } => assert_eq!(m, "disk full"),
        other => panic!("unexpected {:?}", other),
    }
    match phase.step(DeletionEvent::Deleted { result: Ok(()) }) {
        DeletionAction::Finished { result: Err(_) } => {}
        other => panic!("unexpected {:?}", other),
    }
}

#[test]
fn phase_refuses_deletion_before_manifest() {
    let (mut phase, _) = DeletionPhase::new(
        vec![branch("a", true, false)],
        vec![None],
        false,
        false,
        "t",
        "r",
        "/w",
        "/p",
    );
    match phase.step(DeletionEvent::Deleted { result: Ok(()) }) {
        DeletionAction::Finished { result: Err(_) } => {}
        other => panic!("unexpected {:?}", other),
    }
}

#[test]
fn remote_phase_deletes_short_names() {
    let (mut phase, _) = DeletionPhase::new(
        vec![branch("origin/a", true, true), branch("origin/b", true, true)],
        vec![None, None],
        true,
        false,
        "t",
        "r",
        "/w",
        "/p",
    );
    match phase.step(DeletionEvent::ManifestWritten { result: Ok(()) }) {
        DeletionAction::DeleteRemote { name } => assert_eq!(name, "a"),
        other => panic!("unexpected {:?}", other),
    }
    assert!(phase.manifest_text.contains("git branch a deadbee"));
    assert!(phase.manifest_text.contains("# origin/a"));
}

#[test]
fn clean_run_local_then_remote_with_typed_phrase() {
    let (mut run, a) = CleanRun::new(2, 2, false);
    assert!(matches!(a, CleanAction::ConfirmLocal));
    assert!(matches!(run.step(CleanEvent::LocalAnswered { accepted: true }), CleanAction::DeleteLocal));
    assert!(matches!(run.step(CleanEvent::LocalDeleted), CleanAction::FetchRemote));
    match run.step(CleanEvent::Fetched) {
        CleanAction::ConfirmRemote { phrase } => assert_eq!(phrase, "delete 2 remote branches"),
        other => panic!("unexpected {:?}", other),
    }
    assert!(matches!(
        run.step(CleanEvent::RemoteAnswered { input: "delete 2 remote branches\n".to_string() }),
        CleanAction::DeleteRemote
    ));
    assert!(matches!(run.step(CleanEvent::RemoteDeleted), CleanAction::Done));
}

#[test]
fn clean_run_rejects_yes_for_remote() {
    let (mut run, a) = CleanRun::new(0, 2, false);
    assert!(matches!(a, CleanAction::FetchRemote));
    assert!(matches!(run.step(CleanEvent::Fetched), CleanAction::ConfirmRemote { .. }));
    assert!(matches!(
        run.step(CleanEvent::RemoteAnswered { input: "yes".to_string() }),
        CleanAction::Done
    ));
}

#[test]
fn clean_run_declined_local_goes_on_to_remote_and_yes_skips_questions() {
    let (mut run, _) = CleanRun::new(1, 1, false);
    assert!(matches!(run.step(CleanEvent::LocalAnswered { accepted: false }), CleanAction::FetchRemote));
    let (mut run, a) = CleanRun::new(1, 1, true);
    assert!(matches!(a, CleanAction::DeleteLocal));
    assert!(matches!(run.step(CleanEvent::LocalDeleted), CleanAction::FetchRemote));
    assert!(matches!(run.step(CleanEvent::Fetched), CleanAction::DeleteRemote));
    let (_, a) = CleanRun::new(0, 0, false);
    assert!(matches!(a, CleanAction::Done));
}
