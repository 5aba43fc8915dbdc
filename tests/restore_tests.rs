use deadbranch::restore::{RestoreAction, RestoreError, RestoreEvent, RestoreSession};

const MANIFEST: &str = "# deadbranch backup\n# Created: 2026-02-01T14:30:22+00:00\n\n# old-x\ngit branch old-x 0123456789abcdef0123456789abcdef01234567\n\n# x\ngit branch x aaaaaaa\n\nbroken line\n";

fn run(
    session: &mut RestoreSession,
    first: RestoreAction,
    exists: bool,
    newest: Option<&str>,
    manifest: Result<&str, &str>,
    commit_ok: bool,
    created: &mut Vec<(String, String, bool)>,
) -> Result<deadbranch::restore::RestoreResult, RestoreError> {
    let mut action = first;
    loop {
        let event = match action {
            RestoreAction::CheckBranch { .. } => RestoreEvent::BranchChecked { exists },
            RestoreAction::CheckSelector { .. } => RestoreEvent::SelectorChecked { is_path: false },
            RestoreAction::FindNewest { .. } => RestoreEvent::NewestFound {
                path: newest.map(|p| p.to_string()),
            },
            RestoreAction::ReadManifest { .. } => RestoreEvent::ManifestRead {
                content: manifest.map(|s| s.to_string()).map_err(|e| e.to_string()),
            },
            RestoreAction::CheckCommit { .. } => RestoreEvent::CommitChecked { exists: commit_ok },
            RestoreAction::CreateBranch { name, sha, force } => {
                created.push((name, sha, force));
                RestoreEvent::BranchCreated { result: Ok(()) }
            }
            RestoreAction::Finished { result } => return result,
        };
        action = session.step(event);
    }
}

#[test]
fn restore_success() {
    let (mut s, a) = RestoreSession::start("old-x", None, None, false, "repo", "/b/repo");
    let mut created = Vec::new();
    let r = run(&mut s, a, false, Some("/b/repo/backup-1.txt"), Ok(MANIFEST), true, &mut created)
        .unwrap();
    assert_eq!(r.original_name, "old-x");
    assert_eq!(r.restored_name, "old-x");
    assert_eq!(r.commit_sha, "0123456789abcdef0123456789abcdef01234567");
    assert!(!r.overwrote_existing);
    assert_eq!(
        created,
        vec![("old-x".to_string(), "0123456789abcdef0123456789abcdef01234567".to_string(), false)]
    );
}

#[test]
fn restore_collision_then_force() {
    let (mut s, a) = RestoreSession::start("x", None, None, false, "repo", "/b/repo");
    let mut created = Vec::new();
    match run(&mut s, a, true, Some("/b/repo/backup-1.txt"), Ok(MANIFEST), true, &mut created) {
        Err(RestoreError::BranchExists { branch_name }) => assert_eq!(branch_name, "x"),
        other => panic!("unexpected {:?}", other),
    }
    assert!(created.is_empty());

    let (mut s, a) = RestoreSession::start("x", None, None, true, "repo", "/b/repo");
    let r = run(&mut s, a, true, Some("/b/repo/backup-1.txt"), Ok(MANIFEST), true, &mut created)
        .unwrap();
    assert!(r.overwrote_existing);
    assert_eq!(created, vec![("x".to_string(), "aaaaaaa".to_string(), true)]);
}

#[test]
fn restore_under_other_name() {
    let (mut s, a) = RestoreSession::start("x", None, Some("y"), false, "repo", "/b/repo");
    match &a {
        RestoreAction::CheckBranch { name } => assert_eq!(name, "y"),
        other => panic!("unexpected {:?}", other),
    }
    let mut created = Vec::new();
    let r = run(&mut s, a, false, Some("p"), Ok(MANIFEST), true, &mut created).unwrap();
    assert_eq!(r.original_name, "x");
    assert_eq!(r.restored_name, "y");
    assert_eq!(created[0].0, "y");
}

#[test]
fn restore_errors_in_order() {
    let mut created = Vec::new();

    let (mut s, a) = RestoreSession::start("x", None, None, false, "repo", "/b/repo");
    match run(&mut s, a, false, None, Ok(MANIFEST), true, &mut created) {
        Err(RestoreError::NoBackupsFound { repo_name }) => assert_eq!(repo_name, "repo"),
        other => panic!("unexpected {:?}", other),
    }

    let (mut s, a) = RestoreSession::start("x", None, None, false, "repo", "/b/repo");
    match run(&mut s, a, false, Some("p"), Ok("nope\n"), true, &mut created) {
        Err(RestoreError::BackupCorrupted { .. }) => {}
        other => panic!("unexpected {:?}", other),
    }

    let (mut s, a) = RestoreSession::start("zzz", None, None, false, "repo", "/b/repo");
    match run(&mut s, a, false, Some("p"), Ok(MANIFEST), true, &mut created) {
        Err(RestoreError::BranchNotInBackup { branch_name, available_branches, skipped_lines }) => {
            assert_eq!(branch_name, "zzz");
            assert_eq!(available_branches.len(), 2);
            assert_eq!(skipped_lines.len(), 1);
            assert_eq!(skipped_lines[0].line_number, 10);
            assert_eq!(skipped_lines[0].content, "broken line");
        }
        other => panic!("unexpected {:?}", other),
    }

    let (mut s, a) = RestoreSession::start("x", None, None, false, "repo", "/b/repo");
    match run(&mut s, a, false, Some("p"), Ok(MANIFEST), false, &mut created) {
        Err(RestoreError::CommitNotFound { branch_name, commit_sha }) => {
            assert_eq!(branch_name, "x");
            assert_eq!(commit_sha, "aaaaaaa");
        }
        other => panic!("unexpected {:?}", other),
    }

    let (mut s, a) = RestoreSession::start("x", None, None, false, "repo", "/b/repo");
    match run(&mut s, a, false, Some("p"), Err("unreadable"), true, &mut created) {
        Err(RestoreError::Other { message }) => assert_eq!(message, "unreadable"),
        other => panic!("unexpected {:?}", other),
    }
    assert!(created.is_empty());
}

#[test]
fn restore_resolves_selector_in_backup_dir() {
    let (mut s, a) = RestoreSession::start("x", Some("backup-1.txt"), None, false, "repo", "/b/repo");
    assert!(matches!(a, RestoreAction::CheckBranch { .. }));
    match s.step(RestoreEvent::BranchChecked { exists: false }) {
        RestoreAction::CheckSelector { selector } => assert_eq!(selector, "backup-1.txt"),
        other => panic!("unexpected {:?}", other),
    }
    match s.step(RestoreEvent::SelectorChecked { is_path: false }) {
        RestoreAction::ReadManifest { path } => assert_eq!(path, "/b/repo/backup-1.txt"),
        other => panic!("unexpected {:?}", other),
    }
}

#[test]
fn restore_uses_selector_that_is_a_path() {
    let (mut s, _) = RestoreSession::start("x", Some("/tmp/m.txt"), None, false, "repo", "/b/repo");
    s.step(RestoreEvent::BranchChecked { exists: false });
    match s.step(RestoreEvent::SelectorChecked { is_path: true }) {
        RestoreAction::ReadManifest { path } => assert_eq!(path, "/tmp/m.txt"),
        other => panic!("unexpected {:?}", other),
    }
}

#[test]
fn restore_rejects_out_of_order_answer() {
    let (mut s, _) = RestoreSession::start("x", None, None, false, "repo", "/b/repo");
    match s.step(RestoreEvent::CommitChecked { exists: true }) {
        RestoreAction::Finished { result: Err(RestoreError::Other { .. }) } => {}
        other => panic!("unexpected {:?}", other),
    }
}

#[test]
fn restore_error_messages() {
    assert_eq!(
        RestoreError::BranchExists { branch_name: "x".to_string() }.message(),
        "Branch 'x' already exists"
    );
    assert_eq!(
        RestoreError::CommitNotFound { branch_name: "x".to_string(), commit_sha: "abc".to_string() }
            .message(),
        "Cannot restore 'x': commit abc no longer exists"
    );
    assert_eq!(
        RestoreError::NoBackupsFound { repo_name: "r".to_string() }.message(),
        "No backups found for repository 'r'"
    );
    assert_eq!(
        RestoreError::BackupCorrupted { message: "m".to_string() }.message(),
        "Backup file is corrupted: m"
    );
}
