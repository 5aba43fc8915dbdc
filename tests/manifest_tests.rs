use deadbranch::branch::Branch;
use deadbranch::manifest::{parse_backup, render_manifest, split_lines};
use deadbranch::restore::RestoreError;

fn branch(name: &str, remote: bool, sha: &str) -> Branch {
    Branch {
        name: name.to_string(),
        age_days: 45,
        is_merged: true,
        is_remote: remote,
        last_commit_sha: sha.to_string(),
        last_commit_date: 0,
    }
}

#[test]
fn manifest_has_header_and_entries() {
    let branches = vec![branch("feat/a", false, "deadbee")];
    let resolved = vec![Some("deadbeefcafe0000000000000000000000000000".to_string())];
    let text = render_manifest(
        "2026-02-01T14:30:22+00:00",
        "repo",
        "/work/repo",
        &branches,
        &resolved,
    );
    let lines: Vec<&str> = text.lines().collect();
    assert_eq!(lines[0], "# deadbranch backup");
    assert_eq!(lines[1], "# Created: 2026-02-01T14:30:22+00:00");
    assert_eq!(lines[2], "# Repository: repo");
    assert_eq!(lines[3], "# Working directory: /work/repo");
    assert!(lines.contains(&"# feat/a"));
    assert!(lines.contains(&"git branch feat/a deadbeefcafe0000000000000000000000000000"));
}

#[test]
fn manifest_falls_back_to_listed_sha_and_strips_origin() {
    let branches = vec![branch("origin/feat/r", true, "abc1234"), branch("loc", false, "fff0000")];
    let resolved = vec![None, Some("1111111111111111111111111111111111111111".to_string())];
    let text = render_manifest("t", "r", "/w", &branches, &resolved);
    assert!(text.contains("# origin/feat/r\ngit branch feat/r abc1234\n\n"));
    assert!(text.contains("# loc\ngit branch loc 1111111111111111111111111111111111111111\n\n"));
}

#[test]
fn manifest_round_trip() {
    let branches = vec![
        branch("a", false, "0a0a0a0"),
        branch("origin/b/c", true, "1b1b1b1"),
        branch("d", false, "2c2c2c2"),
    ];
    let resolved = vec![None, None, Some("3d3d3d3d".to_string())];
    let text = render_manifest("2026-01-01T00:00:00+00:00", "repo", "/x", &branches, &resolved);
    let parsed = parse_backup(&text).unwrap();
    let pairs: Vec<(&str, &str)> = parsed
        .entries
        .iter()
        .map(|e| (e.name.as_str(), e.commit_sha.as_str()))
        .collect();
    assert_eq!(pairs, vec![("a", "0a0a0a0"), ("b/c", "1b1b1b1"), ("d", "3d3d3d3d")]);
    assert!(parsed.skipped_lines.is_empty());
}

#[test]
fn empty_manifest_round_trip() {
    let text = render_manifest("t", "r", "/w", &[], &[]);
    let parsed = parse_backup(&text).unwrap();
    assert!(parsed.entries.is_empty());
    assert!(parsed.skipped_lines.is_empty());
}

#[test]
fn parse_keeps_malformed_lines() {
    let text = "# deadbranch backup\n\ngit branch only-name\nrandom text\n  \n# note\ngit branch x 123 extra\r\n";
    let parsed = parse_backup(text).unwrap();
    assert_eq!(parsed.entries.len(), 1);
    assert_eq!(parsed.entries[0].name, "x");
    assert_eq!(parsed.entries[0].commit_sha, "123");
    let skipped: Vec<(usize, &str)> = parsed
        .skipped_lines
        .iter()
        .map(|s| (s.line_number, s.content.as_str()))
        .collect();
    assert_eq!(skipped, vec![(3, "git branch only-name"), (4, "random text")]);
}

#[test]
fn parse_rejects_missing_header() {
    match parse_backup("git branch a b\n") {
        Err(RestoreError::BackupCorrupted { message }) => {
            assert!(message.contains("Invalid header at line 1"));
            assert!(message.contains("git branch a b"));
        }
        other => panic!("unexpected {:?}", other),
    }
    match parse_backup("") {
        Err(RestoreError::BackupCorrupted { message }) => {
            assert_eq!(message, "Empty or invalid backup file")
        }
        other => panic!("unexpected {:?}", other),
    }
}

#[test]
fn header_tag_may_continue() {
    let parsed = parse_backup("# deadbranch backup v2\ngit branch q 9\n").unwrap();
    assert_eq!(parsed.entries.len(), 1);
}

#[test]
fn split_lines_reads_like_bufread() {
    assert_eq!(split_lines("a\r\nb\n\nc"), vec!["a", "b", "", "c"]);
    assert_eq!(split_lines("a\n"), vec!["a"]);
    assert!(split_lines("").is_empty());
    assert_eq!(split_lines("x\r"), vec!["x\r"]);
}
