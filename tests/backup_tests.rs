use deadbranch::backup::{
    backups_to_clean, created_stamp, is_manifest_file_name, manifest_file_name, manifest_path,
    parse_timestamp_from_filename, sort_newest_first, BackupInfo,
};

fn info(path: &str, timestamp: i64) -> BackupInfo {
    BackupInfo {
        path: path.to_string(),
        repo_name: "test".to_string(),
        timestamp,
        branch_count: 5,
    }
}

fn day_of(ts: i64) -> String {
    chrono::DateTime::from_timestamp(ts, 0)
        .unwrap()
        .format("%Y-%m-%d")
        .to_string()
}

#[test]
fn test_parse_timestamp_from_filename() {
    let ts = parse_timestamp_from_filename("/some/path/backup-20260201-143022.txt").unwrap();
    assert_eq!(
        chrono::DateTime::from_timestamp(ts, 0)
            .unwrap()
            .format("%Y-%m-%d %H:%M:%S")
            .to_string(),
        "2026-02-01 14:30:22"
    );
}

#[test]
fn test_parse_timestamp_invalid_filename() {
    assert!(parse_timestamp_from_filename("/some/path/not-a-backup.txt").is_none());
    assert!(parse_timestamp_from_filename("/some/path/backup-invalid.txt").is_none());
}

#[test]
fn test_backup_info_from_path() {
    let content = r#"# deadbranch backup
# Created: 2026-02-01T14:30:22Z
# Repository: test-repo

# feature/old-api
git branch feature/old-api a1b2c3d4

# bugfix/login
git branch bugfix/login e5f6g7h8
"#;
    let info = BackupInfo::from_content("/tmp/x/backup-20260201-143022.txt", "test-repo", content, 0);
    assert_eq!(info.repo_name, "test-repo");
    assert_eq!(info.branch_count, 2);
    assert_eq!(day_of(info.timestamp), "2026-02-01");
}

#[test]
fn test_backup_info_format_age() {
    let now = 1_800_000_000;
    let info = info("/test", now - 2 * 3600);
    let age = info.format_age_at(now);
    assert!(age.contains("hour"));
}

#[test]
fn test_backup_info_filename() {
    let info = info("/some/long/path/backup-20260201-143022.txt", 0);
    assert_eq!(info.filename(), "backup-20260201-143022.txt");
}

#[test]
fn timestamp_falls_back_to_filename_then_now() {
    let no_header = "# deadbranch backup\ngit branch a b\n";
    let from_name = BackupInfo::from_content("/d/backup-20260201-143022.txt", "r", no_header, 7);
    assert_eq!(day_of(from_name.timestamp), "2026-02-01");
    let from_now = BackupInfo::from_content("/d/other.txt", "r", no_header, 7);
    assert_eq!(from_now.timestamp, 7);
    let bad_header = "# deadbranch backup\n# Created: yesterday\n";
    assert_eq!(BackupInfo::from_content("/d/x.txt", "r", bad_header, 9).timestamp, 9);
}

#[test]
fn impossible_dates_in_names_are_rejected() {
    assert!(parse_timestamp_from_filename("backup-20261332-143022.txt").is_none());
    assert!(parse_timestamp_from_filename("backup-20260230-000000.txt").is_none());
    assert!(parse_timestamp_from_filename("backup-2026020-1143022.txt").is_none());
    assert!(parse_timestamp_from_filename("backup-20260201-14302x.txt").is_none());
    assert!(parse_timestamp_from_filename("backup-20260201-143022").is_some());
}

#[test]
fn ages_in_words() {
    let now = 1_800_000_000;
    assert_eq!(info("/a", now - 86400).format_age_at(now), "1 day ago");
    assert_eq!(info("/a", now - 3 * 86400 - 5).format_age_at(now), "3 days ago");
    assert_eq!(info("/a", now - 3600).format_age_at(now), "1 hour ago");
    assert_eq!(info("/a", now - 120).format_age_at(now), "2 minutes ago");
    assert_eq!(info("/a", now - 59).format_age_at(now), "just now");
    assert_eq!(info("/a", now + 100).format_age_at(now), "just now");
}

#[test]
fn retention_keeps_newest() {
    let mut list = vec![info("/A", 100), info("/C", 300), info("/B", 200)];
    sort_newest_first(&mut list);
    let order: Vec<&str> = list.iter().map(|b| b.path.as_str()).collect();
    assert_eq!(order, vec!["/C", "/B", "/A"]);
    let gone = backups_to_clean(list, 1);
    let gone: Vec<&str> = gone.iter().map(|b| b.path.as_str()).collect();
    assert_eq!(gone, vec!["/B", "/A"]);
}

#[test]
fn retention_with_large_keep_removes_nothing() {
    let list = vec![info("/A", 1), info("/B", 2)];
    assert!(backups_to_clean(list, 10).is_empty());
    let list = vec![info("/A", 1)];
    assert_eq!(backups_to_clean(list, 0).len(), 1);
}

#[test]
fn manifest_names_from_instant() {
    let ts = chrono::NaiveDate::from_ymd_opt(2026, 2, 1)
        .unwrap()
        .and_hms_opt(14, 30, 22)
        .unwrap()
        .and_utc()
        .timestamp();
    assert_eq!(manifest_file_name(ts).unwrap(), "backup-20260201-143022.txt");
    assert_eq!(
        manifest_path("/h/.deadbranch/backups/r", ts).unwrap(),
        "/h/.deadbranch/backups/r/backup-20260201-143022.txt"
    );
    assert_eq!(created_stamp(ts).unwrap(), "2026-02-01T14:30:22+00:00");
    assert_eq!(parse_timestamp_from_filename(&manifest_file_name(ts).unwrap()), Some(ts));
}

#[test]
fn manifest_file_names() {
    assert!(is_manifest_file_name("backup-20260201-143022.txt"));
    assert!(is_manifest_file_name("backup-.txt"));
    assert!(!is_manifest_file_name("backup-20260201-143022.md"));
    assert!(!is_manifest_file_name("notes.txt"));
    assert!(!is_manifest_file_name("backup"));
}
