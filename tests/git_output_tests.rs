use deadbranch::error::DeadbranchError;
use deadbranch::git::{
    age_in_days, local_delete_error, merged_listing_contains, parse_i64, parse_ref_listing,
    resolve_default_branch, split_bars, RefRecord,
};
use deadbranch::branch::Branch;

#[test]
fn ref_listing_skips_current_and_malformed() {
    let out = "main|1700000000|abc1234\nfeat/a|1600000000|def5678\nbad line\nx|notanumber|0000000\n";
    let recs = parse_ref_listing(out, false, "main", "main");
    let got: Vec<(&str, i64, &str)> = recs
        .iter()
        .map(|r| (r.name.as_str(), r.timestamp, r.sha.as_str()))
        .collect();
    assert_eq!(got, vec![("feat/a", 1600000000, "def5678"), ("x", 0, "0000000")]);
}

#[test]
fn remote_listing_skips_head_and_default() {
    let out = "origin/HEAD|1|a\norigin/main|2|b\norigin/feat|3|c\n";
    let recs = parse_ref_listing(out, true, "", "main");
    assert_eq!(recs.len(), 1);
    assert_eq!(recs[0].name, "origin/feat");
}

#[test]
fn pieces_like_split() {
    assert_eq!(split_bars("a|b||c"), vec!["a", "b", "", "c"]);
    assert_eq!(split_bars(""), vec![""]);
}

#[test]
fn signed_numbers() {
    assert_eq!(parse_i64("-5"), Some(-5));
    assert_eq!(parse_i64("+5"), Some(5));
    assert_eq!(parse_i64("9223372036854775807"), Some(i64::MAX));
    assert_eq!(parse_i64("-9223372036854775808"), Some(i64::MIN));
    assert_eq!(parse_i64("9223372036854775808"), None);
    assert_eq!(parse_i64("-"), None);
    assert_eq!(parse_i64("1a"), None);
}

#[test]
fn ages_round_down() {
    assert_eq!(age_in_days(86400 * 45 + 10, 10), 45);
    assert_eq!(age_in_days(100, 100), 0);
    assert_eq!(age_in_days(0, 1), -1);
    assert_eq!(age_in_days(0, 86400), -1);
    assert_eq!(age_in_days(0, 86401), -2);
}

#[test]
fn branch_from_record() {
    let rec = RefRecord { name: "feat/a".to_string(), timestamp: 0, sha: "abc".to_string() };
    let b = Branch::from_record(rec, true, false, 86400 * 45);
    assert_eq!(b.age_days, 45);
    assert!(b.is_merged);
    assert_eq!(b.last_commit_date, 0);
}

#[test]
fn merged_listing() {
    let out = "* main\n  feat/a\n  remotes/origin/feat/b\n";
    assert!(merged_listing_contains(out, "main"));
    assert!(merged_listing_contains(out, "feat/a"));
    assert!(merged_listing_contains(out, "origin/feat/b"));
    assert!(!merged_listing_contains(out, "feat"));
}

#[test]
fn default_branch_choice() {
    assert_eq!(resolve_default_branch(Some("origin/trunk\n"), true, true), "trunk");
    assert_eq!(resolve_default_branch(Some("weird"), false, false), "main");
    assert_eq!(resolve_default_branch(None, false, true), "master");
    assert_eq!(resolve_default_branch(None, true, true), "main");
    assert_eq!(resolve_default_branch(None, false, false), "main");
}

#[test]
fn unmerged_refusal_is_told_apart() {
    match local_delete_error("x", "error: the branch 'x' is not fully merged.") {
        DeadbranchError::UnmergedBranch(b) => assert_eq!(b, "x"),
        other => panic!("unexpected {:?}", other),
    }
    match local_delete_error("x", "fatal: oops") {
        DeadbranchError::GitCommandFailed(m) => assert_eq!(m, "Failed to delete branch 'x': fatal: oops"),
        other => panic!("unexpected {:?}", other),
    }
    assert_eq!(
        DeadbranchError::UnmergedBranch("x".to_string()).message(),
        "Branch 'x' has unmerged changes. Use --force to delete anyway"
    );
}

#[test]
fn local_default_branch_is_never_listed() {
    let recs = parse_ref_listing("main|0|abc\nfeat/x|0|def\n", false, "feat", "main");
    assert_eq!(recs.len(), 1);
    assert_eq!(recs[0].name, "feat/x");
}
