use deadbranch::branch::{sort_branches, Branch, BranchFilter};
use deadbranch::clean::{select_stale, StaleBranches};

fn test_branch(name: &str, age_days: i64, is_merged: bool, is_remote: bool) -> Branch {
    Branch {
        name: name.to_string(),
        age_days,
        is_merged,
        is_remote,
        last_commit_sha: "abc123".to_string(),
        last_commit_date: 1_700_000_000,
    }
}

#[test]
fn test_branch_short_name() {
    let local = test_branch("feature/test", 10, false, false);
    assert_eq!(local.short_name(), "feature/test");

    let remote = test_branch("origin/feature/test", 10, false, true);
    assert_eq!(remote.short_name(), "feature/test");
}

#[test]
fn test_branch_format_age() {
    let one_day = test_branch("test", 1, false, false);
    assert_eq!(one_day.format_age(), "1 day");

    let multiple_days = test_branch("test", 42, false, false);
    assert_eq!(multiple_days.format_age(), "42 days");
}

#[test]
fn test_branch_is_protected() {
    let branch = test_branch("feature/test", 10, false, false);
    let protected = vec!["main".to_string(), "develop".to_string()];
    assert!(!branch.is_protected(&protected));

    let main_branch = test_branch("main", 10, false, false);
    assert!(main_branch.is_protected(&protected));

    let remote_main = test_branch("origin/main", 10, false, true);
    assert!(remote_main.is_protected(&protected));
}

#[test]
fn test_glob_match_exact() {
    assert!(Branch::glob_match("main", "main"));
    assert!(!Branch::glob_match("main", "develop"));
}

#[test]
fn test_glob_match_prefix() {
    assert!(Branch::glob_match("wip/*", "wip/test"));
    assert!(Branch::glob_match("wip/*", "wip/feature/test"));
    assert!(!Branch::glob_match("wip/*", "feature/wip"));
}

#[test]
fn test_glob_match_suffix() {
    assert!(Branch::glob_match("*/draft", "feature/draft"));
    assert!(Branch::glob_match("*/draft", "test/feature/draft"));
    assert!(!Branch::glob_match("*/draft", "draft/feature"));
}

#[test]
fn test_glob_match_middle() {
    assert!(Branch::glob_match("feature/*/temp", "feature/test/temp"));
    assert!(Branch::glob_match("feature/*/temp", "feature/foo/bar/temp"));
    assert!(!Branch::glob_match("feature/*/temp", "feature/temp"));
}

#[test]
fn test_glob_match_multiple_wildcards() {
    assert!(Branch::glob_match("*/*/test", "a/b/test"));
    assert!(Branch::glob_match("*/test/*", "a/test/b"));
    assert!(Branch::glob_match("*test*", "mytest123"));
}

#[test]
fn test_branch_matches_exclude_pattern() {
    let branch = test_branch("wip/feature", 10, false, false);
    let patterns = vec!["wip/*".to_string(), "*/draft".to_string()];
    assert!(branch.matches_exclude_pattern(&patterns));

    let draft_branch = test_branch("feature/draft", 10, false, false);
    assert!(draft_branch.matches_exclude_pattern(&patterns));

    let normal_branch = test_branch("feature/test", 10, false, false);
    assert!(!normal_branch.matches_exclude_pattern(&patterns));
}

#[test]
fn test_filter_by_age() {
    let filter = BranchFilter {
        min_age_days: 30,
        ..Default::default()
    };

    let old_branch = test_branch("old", 45, false, false);
    assert!(filter.matches(&old_branch));

    let new_branch = test_branch("new", 15, false, false);
    assert!(!filter.matches(&new_branch));

    let exact_age = test_branch("exact", 30, false, false);
    assert!(filter.matches(&exact_age));
}

#[test]
fn test_filter_local_only() {
    let filter = BranchFilter {
        local_only: true,
        ..Default::default()
    };

    let local = test_branch("feature", 45, false, false);
    assert!(filter.matches(&local));

    let remote = test_branch("origin/feature", 45, false, true);
    assert!(!filter.matches(&remote));
}

#[test]
fn test_filter_remote_only() {
    let filter = BranchFilter {
        remote_only: true,
        ..Default::default()
    };

    let local = test_branch("feature", 45, false, false);
    assert!(!filter.matches(&local));

    let remote = test_branch("origin/feature", 45, false, true);
    assert!(filter.matches(&remote));
}

#[test]
fn test_filter_merged_only() {
    let filter = BranchFilter {
        merged_only: true,
        ..Default::default()
    };

    let merged = test_branch("feature", 45, true, false);
    assert!(filter.matches(&merged));

    let unmerged = test_branch("feature", 45, false, false);
    assert!(!filter.matches(&unmerged));
}

#[test]
fn test_filter_protected_branches() {
    let filter = BranchFilter {
        protected_branches: vec!["main".to_string(), "develop".to_string()],
        ..Default::default()
    };

    let feature = test_branch("feature", 45, false, false);
    assert!(filter.matches(&feature));

    let main = test_branch("main", 45, false, false);
    assert!(!filter.matches(&main));

    let develop = test_branch("develop", 45, false, false);
    assert!(!filter.matches(&develop));
}

#[test]
fn test_filter_exclude_patterns() {
    let filter = BranchFilter {
        exclude_patterns: vec!["wip/*".to_string(), "*/draft".to_string()],
        ..Default::default()
    };

    let feature = test_branch("feature/test", 45, false, false);
    assert!(filter.matches(&feature));

    let wip = test_branch("wip/feature", 45, false, false);
    assert!(!filter.matches(&wip));

    let draft = test_branch("feature/draft", 45, false, false);
    assert!(!filter.matches(&draft));
}

#[test]
fn test_filter_combined() {
    let filter = BranchFilter {
        min_age_days: 30,
        merged_only: true,
        local_only: true,
        remote_only: false,
        protected_branches: vec!["main".to_string()],
        exclude_patterns: vec!["wip/*".to_string()],
    };

    let good = test_branch("feature/old", 45, true, false);
    assert!(filter.matches(&good));

    let too_young = test_branch("feature/new", 15, true, false);
    assert!(!filter.matches(&too_young));

    let unmerged = test_branch("feature/unmerged", 45, false, false);
    assert!(!filter.matches(&unmerged));

    let remote = test_branch("origin/feature", 45, true, true);
    assert!(!filter.matches(&remote));

    let protected = test_branch("main", 45, true, false);
    assert!(!filter.matches(&protected));

    let wip = test_branch("wip/feature", 45, true, false);
    assert!(!filter.matches(&wip));
}

#[test]
fn test_sort_branches_by_merge_status() {
    let mut branches = vec![
        test_branch("merged1", 20, true, false),
        test_branch("unmerged1", 30, false, false),
        test_branch("merged2", 10, true, false),
        test_branch("unmerged2", 40, false, false),
    ];

    sort_branches(&mut branches);

    assert!(!branches[0].is_merged);
    assert!(!branches[1].is_merged);
    assert!(branches[2].is_merged);
    assert!(branches[3].is_merged);
}

#[test]
fn test_sort_branches_by_age_within_merged_status() {
    let mut branches = vec![
        test_branch("unmerged_newer", 20, false, false),
        test_branch("unmerged_older", 40, false, false),
        test_branch("merged_newer", 10, true, false),
        test_branch("merged_older", 30, true, false),
    ];

    sort_branches(&mut branches);

    assert_eq!(branches[0].name, "unmerged_newer");
    assert_eq!(branches[1].name, "unmerged_older");
    assert_eq!(branches[2].name, "merged_newer");
    assert_eq!(branches[3].name, "merged_older");
}

#[test]
fn sort_breaks_ties_by_name() {
    let mut branches = vec![
        test_branch("zeta", 10, true, false),
        test_branch("alpha", 10, true, false),
        test_branch("mid", 10, true, false),
    ];
    sort_branches(&mut branches);
    let names: Vec<&str> = branches.iter().map(|b| b.name.as_str()).collect();
    assert_eq!(names, vec!["alpha", "mid", "zeta"]);
}

#[test]
fn sort_keeps_every_branch() {
    let mut branches = vec![
        test_branch("c", 5, true, false),
        test_branch("a", 50, false, false),
        test_branch("b", 5, false, false),
        test_branch("d", 1, true, false),
    ];
    sort_branches(&mut branches);
    let names: Vec<&str> = branches.iter().map(|b| b.name.as_str()).collect();
    assert_eq!(names, vec!["b", "a", "d", "c"]);
    for w in branches.windows(2) {
        assert!(w[0].is_merged as u8 <= w[1].is_merged as u8);
        if w[0].is_merged == w[1].is_merged {
            assert!(w[0].age_days <= w[1].age_days);
        }
    }
}

#[test]
fn sort_of_empty_list() {
    let mut branches: Vec<Branch> = Vec::new();
    sort_branches(&mut branches);
    assert!(branches.is_empty());
}

#[test]
fn protected_or_excluded_never_pass_any_filter() {
    let filter = BranchFilter {
        min_age_days: 0,
        protected_branches: vec!["release".to_string()],
        exclude_patterns: vec!["tmp-*".to_string()],
        ..Default::default()
    };
    assert!(!filter.matches(&test_branch("release", 400, true, false)));
    assert!(!filter.matches(&test_branch("origin/release", 400, true, true)));
    assert!(!filter.matches(&test_branch("tmp-x", 400, true, false)));
    assert!(!filter.matches(&test_branch("origin/tmp-y", 400, true, true)));
    assert!(filter.matches(&test_branch("feature", 400, true, false)));
}

#[test]
fn glob_agrees_with_wildcard_meaning() {
    let cases = [
        ("", "", true),
        ("", "a", false),
        ("*", "", true),
        ("**", "abc", true),
        ("a*a", "a", false),
        ("a*a", "aa", true),
        ("a*b*c", "abc", true),
        ("a*b*c", "acb", false),
        ("*ab", "aab", true),
        ("ab*", "a", false),
        ("a**b", "ab", true),
        ("x*y*z", "xyyzz", true),
        ("x*y*z", "xzy", false),
    ];
    for (p, t, expected) in cases {
        assert_eq!(Branch::glob_match(p, t), expected, "pattern {:?} on {:?}", p, t);
    }
}

#[test]
fn glob_is_case_sensitive() {
    assert!(!Branch::glob_match("WIP/*", "wip/x"));
}

#[test]
fn short_name_keeps_local_origin_prefix() {
    let local = test_branch("origin/odd", 1, false, false);
    assert_eq!(local.short_name(), "origin/odd");
    let remote_without_prefix = test_branch("upstream/x", 1, false, true);
    assert_eq!(remote_without_prefix.short_name(), "upstream/x");
}

#[test]
fn negative_age_is_written_with_sign() {
    assert_eq!(test_branch("x", -3, false, false).format_age(), "-3 days");
    assert_eq!(test_branch("x", 0, false, false).format_age(), "0 days");
}

#[test]
fn list_default_keeps_only_old_unprotected_branches() {
    let filter = BranchFilter {
        min_age_days: 30,
        protected_branches: vec!["main".to_string()],
        ..Default::default()
    };
    let all = vec![
        test_branch("main", 100, true, false),
        test_branch("feat/a", 45, true, false),
        test_branch("hot", 3, false, false),
    ];
    let StaleBranches { local, remote } = select_stale(all, &filter);
    let names: Vec<&str> = local.iter().map(|b| b.name.as_str()).collect();
    assert_eq!(names, vec!["feat/a"]);
    assert!(remote.is_empty());
}

#[test]
fn pattern_exclusion_leaves_nothing() {
    let filter = BranchFilter {
        min_age_days: 30,
        exclude_patterns: vec!["wip/*".to_string()],
        ..Default::default()
    };
    let stale = select_stale(vec![test_branch("wip/x", 60, false, false)], &filter);
    assert!(stale.local.is_empty());
    assert!(stale.remote.is_empty());
}

#[test]
fn select_stale_splits_and_sorts() {
    let filter = BranchFilter::default();
    let all = vec![
        test_branch("origin/b", 9, true, true),
        test_branch("x", 9, true, false),
        test_branch("origin/a", 2, true, true),
        test_branch("y", 1, false, false),
    ];
    let stale = select_stale(all, &filter);
    let local: Vec<&str> = stale.local.iter().map(|b| b.name.as_str()).collect();
    let remote: Vec<&str> = stale.remote.iter().map(|b| b.name.as_str()).collect();
    assert_eq!(local, vec!["y", "x"]);
    assert_eq!(remote, vec!["origin/a", "origin/b"]);
}
