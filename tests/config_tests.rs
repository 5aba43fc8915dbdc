use deadbranch::config::{join, Config, ConfigError};

#[test]
fn test_default_config() {
    let config = Config::default();
    assert_eq!(config.general.default_days, 30);
    assert_eq!(
        config.branches.protected,
        vec!["main", "master", "develop", "staging", "production"]
    );
    assert_eq!(
        config.branches.exclude_patterns,
        vec!["wip/*", "draft/*", "*/wip", "*/draft"]
    );
    assert_eq!(config.branches.default_branch, None);
}

#[test]
fn config_test_config_set_default_days() {
    let mut config = Config::default();
    config.set("default-days", &["45".to_string()]).unwrap();
    assert_eq!(config.general.default_days, 45);

    config.set("days", &["60".to_string()]).unwrap();
    assert_eq!(config.general.default_days, 60);

    config
        .set("general.default-days", &["75".to_string()])
        .unwrap();
    assert_eq!(config.general.default_days, 75);
}

#[test]
fn test_config_set_default_days_invalid() {
    let mut config = Config::default();
    let result = config.set("default-days", &["not_a_number".to_string()]);
    assert!(result.is_err());

    let result = config.set("default-days", &["30".to_string(), "45".to_string()]);
    assert!(result.is_err());
}

#[test]
fn test_config_set_protected_branches() {
    let mut config = Config::default();
    config
        .set(
            "protected-branches",
            &["main".to_string(), "develop".to_string()],
        )
        .unwrap();
    assert_eq!(config.branches.protected, vec!["main", "develop"]);

    config
        .set("protected-branches", &["main".to_string()])
        .unwrap();
    assert_eq!(config.branches.protected, vec!["main"]);

    config
        .set("branches.protected", &["staging".to_string()])
        .unwrap();
    assert_eq!(config.branches.protected, vec!["staging"]);

    config.set("protected-branches", &["".to_string()]).unwrap();
    assert!(config.branches.protected.is_empty());
}

#[test]
fn test_config_set_default_branch() {
    let mut config = Config::default();
    config
        .set("default-branch", &["master".to_string()])
        .unwrap();
    assert_eq!(config.branches.default_branch, Some("master".to_string()));

    config
        .set("branches.default-branch", &["main".to_string()])
        .unwrap();
    assert_eq!(config.branches.default_branch, Some("main".to_string()));

    config.set("default-branch", &["".to_string()]).unwrap();
    assert_eq!(config.branches.default_branch, None);
}

#[test]
fn test_config_set_default_branch_invalid() {
    let mut config = Config::default();
    let result = config.set(
        "default-branch",
        &["main".to_string(), "master".to_string()],
    );
    assert!(result.is_err());
}

#[test]
fn test_config_set_exclude_patterns() {
    let mut config = Config::default();
    config
        .set(
            "exclude-patterns",
            &["temp/*".to_string(), "*/old".to_string()],
        )
        .unwrap();
    assert_eq!(config.branches.exclude_patterns, vec!["temp/*", "*/old"]);

    config
        .set("branches.exclude-patterns", &["test/*".to_string()])
        .unwrap();
    assert_eq!(config.branches.exclude_patterns, vec!["test/*"]);

    config.set("exclude-patterns", &["".to_string()]).unwrap();
    assert!(config.branches.exclude_patterns.is_empty());
}

#[test]
fn test_config_set_unknown_key() {
    let mut config = Config::default();
    let result = config.set("unknown-key", &["value".to_string()]);
    assert!(result.is_err());
    assert!(result
        .unwrap_err()
        .message()
        .contains("Unknown config key"));
}

#[test]
fn test_config_paths() {
    let deadbranch_dir = Config::deadbranch_dir();
    assert!(deadbranch_dir.is_ok());

    let config_path = Config::config_path();
    assert!(config_path.is_ok());

    let backups_dir = Config::backups_dir();
    assert!(backups_dir.is_ok());

    let repo_backup = Config::repo_backup_dir("test-repo");
    assert!(repo_backup.is_ok());
    assert!(repo_backup.unwrap().contains("test-repo"));
}

#[test]
fn paths_under_home_directory() {
    assert_eq!(Config::deadbranch_dir_in("/home/u"), "/home/u/.deadbranch");
    assert_eq!(Config::config_path_in("/home/u/"), "/home/u/.deadbranch/config.toml");
    assert_eq!(Config::backups_dir_in("/home/u"), "/home/u/.deadbranch/backups");
    assert_eq!(
        Config::repo_backup_dir_in("/home/u", "proj"),
        "/home/u/.deadbranch/backups/proj"
    );
}

#[test]
fn home_based_paths_end_with_tool_directory() {
    let p = Config::config_path().unwrap();
    assert!(p.ends_with("/.deadbranch/config.toml"));
    assert!(Config::backups_dir().unwrap().ends_with("/.deadbranch/backups"));
}

#[test]
fn join_adds_one_separator() {
    assert_eq!(join("a", "b"), "a/b");
    assert_eq!(join("a/", "b"), "a/b");
    assert_eq!(join("", "b"), "b");
}

#[test]
fn set_errors_name_their_cause() {
    let mut config = Config::default();
    match config.set("days", &["1".to_string(), "2".to_string()]) {
        Err(ConfigError::ExpectsSingleValue { key }) => assert_eq!(key, "default-days"),
        other => panic!("unexpected {:?}", other),
    }
    match config.set("days", &["-4".to_string()]) {
        Err(ConfigError::InvalidNumber { value }) => assert_eq!(value, "-4"),
        other => panic!("unexpected {:?}", other),
    }
    match config.set("colour", &["red".to_string()]) {
        Err(ConfigError::UnknownKey { key }) => assert_eq!(key, "colour"),
        other => panic!("unexpected {:?}", other),
    }
    assert_eq!(config.general.default_days, 30);
}

#[test]
fn days_accept_plus_sign_and_reject_overflow() {
    let mut config = Config::default();
    config.set("days", &["+7".to_string()]).unwrap();
    assert_eq!(config.general.default_days, 7);
    config.set("days", &["4294967295".to_string()]).unwrap();
    assert_eq!(config.general.default_days, 4294967295);
    assert!(config.set("days", &["4294967296".to_string()]).is_err());
    assert!(config.set("days", &["".to_string()]).is_err());
    assert!(config.set("days", &[" 5".to_string()]).is_err());
}

#[test]
fn list_settings_keep_order_and_drop_empty_values() {
    let mut config = Config::default();
    config
        .set(
            "exclude-patterns",
            &["b/*".to_string(), "".to_string(), "a/*".to_string()],
        )
        .unwrap();
    assert_eq!(config.branches.exclude_patterns, vec!["b/*", "a/*"]);
    assert_eq!(config.branches.protected.len(), 5);
}

#[test]
fn config_error_messages() {
    let e = ConfigError::ExpectsSingleValue { key: "default-days".to_string() };
    assert_eq!(e.message(), "default-days expects a single value");
    let e = ConfigError::InvalidNumber { value: "x".to_string() };
    assert_eq!(e.message(), "Invalid number: x");
}
