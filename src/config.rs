//! Settings: the age threshold, the default branch, the protected names and
//! the exclude patterns, where they live, and how one is set by key.

use vstd::prelude::*;
use vstd::string::*;

use crate::text::{cat, owned, parse_u32, parse_u32_spec, same};

verus! {

/// Default age, in days, from which a branch is stale.
pub const DEFAULT_DAYS: u32 = 30;

/// `dir` and `name` joined by one `/` (as `Path::join` does for a relative
/// `name`).
pub open spec fn join_path(dir: Seq<char>, name: Seq<char>) -> Seq<char> {
    if dir.len() == 0 {
        name
    } else if dir.last() == '/' {
        dir + name
    } else {
        dir + seq!['/'] + name
    }
}

/// `dir` and `name` joined by one `/`.
pub fn join(dir: &str, name: &str) -> (r: String)
    ensures
        r@ == join_path(dir@, name@),
{
    let n = dir.unicode_len();
    if n == 0 {
        owned(name)
    } else if dir.get_char(n - 1) == '/' {
        cat(dir, name)
    } else {
        proof {
            reveal_strlit("/");
        }
        let d = cat(dir, "/");
        let r = cat(d.as_str(), name);
        assert(r@ =~= dir@ + seq!['/'] + name@);
        r
    }
}

/// The texts of `v`.
pub open spec fn views(v: Seq<String>) -> Seq<Seq<char>> {
    v.map_values(|s: String| s@)
}

/// The non-empty texts of `v`, in order.
pub open spec fn nonempty_only(v: Seq<Seq<char>>) -> Seq<Seq<char>>
    decreases v.len(),
{
    if v.len() == 0 {
        seq![]
    } else if v.last().len() == 0 {
        nonempty_only(v.drop_last())
    } else {
        nonempty_only(v.drop_last()).push(v.last())
    }
}

/// Why a setting could not be read or changed.
#[derive(Debug)]
pub enum ConfigError {
    /// The key takes exactly one value.
    ExpectsSingleValue { key: String },
    /// The value is not a whole number of days.
    InvalidNumber { value: String },
    /// No setting has this key.
    UnknownKey { key: String },
    /// The home directory could not be found.
    NoHomeDirectory,
}

impl ConfigError {
    /// The error as a sentence.
    pub fn message(&self) -> String {
        match self {
            ConfigError::ExpectsSingleValue { key } => cat(key.as_str(), " expects a single value"),
            ConfigError::InvalidNumber { value } => cat("Invalid number: ", value.as_str()),
            ConfigError::UnknownKey { key } => {
                let m = cat("Unknown config key: ", key.as_str());
                cat(
                    m.as_str(),
                    ". Valid keys: general.default-days, branches.protected, branches.default-branch, branches.exclude-patterns",
                )
            },
            ConfigError::NoHomeDirectory => owned("Could not determine home directory"),
        }
    }
}

/// General settings.
#[derive(Debug)]
pub struct GeneralConfig {
    /// Age in days from which a branch is stale, when none is given.
    pub default_days: u32,
}

/// Settings about branches.
#[derive(Debug)]
pub struct BranchesConfig {
    /// The branch that merges are checked against; found from the repository
    /// when absent.
    pub default_branch: Option<String>,
    /// Short names never listed or deleted.
    pub protected: Vec<String>,
    /// Patterns whose matches are never listed or deleted.
    pub exclude_patterns: Vec<String>,
}

/// All settings.
#[derive(Debug)]
pub struct Config {
    pub general: GeneralConfig,
    pub branches: BranchesConfig,
}

/// The protected names of a new configuration.
pub open spec fn default_protected_spec() -> Seq<Seq<char>> {
    seq!["main"@, "master"@, "develop"@, "staging"@, "production"@]
}

/// The exclude patterns of a new configuration.
pub open spec fn default_exclude_spec() -> Seq<Seq<char>> {
    seq!["wip/*"@, "draft/*"@, "*/wip"@, "*/draft"@]
}

/// Age in days from which a branch is stale, by default.
pub fn default_days() -> (r: u32)
    ensures
        r == 30,
{
    DEFAULT_DAYS
}

/// `main`, `master`, `develop`, `staging`, `production`.
pub fn default_protected_branches() -> (r: Vec<String>)
    ensures
        views(r@) == default_protected_spec(),
{
    let r = vec![
        owned("main"),
        owned("master"),
        owned("develop"),
        owned("staging"),
        owned("production"),
    ];
    assert(views(r@) =~= default_protected_spec());
    r
}

/// `wip/*`, `draft/*`, `*/wip`, `*/draft`.
pub fn default_exclude_patterns() -> (r: Vec<String>)
    ensures
        views(r@) == default_exclude_spec(),
{
    let r = vec![owned("wip/*"), owned("draft/*"), owned("*/wip"), owned("*/draft")];
    assert(views(r@) =~= default_exclude_spec());
    r
}

impl Default for GeneralConfig {
    fn default() -> (r: Self)
        ensures
            r.default_days == 30,
    {
        GeneralConfig { default_days: default_days() }
    }
}

impl Default for BranchesConfig {
    fn default() -> (r: Self)
        ensures
            r.default_branch is None,
            views(r.protected@) == default_protected_spec(),
            views(r.exclude_patterns@) == default_exclude_spec(),
    {
        BranchesConfig {
            default_branch: None,
            protected: default_protected_branches(),
            exclude_patterns: default_exclude_patterns(),
        }
    }
}

impl Default for Config {
    fn default() -> (r: Self)
        ensures
            r.general.default_days == 30,
            r.branches.default_branch is None,
            views(r.branches.protected@) == default_protected_spec(),
            views(r.branches.exclude_patterns@) == default_exclude_spec(),
    {
        Config { general: GeneralConfig::default(), branches: BranchesConfig::default() }
    }
}

/// Relies on `dirs::home_dir`: the current user's home directory, when one
/// can be found (on Unix, `$HOME` or the password database).
#[verifier::external_body]
fn home_dir() -> Option<String> {
    match dirs::home_dir() {
        Some(p) => p.to_str().map(|s| s.to_string()),
        None => None,
    }
}

/// Keys of the age threshold.
pub open spec fn is_days_key(k: Seq<char>) -> bool {
    k == "general.default-days"@ || k == "default-days"@ || k == "days"@
}

/// Keys of the protected names.
pub open spec fn is_protected_key(k: Seq<char>) -> bool {
    k == "branches.protected"@ || k == "protected-branches"@
}

/// Keys of the default branch.
pub open spec fn is_default_branch_key(k: Seq<char>) -> bool {
    k == "branches.default-branch"@ || k == "default-branch"@
}

/// Keys of the exclude patterns.
pub open spec fn is_exclude_key(k: Seq<char>) -> bool {
    k == "branches.exclude-patterns"@ || k == "exclude-patterns"@
}

/// No key names two settings.
proof fn lemma_keys_distinct(k: Seq<char>)
    ensures
        is_days_key(k) ==> !is_protected_key(k) && !is_default_branch_key(k) && !is_exclude_key(k),
        is_protected_key(k) ==> !is_default_branch_key(k) && !is_exclude_key(k),
        is_default_branch_key(k) ==> !is_exclude_key(k),
{
    reveal_strlit("general.default-days");
    reveal_strlit("default-days");
    reveal_strlit("days");
    reveal_strlit("branches.protected");
    reveal_strlit("protected-branches");
    reveal_strlit("branches.default-branch");
    reveal_strlit("default-branch");
    reveal_strlit("branches.exclude-patterns");
    reveal_strlit("exclude-patterns");
    assert("general.default-days"@.len() == 20);
    assert("default-days"@.len() == 12);
    assert("days"@.len() == 4);
    assert("branches.protected"@.len() == 18);
    assert("protected-branches"@.len() == 18);
    assert("branches.default-branch"@.len() == 23);
    assert("default-branch"@.len() == 14);
    assert("branches.exclude-patterns"@.len() == 25);
    assert("exclude-patterns"@.len() == 16);
}

/// `v` with its empty texts left out.
fn without_empty(v: &[String]) -> (r: Vec<String>)
    ensures
        views(r@) == nonempty_only(views(v@)),
{
    let mut r: Vec<String> = Vec::new();
    let mut i: usize = 0;
    while i < v.len()
        invariant
            i <= v@.len(),
            views(r@) == nonempty_only(views(v@.subrange(0, i as int))),
        decreases v.len() - i,
    {
        let ghost before = r@;
        assert(views(v@.subrange(0, i + 1)).drop_last() =~= views(v@.subrange(0, i as int)));
        assert(views(v@.subrange(0, i + 1)).last() == v@[i as int]@);
        if v[i].unicode_len() > 0 {
            r.push(v[i].clone());
            assert(views(r@) =~= views(before).push(v@[i as int]@));
        }
        i = i + 1;
    }
    assert(v@.subrange(0, v@.len() as int) =~= v@);
    r
}

impl Config {
    /// `<home>/.deadbranch`.
    pub open spec fn deadbranch_dir_spec(home: Seq<char>) -> Seq<char> {
        join_path(home, ".deadbranch"@)
    }

    /// `<home>/.deadbranch/config.toml`.
    pub open spec fn config_path_spec(home: Seq<char>) -> Seq<char> {
        join_path(Self::deadbranch_dir_spec(home), "config.toml"@)
    }

    /// `<home>/.deadbranch/backups`.
    pub open spec fn backups_dir_spec(home: Seq<char>) -> Seq<char> {
        join_path(Self::deadbranch_dir_spec(home), "backups"@)
    }

    /// `<home>/.deadbranch/backups/<repo>`.
    pub open spec fn repo_backup_dir_spec(home: Seq<char>, repo: Seq<char>) -> Seq<char> {
        join_path(Self::backups_dir_spec(home), repo)
    }

    /// The tool's directory under `home`.
    pub fn deadbranch_dir_in(home: &str) -> (r: String)
        ensures
            r@ == Self::deadbranch_dir_spec(home@),
    {
        join(home, ".deadbranch")
    }

    /// The settings file under `home`.
    pub fn config_path_in(home: &str) -> (r: String)
        ensures
            r@ == Self::config_path_spec(home@),
    {
        let d = Self::deadbranch_dir_in(home);
        join(d.as_str(), "config.toml")
    }

    /// The directory of all manifests under `home`.
    pub fn backups_dir_in(home: &str) -> (r: String)
        ensures
            r@ == Self::backups_dir_spec(home@),
    {
        let d = Self::deadbranch_dir_in(home);
        join(d.as_str(), "backups")
    }

    /// The directory of the manifests of `repo_name` under `home`.
    pub fn repo_backup_dir_in(home: &str, repo_name: &str) -> (r: String)
        ensures
            r@ == Self::repo_backup_dir_spec(home@, repo_name@),
    {
        let d = Self::backups_dir_in(home);
        join(d.as_str(), repo_name)
    }

    /// The tool's directory, `~/.deadbranch`.
    pub fn deadbranch_dir() -> (r: Result<String, ConfigError>)
        ensures
            r matches Ok(p) ==> exists|h: Seq<char>| p@ == Self::deadbranch_dir_spec(h),
            r matches Err(e) ==> e is NoHomeDirectory,
    {
        match home_dir() {
            Some(h) => Ok(Self::deadbranch_dir_in(h.as_str())),
            None => Err(ConfigError::NoHomeDirectory),
        }
    }

    /// The settings file, `~/.deadbranch/config.toml`.
    pub fn config_path() -> (r: Result<String, ConfigError>)
        ensures
            r matches Ok(p) ==> exists|h: Seq<char>| p@ == Self::config_path_spec(h),
            r matches Err(e) ==> e is NoHomeDirectory,
    {
        match home_dir() {
            Some(h) => Ok(Self::config_path_in(h.as_str())),
            None => Err(ConfigError::NoHomeDirectory),
        }
    }

    /// The directory of all manifests, `~/.deadbranch/backups`.
    pub fn backups_dir() -> (r: Result<String, ConfigError>)
        ensures
            r matches Ok(p) ==> exists|h: Seq<char>| p@ == Self::backups_dir_spec(h),
            r matches Err(e) ==> e is NoHomeDirectory,
    {
        match home_dir() {
            Some(h) => Ok(Self::backups_dir_in(h.as_str())),
            None => Err(ConfigError::NoHomeDirectory),
        }
    }

    /// The directory of the manifests of `repo_name`,
    /// `~/.deadbranch/backups/<repo_name>`.
    pub fn repo_backup_dir(repo_name: &str) -> (r: Result<String, ConfigError>)
        ensures
            r matches Ok(p) ==> exists|h: Seq<char>| p@ == Self::repo_backup_dir_spec(h, repo_name@),
            r matches Err(e) ==> e is NoHomeDirectory,
    {
        match home_dir() {
            Some(h) => Ok(Self::repo_backup_dir_in(h.as_str(), repo_name)),
            None => Err(ConfigError::NoHomeDirectory),
        }
    }

    /// Sets the setting named by `key`, in flat (`default-days`) or dotted
    /// (`general.default-days`) form. The age and the default branch take one
    /// value, an empty default branch clearing it; the lists take any number,
    /// empty values left out. On an error nothing changes.
    pub fn set(&mut self, key: &str, values: &[String]) -> (r: Result<(), ConfigError>)
        ensures
            is_days_key(key@) ==> {
                if values@.len() != 1 {
                    r matches Err(ConfigError::ExpectsSingleValue { key: k }) && k@ == "default-days"@
                } else {
                    match parse_u32_spec(values@[0]@) {
                        Some(n) => r is Ok && final(self).general.default_days == n,
                        None => r matches Err(ConfigError::InvalidNumber { value })
                            && value@ == values@[0]@,
                    }
                }
            },
            is_protected_key(key@) ==> r is Ok && views(final(self).branches.protected@)
                == nonempty_only(views(values@)),
            is_default_branch_key(key@) ==> {
                if values@.len() != 1 {
                    r matches Err(ConfigError::ExpectsSingleValue { key: k }) && k@ == "default-branch"@
                } else {
                    r is Ok && if values@[0]@.len() == 0 {
                        final(self).branches.default_branch is None
                    } else {
                        final(self).branches.default_branch matches Some(b) && b@ == values@[0]@
                    }
                }
            },
            is_exclude_key(key@) ==> r is Ok && views(final(self).branches.exclude_patterns@)
                == nonempty_only(views(values@)),
            !is_days_key(key@) && !is_protected_key(key@) && !is_default_branch_key(key@)
                && !is_exclude_key(key@) ==> (r matches Err(ConfigError::UnknownKey { key: k })
                && k@ == key@),
            r is Err ==> *final(self) == *old(self),
            !is_days_key(key@) ==> final(self).general == old(self).general,
            !is_protected_key(key@) ==> final(self).branches.protected == old(
                self,
            ).branches.protected,
            !is_default_branch_key(key@) ==> final(self).branches.default_branch == old(
                self,
            ).branches.default_branch,
            !is_exclude_key(key@) ==> final(self).branches.exclude_patterns == old(
                self,
            ).branches.exclude_patterns,
    {
        proof {
            lemma_keys_distinct(key@);
        }
        if same(key, "general.default-days") || same(key, "default-days") || same(key, "days") {
            if values.len() != 1 {
                return Err(ConfigError::ExpectsSingleValue { key: owned("default-days") });
            }
            match parse_u32(values[0].as_str()) {
                Some(n) => {
                    self.general.default_days = n;
                    Ok(())
                },
                None => Err(ConfigError::InvalidNumber { value: values[0].clone() }),
            }
        } else if same(key, "branches.protected") || same(key, "protected-branches") {
            self.branches.protected = without_empty(values);
            Ok(())
        } else if same(key, "branches.default-branch") || same(key, "default-branch") {
            if values.len() != 1 {
                return Err(ConfigError::ExpectsSingleValue { key: owned("default-branch") });
            }
            self.branches.default_branch = if values[0].unicode_len() == 0 {
                None
            } else {
                Some(values[0].clone())
            };
            Ok(())
        } else if same(key, "branches.exclude-patterns") || same(key, "exclude-patterns") {
            self.branches.exclude_patterns = without_empty(values);
            Ok(())
        } else {
            Err(ConfigError::UnknownKey { key: owned(key) })
        }
    }
}

} // verus!
