//! The index of manifests: what each one says of itself, the order in which
//! they are listed, which of them a retention limit removes, and the names
//! they are written under.

use vstd::prelude::*;
use vstd::string::*;

use crate::clean::trim;
use crate::config::{join, join_path};
use crate::manifest::{lines_of, split_lines};
use crate::text::{
    cat, chars_of, decimal, has_prefix, owned, parse_u32, parse_u32_spec, starts_with,
};

verus! {

broadcast use vstd::seq_lib::group_to_multiset_ensures;

/// The instant, in seconds since the Unix epoch, that the RFC 3339
/// date-time `s` names, if it is one.
pub uninterp spec fn rfc3339_seconds(s: Seq<char>) -> Option<i64>;

/// The instant, in seconds since the Unix epoch, of the given UTC calendar
/// date and time of day, if they name one.
pub uninterp spec fn utc_civil_seconds(
    year: i32,
    month: u32,
    day: u32,
    hour: u32,
    minute: u32,
    second: u32,
) -> Option<i64>;

/// The UTC instant `secs` written `YYYYMMDD-HHMMSS`, if it is in range.
pub uninterp spec fn utc_file_stamp(secs: i64) -> Option<Seq<char>>;

/// The UTC instant `secs` written in RFC 3339, if it is in range.
pub uninterp spec fn utc_rfc3339(secs: i64) -> Option<Seq<char>>;

/// Relies on `chrono::DateTime::parse_from_rfc3339` and `timestamp`: the
/// instant that an RFC 3339 text names, or `None` where it names none.
#[verifier::external_body]
fn parse_rfc3339(s: &str) -> (r: Option<i64>)
    ensures
        r == rfc3339_seconds(s@),
{
    match chrono::DateTime::parse_from_rfc3339(s) {
        Ok(d) => Some(d.timestamp()),
        Err(_) => None,
    }
}

/// Relies on `chrono::NaiveDate::from_ymd_opt`, `and_hms_opt`, `and_utc`
/// and `timestamp`: the instant of a UTC date and time, or `None` where
/// they name none (e.g. month 13, February 30, hour 24).
#[verifier::external_body]
fn civil_seconds(year: i32, month: u32, day: u32, hour: u32, minute: u32, second: u32) -> (r:
    Option<i64>)
    ensures
        r == utc_civil_seconds(year, month, day, hour, minute, second),
{
    match chrono::NaiveDate::from_ymd_opt(year, month, day) {
        Some(date) => match date.and_hms_opt(hour, minute, second) {
            Some(t) => Some(t.and_utc().timestamp()),
            None => None,
        },
        None => None,
    }
}

/// Relies on `chrono::DateTime::from_timestamp` and `format`: the instant
/// written `%Y%m%d-%H%M%S` in UTC, or `None` where it is out of range.
#[verifier::external_body]
fn file_stamp(secs: i64) -> (r: Option<String>)
    ensures
        r matches Some(s) ==> utc_file_stamp(secs) == Some(s@),
        r is None ==> utc_file_stamp(secs) is None,
{
    match chrono::DateTime::from_timestamp(secs, 0) {
        Some(d) => Some(d.format("%Y%m%d-%H%M%S").to_string()),
        None => None,
    }
}

/// Relies on `chrono::DateTime::from_timestamp` and `to_rfc3339`: the
/// instant written in RFC 3339 (UTC), or `None` where it is out of range.
#[verifier::external_body]
fn rfc3339_text(secs: i64) -> (r: Option<String>)
    ensures
        r matches Some(s) ==> utc_rfc3339(secs) == Some(s@),
        r is None ==> utc_rfc3339(secs) is None,
{
    match chrono::DateTime::from_timestamp(secs, 0) {
        Some(d) => Some(d.to_rfc3339()),
        None => None,
    }
}

/// The file name of the manifest made at `now`: `backup-YYYYMMDD-HHMMSS.txt`.
pub fn manifest_file_name(now: i64) -> (r: Option<String>)
    ensures
        r is Some <==> utc_file_stamp(now) is Some,
        r matches Some(n) ==> n@ == "backup-"@ + utc_file_stamp(now)->0 + ".txt"@,
{
    match file_stamp(now) {
        Some(s) => {
            let a = cat("backup-", s.as_str());
            Some(cat(a.as_str(), ".txt"))
        },
        None => None,
    }
}

/// The path of the manifest made at `now` in directory `dir`.
pub fn manifest_path(dir: &str, now: i64) -> (r: Option<String>)
    ensures
        r is Some <==> utc_file_stamp(now) is Some,
        r matches Some(p) ==> p@ == join_path(
            dir@,
            "backup-"@ + utc_file_stamp(now)->0 + ".txt"@,
        ),
{
    match manifest_file_name(now) {
        Some(n) => Some(join(dir, n.as_str())),
        None => None,
    }
}

/// When a manifest made at `now` says it was created.
pub fn created_stamp(now: i64) -> (r: Option<String>)
    ensures
        r is Some <==> utc_rfc3339(now) is Some,
        r matches Some(s) ==> utc_rfc3339(now) == Some(s@),
{
    rfc3339_text(now)
}

/// A manifest's file name: `backup-` first, `.txt` last.
pub open spec fn is_manifest_name(n: Seq<char>) -> bool {
    has_prefix(n, "backup-"@) && n.len() >= 4 && n.subrange(n.len() - 4, n.len() as int)
        == ".txt"@
}

/// Whether file name `name` is that of a manifest (`backup-*.txt`).
pub fn is_manifest_file_name(name: &str) -> (r: bool)
    ensures
        r == is_manifest_name(name@),
{
    proof {
        reveal_strlit(".txt");
    }
    if !starts_with(name, "backup-") {
        return false;
    }
    let n = name.unicode_len();
    if n < 4 {
        return false;
    }
    let tail = crate::text::drop_chars(name, n - 4);
    crate::text::same(tail, ".txt")
}

/// The last part of path `p`, after its last `/`.
pub open spec fn file_name_spec(p: Seq<char>) -> Seq<char>
    decreases p.len(),
{
    if p.len() == 0 {
        p
    } else if p.last() == '/' {
        seq![]
    } else {
        file_name_spec(p.drop_last()).push(p.last())
    }
}

/// File name `n` without its extension (the part from its last `.`, unless
/// that `.` begins the name).
pub open spec fn stem_spec(n: Seq<char>) -> Seq<char> {
    if exists|k: int| 0 < k < n.len() && n[k] == '.' {
        let k = choose|k: int|
            0 < k < n.len() && n[k] == '.' && forall|j: int| k < j < n.len() ==> n[j] != '.';
        n.subrange(0, k)
    } else {
        n
    }
}

/// The instant that a timestamp `YYYYMMDD-HHMMSS` names.
pub open spec fn stamp_seconds(t: Seq<char>) -> Option<i64> {
    if t.len() == 15 && t[8] == '-' && (forall|j: int| 0 <= j < 15 && j != 8 ==> t[j] != '-') {
        match (
            parse_u32_spec(t.subrange(0, 4)),
            parse_u32_spec(t.subrange(4, 6)),
            parse_u32_spec(t.subrange(6, 8)),
            parse_u32_spec(t.subrange(9, 11)),
            parse_u32_spec(t.subrange(11, 13)),
            parse_u32_spec(t.subrange(13, 15)),
        ) {
            (Some(y), Some(mo), Some(d), Some(h), Some(mi), Some(s)) => utc_civil_seconds(
                y as i32,
                mo,
                d,
                h,
                mi,
                s,
            ),
            _ => None,
        }
    } else {
        None
    }
}

/// The instant that the name of manifest `path` gives:
/// `backup-YYYYMMDD-HHMMSS` followed by an extension.
pub open spec fn filename_seconds(path: Seq<char>) -> Option<i64> {
    let st = stem_spec(file_name_spec(path));
    if has_prefix(st, "backup-"@) {
        stamp_seconds(st.subrange(7, st.len() as int))
    } else {
        None
    }
}

/// The last part of path `p`.
pub fn file_name_of(p: &str) -> (r: &str)
    ensures
        r@ == file_name_spec(p@),
{
    let c = chars_of(p);
    let mut k: usize = c.len();
    assert(file_name_spec(p@) == file_name_spec(c@.subrange(0, c.len() as int)) + c@.subrange(
        c.len() as int,
        c.len() as int,
    )) by {
        assert(c@.subrange(0, c.len() as int) =~= c@);
        assert(file_name_spec(c@) + Seq::<char>::empty() =~= file_name_spec(c@));
    }
    while k > 0 && c[k - 1] != '/'
        invariant
            c@ == p@,
            k <= c.len(),
            file_name_spec(p@) == file_name_spec(c@.subrange(0, k as int)) + c@.subrange(
                k as int,
                c.len() as int,
            ),
        decreases k,
    {
        let ghost pre = c@.subrange(0, k as int);
        assert(pre.drop_last() =~= c@.subrange(0, k - 1));
        assert(pre.last() == c@[k - 1]);
        assert(file_name_spec(c@.subrange(0, k - 1)).push(c@[k - 1]) + c@.subrange(
            k as int,
            c.len() as int,
        ) =~= file_name_spec(c@.subrange(0, k - 1)) + c@.subrange(k - 1, c.len() as int));
        k = k - 1;
    }
    if k > 0 {
        assert(c@.subrange(0, k as int).last() == '/');
    }
    assert(file_name_spec(c@.subrange(0, k as int)) =~= Seq::<char>::empty());
    assert(Seq::<char>::empty() + c@.subrange(k as int, c.len() as int) =~= c@.subrange(
        k as int,
        c.len() as int,
    ));
    p.substring_char(k, c.len())
}

/// File name `n` without its extension.
pub fn stem_of(n: &str) -> (r: &str)
    ensures
        r@ == stem_spec(n@),
{
    let c = chars_of(n);
    let mut k: usize = c.len();
    while k > 1 && c[k - 1] != '.'
        invariant
            c@ == n@,
            k <= c.len(),
            forall|j: int| k <= j < c.len() ==> c@[j] != '.',
        decreases k,
    {
        k = k - 1;
    }
    if k > 1 {
        let dot = k - 1;
        assert(0 < dot < n@.len() && n@[dot as int] == '.');
        let ghost chosen = choose|m: int|
            0 < m < n@.len() && n@[m] == '.' && forall|j: int| m < j < n@.len() ==> n@[j] != '.';
        assert(chosen == dot) by {
            if chosen < dot {
                assert(n@[dot as int] != '.');
            } else if chosen > dot {
                assert(n@[chosen] != '.');
            }
        }
        n.substring_char(0, dot)
    } else {
        assert forall|m: int| 0 < m < n@.len() implies n@[m] != '.' by {
            if m >= k {
            } else {
                assert(m == 0 || k <= 1);
            }
        }
        n
    }
}

/// The instant that the name of manifest `path` gives, as
/// `backup-YYYYMMDD-HHMMSS.txt` does.
pub fn parse_timestamp_from_filename(path: &str) -> (r: Option<i64>)
    ensures
        r == filename_seconds(path@),
{
    proof {
        reveal_strlit("backup-");
    }
    let st = stem_of(file_name_of(path));
    if !starts_with(st, "backup-") {
        return None;
    }
    let t = crate::text::drop_chars(st, 7);
    let c = chars_of(t);
    if c.len() != 15 || c[8] != '-' {
        return None;
    }
    let mut j: usize = 0;
    while j < 15
        invariant
            c@ == t@,
            c.len() == 15,
            st@ == stem_spec(file_name_spec(path@)),
            has_prefix(st@, "backup-"@),
            "backup-"@.len() == 7,
            t@ == st@.subrange(7, st@.len() as int),
            j <= 15,
            forall|m: int| 0 <= m < j && m != 8 ==> c@[m] != '-',
        decreases 15 - j,
    {
        if j != 8 && c[j] == '-' {
            assert(t@[j as int] == '-');
            return None;
        }
        j = j + 1;
    }
    let y = parse_u32(t.substring_char(0, 4));
    let mo = parse_u32(t.substring_char(4, 6));
    let d = parse_u32(t.substring_char(6, 8));
    let h = parse_u32(t.substring_char(9, 11));
    let mi = parse_u32(t.substring_char(11, 13));
    let s = parse_u32(t.substring_char(13, 15));
    match (y, mo, d, h, mi, s) {
        (Some(y), Some(mo), Some(d), Some(h), Some(mi), Some(s)) => civil_seconds(
            y as i32,
            mo,
            d,
            h,
            mi,
            s,
        ),
        _ => None,
    }
}

/// What manifest lines say of when it was made: the last `# Created:` line
/// whose value (trimmed) is an RFC 3339 date-time.
pub open spec fn created_of(ls: Seq<Seq<char>>) -> Option<i64>
    decreases ls.len(),
{
    if ls.len() == 0 {
        None
    } else {
        let l = ls.last();
        if has_prefix(l, "# Created:"@) && rfc3339_seconds(trim(l.subrange(10, l.len() as int)))
            is Some {
            rfc3339_seconds(trim(l.subrange(10, l.len() as int)))
        } else {
            created_of(ls.drop_last())
        }
    }
}

/// How many lines begin with `git branch`.
pub open spec fn command_count(ls: Seq<Seq<char>>) -> nat
    decreases ls.len(),
{
    if ls.len() == 0 {
        0
    } else {
        command_count(ls.drop_last()) + if has_prefix(ls.last(), "git branch"@) {
            1nat
        } else {
            0nat
        }
    }
}

/// A manifest as listed.
#[derive(Debug, Clone)]
pub struct BackupInfo {
    /// Where it is.
    pub path: String,
    /// The repository it belongs to.
    pub repo_name: String,
    /// When it was made, in seconds since the Unix epoch.
    pub timestamp: i64,
    /// How many branches it records.
    pub branch_count: usize,
}

impl BackupInfo {
    /// What manifest `path` of `repo_name`, holding `content`, says of
    /// itself. Its instant is the one of its `# Created:` header, else the
    /// one its file name gives, else `now`.
    pub fn from_content(path: &str, repo_name: &str, content: &str, now: i64) -> (r: BackupInfo)
        ensures
            r.path@ == path@,
            r.repo_name@ == repo_name@,
            r.branch_count == command_count(lines_of(content@)),
            r.timestamp == match created_of(lines_of(content@)) {
                Some(t) => t,
                None => match filename_seconds(path@) {
                    Some(t) => t,
                    None => now,
                },
            },
    {
        proof {
            reveal_strlit("# Created:");
            reveal_strlit("git branch");
        }
        let lines = split_lines(content);
        let ghost ls = lines@.map_values(|l: String| l@);
        let mut created: Option<i64> = None;
        let mut count: usize = 0;
        let mut i: usize = 0;
        assert(ls.subrange(0, 0) =~= Seq::<Seq<char>>::empty());
        while i < lines.len()
            invariant
                ls == lines@.map_values(|l: String| l@),
                i <= lines@.len(),
                created == created_of(ls.subrange(0, i as int)),
                count == command_count(ls.subrange(0, i as int)),
                count <= i,
            decreases lines.len() - i,
        {
            let line = lines[i].as_str();
            proof {
                reveal_strlit("# Created:");
                reveal_strlit("git branch");
            }
            let ghost pre = ls.subrange(0, i + 1);
            assert(pre.drop_last() =~= ls.subrange(0, i as int));
            assert(pre.last() == line@);
            if starts_with(line, "# Created:") {
                let rest = crate::text::drop_chars(line, 10);
                let v = crate::clean::trim_str(rest);
                match parse_rfc3339(v) {
                    Some(t) => {
                        created = Some(t);
                    },
                    None => {},
                }
            }
            if starts_with(line, "git branch") {
                count = count + 1;
            }
            i = i + 1;
        }
        assert(ls.subrange(0, lines@.len() as int) =~= ls);
        let timestamp = match created {
            Some(t) => t,
            None => match parse_timestamp_from_filename(path) {
                Some(t) => t,
                None => now,
            },
        };
        BackupInfo {
            path: owned(path),
            repo_name: owned(repo_name),
            timestamp,
            branch_count: count,
        }
    }

    /// The file name of the manifest, without its directory.
    pub fn filename(&self) -> (r: String)
        ensures
            r@ == file_name_spec(self.path@),
    {
        owned(file_name_of(self.path.as_str()))
    }
}

/// `v` lists the newest manifest first.
pub open spec fn newest_first(v: Seq<BackupInfo>) -> bool {
    forall|i: int, j: int| 0 <= i < j < v.len() ==> #[trigger] v[i].timestamp >= #[trigger] v[j].timestamp
}

/// Puts the manifests newest first.
pub fn sort_newest_first(backups: &mut Vec<BackupInfo>)
    ensures
        final(backups)@.to_multiset() == old(backups)@.to_multiset(),
        newest_first(final(backups)@),
{
    let ghost all = backups@.to_multiset();
    let mut out: Vec<BackupInfo> = Vec::new();
    while backups.len() > 0
        invariant
            out@.to_multiset().add(backups@.to_multiset()) == all,
            newest_first(out@),
            forall|i: int, k: int|
                0 <= i < out@.len() && 0 <= k < backups@.len() ==> #[trigger] out@[i].timestamp
                    >= #[trigger] backups@[k].timestamp,
        decreases backups.len(),
    {
        let mut best: usize = 0;
        let mut k: usize = 1;
        while k < backups.len()
            invariant
                best < k <= backups@.len(),
                forall|m: int| 0 <= m < k ==> backups@[best as int].timestamp >= #[trigger] backups@[m].timestamp,
            decreases backups.len() - k,
        {
            if backups[k].timestamp > backups[best].timestamp {
                best = k;
            }
            k = k + 1;
        }
        let ghost before = backups@;
        let b = backups.remove(best);
        proof {
            assert(before.contains(b));
            assert forall|m: int| 0 <= m < backups@.len() implies b.timestamp >= #[trigger] backups@[m].timestamp by {
                if m < best {
                    assert(backups@[m] == before[m]);
                } else {
                    assert(backups@[m] == before[m + 1]);
                }
            }
            assert forall|i: int, m: int|
                0 <= i < out@.len() && 0 <= m < backups@.len() implies #[trigger] out@[i].timestamp
                >= #[trigger] backups@[m].timestamp by {
                if m < best {
                    assert(backups@[m] == before[m]);
                } else {
                    assert(backups@[m] == before[m + 1]);
                }
            }
        }
        let ghost out_before = out@;
        out.push(b);
        proof {
            assert(out@ == out_before.push(b));
            assert(out@.to_multiset().add(backups@.to_multiset()) =~= all);
        }
    }
    assert(out@.to_multiset() =~= all);
    *backups = out;
}

/// The manifests that a limit of `keep` removes: all but the `keep` first
/// of a newest-first list.
pub fn backups_to_clean(backups: Vec<BackupInfo>, keep: usize) -> (r: Vec<BackupInfo>)
    ensures
        r@ == backups@.subrange(
            if keep < backups@.len() {
                keep as int
            } else {
                backups@.len() as int
            },
            backups@.len() as int,
        ),
{
    let mut b = backups;
    if keep >= b.len() {
        return Vec::new();
    }
    b.split_off(keep)
}

/// How long before `now` a manifest made at `then` was made: whole days,
/// else whole hours, else whole minutes, else "just now".
pub open spec fn ago_text(now: int, then: int) -> Seq<char> {
    let d = now - then;
    if d / 86400 > 0 {
        decimal((d / 86400) as nat) + (if d / 86400 == 1 {
            " day ago"@
        } else {
            " days ago"@
        })
    } else if d / 3600 > 0 {
        decimal((d / 3600) as nat) + (if d / 3600 == 1 {
            " hour ago"@
        } else {
            " hours ago"@
        })
    } else if d / 60 > 0 {
        decimal((d / 60) as nat) + (if d / 60 == 1 {
            " minute ago"@
        } else {
            " minutes ago"@
        })
    } else {
        "just now"@
    }
}

impl BackupInfo {
    /// How long before `now` the manifest was made, e.g. "2 hours ago".
    pub fn format_age_at(&self, now: i64) -> (r: String)
        ensures
            r@ == ago_text(now as int, self.timestamp as int),
    {
        let d: i128 = now as i128 - self.timestamp as i128;
        if d <= 0 {
            return owned("just now");
        }
        let days = d / 86400;
        let hours = d / 3600;
        let minutes = d / 60;
        if days > 0 {
            let n = crate::text::decimal_string(days as u64);
            cat(n.as_str(), if days == 1 { " day ago" } else { " days ago" })
        } else if hours > 0 {
            let n = crate::text::decimal_string(hours as u64);
            cat(n.as_str(), if hours == 1 { " hour ago" } else { " hours ago" })
        } else if minutes > 0 {
            let n = crate::text::decimal_string(minutes as u64);
            cat(n.as_str(), if minutes == 1 { " minute ago" } else { " minutes ago" })
        } else {
            owned("just now")
        }
    }
}

} // verus!
