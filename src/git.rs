//! Reading what the version-control tool prints: ref listings, the list of
//! merged branches, the default branch; and turning a listed ref into a
//! [`Branch`]. Running the tool is left to the caller.

use vstd::prelude::*;
use vstd::string::*;

use crate::branch::Branch;
use crate::clean::{trim, trim_str};
use crate::error::DeadbranchError;
use crate::glob::sfx;
use crate::manifest::{lines_of, split_lines};
use crate::text::{
    all_digits, cat, chars_of, digits_value, has_prefix, is_digit, owned, same, starts_with,
};

verus! {

/// `cur` followed by the pieces of `s` between `|` characters.
pub open spec fn pieces_acc(s: Seq<char>, cur: Seq<char>) -> Seq<Seq<char>>
    decreases s.len(),
{
    if s.len() == 0 {
        seq![cur]
    } else if s[0] == '|' {
        seq![cur] + pieces_acc(sfx(s, 1), seq![])
    } else {
        pieces_acc(sfx(s, 1), cur.push(s[0]))
    }
}

/// The pieces of `s` between `|` characters (what `str::split('|')` gives).
pub open spec fn pieces(s: Seq<char>) -> Seq<Seq<char>> {
    pieces_acc(s, seq![])
}

/// What `str::parse::<i64>` gives: an optional sign, then one or more decimal
/// digits whose value fits in 64 signed bits.
pub open spec fn parse_i64_spec(s: Seq<char>) -> Option<i64> {
    let neg = s.len() > 0 && s[0] == '-';
    let d = if s.len() > 0 && (s[0] == '-' || s[0] == '+') {
        s.subrange(1, s.len() as int)
    } else {
        s
    };
    if d.len() > 0 && all_digits(d) {
        if neg && digits_value(d) <= 0x8000_0000_0000_0000 {
            Some((-digits_value(d)) as i64)
        } else if !neg && digits_value(d) <= 0x7fff_ffff_ffff_ffff {
            Some(digits_value(d) as i64)
        } else {
            None
        }
    } else {
        None
    }
}

/// A ref as listed: `name|committer time|abbreviated id`.
#[derive(Debug)]
pub struct RefRecord {
    pub name: String,
    /// Committer time, in seconds since the Unix epoch; 0 where unreadable.
    pub timestamp: i64,
    pub sha: String,
}

/// The record that listing line `l` gives: exactly three pieces, the time
/// read as a number or taken as 0.
pub open spec fn record_of(l: Seq<char>) -> Option<(Seq<char>, i64, Seq<char>)> {
    let p = pieces(l);
    if p.len() == 3 {
        Some(
            (
                p[0],
                match parse_i64_spec(p[1]) {
                    Some(t) => t,
                    None => 0,
                },
                p[2],
            ),
        )
    } else {
        None
    }
}

/// Whether a listed ref is left out: the checked-out branch and the default
/// branch among local refs; `origin/HEAD` and the default branch among
/// remote ones.
pub open spec fn skipped_ref(name: Seq<char>, remote: bool, current: Seq<char>, default_branch: Seq<
    char,
>) -> bool {
    if remote {
        name == "origin/HEAD"@ || name == "origin/"@ + default_branch
    } else {
        name == current || name == default_branch
    }
}

/// The records of listing lines `ls`, in order, without the skipped ones.
pub open spec fn records_of(
    ls: Seq<Seq<char>>,
    remote: bool,
    current: Seq<char>,
    default_branch: Seq<char>,
) -> Seq<(Seq<char>, i64, Seq<char>)>
    decreases ls.len(),
{
    if ls.len() == 0 {
        seq![]
    } else {
        let prev = records_of(ls.drop_last(), remote, current, default_branch);
        match record_of(ls.last()) {
            Some(r) => if skipped_ref(r.0, remote, current, default_branch) {
                prev
            } else {
                prev.push(r)
            },
            None => prev,
        }
    }
}

/// The (name, time, id) triples of `v`.
pub open spec fn records_view(v: Seq<RefRecord>) -> Seq<(Seq<char>, i64, Seq<char>)> {
    v.map_values(|r: RefRecord| (r.name@, r.timestamp, r.sha@))
}

/// The pieces of `s` between `|` characters.
pub fn split_bars(s: &str) -> (r: Vec<String>)
    ensures
        r@.map_values(|p: String| p@) == pieces(s@),
{
    let c = chars_of(s);
    let mut out: Vec<String> = Vec::new();
    let mut start: usize = 0;
    let mut i: usize = 0;
    assert(sfx(c@, 0) =~= c@);
    assert(c@.subrange(0, 0) =~= Seq::<char>::empty());
    assert(out@.map_values(|p: String| p@) + pieces(s@) =~= pieces(s@));
    while i < c.len()
        invariant
            c@ == s@,
            start <= i <= c.len(),
            pieces(s@) == out@.map_values(|p: String| p@) + pieces_acc(
                sfx(c@, i as int),
                c@.subrange(start as int, i as int),
            ),
        decreases c.len() - i,
    {
        let ghost cur = c@.subrange(start as int, i as int);
        let ghost rest = sfx(c@, i as int);
        assert(sfx(rest, 1) =~= sfx(c@, i + 1));
        if c[i] == '|' {
            let piece = owned(s.substring_char(start, i));
            let ghost before = out@;
            out.push(piece);
            assert(out@.map_values(|p: String| p@) =~= before.map_values(|p: String| p@).push(cur));
            assert(c@.subrange(i + 1, i + 1) =~= Seq::<char>::empty());
            start = i + 1;
        } else {
            assert(cur.push(c@[i as int]) =~= c@.subrange(start as int, i + 1));
        }
        i = i + 1;
    }
    assert(sfx(c@, c.len() as int) =~= Seq::<char>::empty());
    let last = owned(s.substring_char(start, c.len()));
    let ghost before = out@;
    out.push(last);
    assert(out@.map_values(|p: String| p@) =~= before.map_values(|p: String| p@).push(
        c@.subrange(start as int, c.len() as int),
    ));
    out
}

fn digit_u64(c: char) -> (r: u64)
    requires
        is_digit(c),
    ensures
        r == crate::text::digit_value(c),
{
    if c == '1' {
        1
    } else if c == '2' {
        2
    } else if c == '3' {
        3
    } else if c == '4' {
        4
    } else if c == '5' {
        5
    } else if c == '6' {
        6
    } else if c == '7' {
        7
    } else if c == '8' {
        8
    } else if c == '9' {
        9
    } else {
        0
    }
}

/// Reads a decimal `i64` (see [`parse_i64_spec`]).
pub fn parse_i64(s: &str) -> (r: Option<i64>)
    ensures
        r == parse_i64_spec(s@),
{
    let c = chars_of(s);
    let neg = c.len() > 0 && c[0] == '-';
    let first: usize = if c.len() > 0 && (c[0] == '-' || c[0] == '+') {
        1
    } else {
        0
    };
    let ghost d = c@.subrange(first as int, c.len() as int);
    assert(d == if s@.len() > 0 && (s@[0] == '-' || s@[0] == '+') {
        s@.subrange(1, s@.len() as int)
    } else {
        s@
    }) by {
        if first == 0 {
            assert(d =~= s@);
        }
    }
    if first == c.len() {
        return None;
    }
    let limit: u64 = if neg {
        0x8000_0000_0000_0000
    } else {
        0x7fff_ffff_ffff_ffff
    };
    let mut value: u64 = 0;
    let mut over = false;
    let mut i = first;
    assert(d.subrange(0, 0) =~= Seq::<char>::empty());
    while i < c.len()
        invariant
            c@ == s@,
            first <= i <= c.len(),
            d == c@.subrange(first as int, c.len() as int),
            forall|j: int| first <= j < i ==> is_digit(#[trigger] c@[j]),
            !over ==> value == digits_value(d.subrange(0, i - first)) && value <= limit,
            over ==> digits_value(d.subrange(0, i - first)) > limit,
            limit <= 0x8000_0000_0000_0000,
            limit >= 0x7fff_ffff_ffff_ffff,
            neg == (s@.len() > 0 && s@[0] == '-'),
            limit == if neg {
                0x8000_0000_0000_0000u64
            } else {
                0x7fff_ffff_ffff_ffffu64
            },
            d == if s@.len() > 0 && (s@[0] == '-' || s@[0] == '+') {
                s@.subrange(1, s@.len() as int)
            } else {
                s@
            },
        decreases c.len() - i,
    {
        if !('0' <= c[i] && c[i] <= '9') {
            assert(!is_digit(d[i - first]));
            assert(!all_digits(d));
            return None;
        }
        let x = digit_u64(c[i]);
        let ghost pre = d.subrange(0, i - first);
        assert(d.subrange(0, i + 1 - first).drop_last() =~= pre);
        assert(d.subrange(0, i + 1 - first).last() == c@[i as int]);
        if over {
            assert(digits_value(pre) * 10 + x >= digits_value(pre)) by (nonlinear_arith);
        } else {
            if value > (limit - x) / 10 {
                assert(value * 10 + x > limit) by (nonlinear_arith)
                    requires
                        value > (limit - x) / 10,
                        x <= limit,
                ;
                over = true;
            } else {
                assert(value * 10 + x <= limit) by (nonlinear_arith)
                    requires
                        value <= (limit - x) / 10,
                        x <= limit,
                ;
                value = value * 10 + x;
            }
        }
        i = i + 1;
    }
    assert(d.subrange(0, c.len() - first) =~= d);
    assert forall|j: int| 0 <= j < d.len() implies is_digit(#[trigger] d[j]) by {
        assert(d[j] == c@[first + j]);
    }
    assert(all_digits(d));
    if over {
        None
    } else if neg {
        if value == 0x8000_0000_0000_0000 {
            Some(i64::MIN)
        } else {
            Some(0 - (value as i64))
        }
    } else {
        Some(value as i64)
    }
}

/// The refs that a `for-each-ref` listing (`name|time|id` per line) names,
/// in order, leaving out malformed lines and the refs that are never
/// candidates (see [`skipped_ref`]).
pub fn parse_ref_listing(listing: &str, remote: bool, current: &str, default_branch: &str) -> (r:
    Vec<RefRecord>)
    ensures
        records_view(r@) == records_of(lines_of(listing@), remote, current@, default_branch@),
{
    proof {
        reveal_strlit("origin/HEAD");
        reveal_strlit("origin/");
    }
    let lines = split_lines(listing);
    let ghost ls = lines@.map_values(|l: String| l@);
    let remote_default = cat("origin/", default_branch);
    let mut out: Vec<RefRecord> = Vec::new();
    let mut i: usize = 0;
    assert(ls.subrange(0, 0) =~= Seq::<Seq<char>>::empty());
    assert(records_view(out@) =~= Seq::<(Seq<char>, i64, Seq<char>)>::empty());
    while i < lines.len()
        invariant
            ls == lines@.map_values(|l: String| l@),
            i <= lines@.len(),
            remote_default@ == "origin/"@ + default_branch@,
            records_view(out@) == records_of(ls.subrange(0, i as int), remote, current@, default_branch@),
        decreases lines.len() - i,
    {
        let ghost pre = ls.subrange(0, i + 1);
        assert(pre.drop_last() =~= ls.subrange(0, i as int));
        assert(pre.last() == lines@[i as int]@);
        let mut parts = split_bars(lines[i].as_str());
        if parts.len() == 3 {
            let ghost pv = parts@.map_values(|p: String| p@);
            assert(pv[0] == parts@[0]@ && pv[1] == parts@[1]@ && pv[2] == parts@[2]@);
            let timestamp = match parse_i64(parts[1].as_str()) {
                Some(t) => t,
                None => 0,
            };
            let sha = parts.pop().unwrap();
            let _time = parts.pop().unwrap();
            let name = parts.pop().unwrap();
            let skip = if remote {
                same(name.as_str(), "origin/HEAD") || same(name.as_str(), remote_default.as_str())
            } else {
                same(name.as_str(), current) || same(name.as_str(), default_branch)
            };
            if !skip {
                let ghost before = out@;
                out.push(RefRecord { name, timestamp, sha });
                assert(records_view(out@) =~= records_view(before).push(
                    (pv[0], timestamp, pv[2]),
                ));
            }
        }
        i = i + 1;
    }
    assert(ls.subrange(0, lines@.len() as int) =~= ls);
    out
}

/// Whole days from `then` to `now`, rounded down.
pub open spec fn days_between(now: i64, then: i64) -> int {
    (now - then) / 86400
}

/// Whole days from `then` to `now`, rounded down.
pub fn age_in_days(now: i64, then: i64) -> (r: i64)
    ensures
        r == days_between(now, then),
{
    let d: i128 = now as i128 - then as i128;
    if d >= 0 {
        (d / 86400) as i64
    } else {
        let m: i128 = 0 - d - 1;
        let q: i128 = m / 86400;
        assert((-m - 1) / 86400 == -q - 1) by (nonlinear_arith)
            requires
                m >= 0,
                q == m / 86400,
        {
            assert(m == 86400 * q + m % 86400);
            assert(0 <= m % 86400 < 86400);
            let rr = 86399 - m % 86400;
            assert(-m - 1 == 86400 * (-q - 1) + rr);
        }
        (0 - q - 1) as i64
    }
}

impl Branch {
    /// The branch that listed ref `rec` stands for, seen at `now`.
    pub fn from_record(rec: RefRecord, is_merged: bool, is_remote: bool, now: i64) -> (r: Branch)
        ensures
            r.name == rec.name,
            r.last_commit_sha == rec.sha,
            r.last_commit_date == rec.timestamp,
            r.age_days == days_between(now, rec.timestamp),
            r.is_merged == is_merged,
            r.is_remote == is_remote,
    {
        let age_days = age_in_days(now, rec.timestamp);
        Branch {
            name: rec.name,
            age_days,
            is_merged,
            is_remote,
            last_commit_sha: rec.sha,
            last_commit_date: rec.timestamp,
        }
    }
}

/// `s` without any number of leading `* `.
pub open spec fn strip_stars(s: Seq<char>) -> Seq<char>
    decreases s.len(),
{
    if s.len() >= 2 && s[0] == '*' && s[1] == ' ' {
        strip_stars(s.subrange(2, s.len() as int))
    } else {
        s
    }
}

/// A line of `git branch --merged <base> -a` names `branch` (local, or
/// remote-tracking under `remotes/`).
pub open spec fn names_branch(line: Seq<char>, branch: Seq<char>) -> bool {
    let n = strip_stars(trim(line));
    n == branch || n == "remotes/"@ + branch
}

fn strip_stars_str(s: &str) -> (r: &str)
    ensures
        r@ == strip_stars(s@),
{
    let c = chars_of(s);
    let mut k: usize = 0;
    assert(sfx(c@, 0) =~= c@);
    while k < c.len() && c.len() - k >= 2 && c[k] == '*' && c[k + 1] == ' '
        invariant
            c@ == s@,
            k <= c.len(),
            strip_stars(s@) == strip_stars(sfx(c@, k as int)),
        decreases c.len() - k,
    {
        assert(sfx(c@, k as int).subrange(2, sfx(c@, k as int).len() as int) =~= sfx(c@, k + 2));
        k = k + 2;
    }
    s.substring_char(k, c.len())
}

/// Whether the output of `git branch --merged <base> -a` lists `branch`.
pub fn merged_listing_contains(listing: &str, branch: &str) -> (r: bool)
    ensures
        r == exists|i: int|
            0 <= i < lines_of(listing@).len() && names_branch(#[trigger] lines_of(listing@)[i], branch@),
{
    proof {
        reveal_strlit("remotes/");
    }
    let lines = split_lines(listing);
    let ghost ls = lines@.map_values(|l: String| l@);
    let remote_name = cat("remotes/", branch);
    let mut i: usize = 0;
    while i < lines.len()
        invariant
            ls == lines@.map_values(|l: String| l@),
            ls == lines_of(listing@),
            i <= lines@.len(),
            remote_name@ == "remotes/"@ + branch@,
            forall|k: int| 0 <= k < i ==> !names_branch(#[trigger] ls[k], branch@),
        decreases lines.len() - i,
    {
        assert(ls[i as int] == lines@[i as int]@);
        let n = strip_stars_str(trim_str(lines[i].as_str()));
        if same(n, branch) || same(n, remote_name.as_str()) {
            return true;
        }
        i = i + 1;
    }
    false
}

/// The default branch: the remote HEAD's target without `origin/` (or
/// `main` if it lacks that prefix), else `main` or `master` if such a local
/// branch exists, else `main`. `remote_head` is what
/// `git symbolic-ref refs/remotes/origin/HEAD --short` printed, where it
/// succeeded.
pub open spec fn default_branch_spec(
    remote_head: Option<Seq<char>>,
    main_exists: bool,
    master_exists: bool,
) -> Seq<char> {
    match remote_head {
        Some(h) => if has_prefix(trim(h), "origin/"@) {
            trim(h).subrange(7, trim(h).len() as int)
        } else {
            "main"@
        },
        None => if main_exists {
            "main"@
        } else if master_exists {
            "master"@
        } else {
            "main"@
        },
    }
}

/// The default branch (see [`default_branch_spec`]).
pub fn resolve_default_branch(remote_head: Option<&str>, main_exists: bool, master_exists: bool) -> (r:
    String)
    ensures
        r@ == default_branch_spec(
            match remote_head {
                Some(h) => Some(h@),
                None => None,
            },
            main_exists,
            master_exists,
        ),
{
    proof {
        reveal_strlit("origin/");
    }
    match remote_head {
        Some(h) => {
            let t = trim_str(h);
            if starts_with(t, "origin/") {
                owned(crate::text::drop_chars(t, 7))
            } else {
                owned("main")
            }
        },
        None => if main_exists {
            owned("main")
        } else if master_exists {
            owned("master")
        } else {
            owned("main")
        },
    }
}

/// `t` occurs somewhere in `s`.
pub open spec fn contains_text(s: Seq<char>, t: Seq<char>) -> bool {
    exists|i: int| crate::glob::occurs_at(s, t, i)
}

/// Whether `t` occurs in `s`.
pub fn contains_str(s: &str, t: &str) -> (r: bool)
    ensures
        r == contains_text(s@, t@),
{
    let a = chars_of(s);
    let b = chars_of(t);
    if b.len() == 0 {
        assert(crate::glob::occurs_at(s@, t@, 0)) by {
            assert(s@.subrange(0, 0) =~= t@);
        }
        return true;
    }
    match crate::glob::find_token(&a, 0, &b, 0, b.len()) {
        Some(i) => {
            assert(b@.subrange(0, b.len() as int) =~= t@);
            assert(crate::glob::occurs_at(s@, t@, i as int));
            true
        },
        None => {
            let ghost tok = b@.subrange(0 as int, 0 + b.len());
            assert(tok =~= t@);
            assert(a@ == s@);
            assert forall|i: int| !crate::glob::occurs_at(s@, t@, i) by {
                if 0 <= i <= a@.len() {
                    assert(!crate::glob::occurs_at(a@, tok, i));
                }
            }
            false
        },
    }
}

/// The error of a failed safe delete of local branch `branch`, from what
/// the tool printed: `UnmergedBranch` when it refused an unmerged branch,
/// otherwise a failure with the tool's message.
pub fn local_delete_error(branch: &str, stderr: &str) -> (r: DeadbranchError)
    ensures
        contains_text(stderr@, "not fully merged"@) ==> (r matches DeadbranchError::UnmergedBranch(b)
            && b@ == branch@),
        !contains_text(stderr@, "not fully merged"@) ==> (r matches DeadbranchError::GitCommandFailed(m)
            && m@ == "Failed to delete branch '"@ + branch@ + "': "@ + stderr@),
{
    if contains_str(stderr, "not fully merged") {
        DeadbranchError::UnmergedBranch(owned(branch))
    } else {
        let a = cat("Failed to delete branch '", branch);
        let b = cat(a.as_str(), "': ");
        DeadbranchError::GitCommandFailed(cat(b.as_str(), stderr))
    }
}

} // verus!
