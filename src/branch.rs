//! The branch record, the filter that decides which branches are stale, and
//! the order in which branches are shown and deleted.

use vstd::prelude::*;
use vstd::multiset::Multiset;
use vstd::string::*;

use crate::glob::{
    find_star, find_token, glob_spec, lemma_double_star, lemma_literal_prefix, lemma_no_star,
    lemma_star_last, lemma_star_token_absent, lemma_star_token_leftmost, occurs_at, region_eq,
    sfx, star_free,
};
use crate::text::{
    cat, chars_of, has_prefix, same, signed_decimal, signed_decimal_string, starts_with,
};

verus! {

broadcast use vstd::seq_lib::group_to_multiset_ensures;

/// The prefix that names a remote-tracking branch of `origin`.
pub open spec fn origin_prefix() -> Seq<char> {
    seq!['o', 'r', 'i', 'g', 'i', 'n', '/']
}

/// `name` without a leading `origin/`, if it has one.
pub open spec fn strip_origin(name: Seq<char>) -> Seq<char> {
    if has_prefix(name, origin_prefix()) {
        name.subrange(7, name.len() as int)
    } else {
        name
    }
}

/// Some entry of `names` holds exactly `s`.
pub open spec fn listed(names: Seq<String>, s: Seq<char>) -> bool {
    exists|i: int| 0 <= i < names.len() && #[trigger] names[i]@ == s
}

/// Some pattern of `patterns` matches `s`.
pub open spec fn any_pattern_matches(patterns: Seq<String>, s: Seq<char>) -> bool {
    exists|i: int| 0 <= i < patterns.len() && glob_spec(#[trigger] patterns[i]@, s)
}

/// How an age is shown: "1 day", otherwise the number and "days".
pub open spec fn age_text(days: int) -> Seq<char> {
    if days == 1 {
        seq!['1', ' ', 'd', 'a', 'y']
    } else {
        signed_decimal(days) + seq![' ', 'd', 'a', 'y', 's']
    }
}

/// A branch of the repository, local or remote-tracking, with what the
/// filter needs to know of it.
#[derive(Debug, Clone)]
pub struct Branch {
    /// Name as listed, e.g. `feature/old-api` or `origin/feature/old-api`.
    pub name: String,
    /// Whole days since the last commit.
    pub age_days: i64,
    /// Whether the tip is reachable from the default branch.
    pub is_merged: bool,
    /// Whether this is a remote-tracking branch of `origin`.
    pub is_remote: bool,
    /// Id of the last commit, as listed (usually abbreviated).
    pub last_commit_sha: String,
    /// Instant of the last commit, in seconds since the Unix epoch (UTC).
    pub last_commit_date: i64,
}

impl Branch {
    /// The name without the `origin/` of a remote-tracking branch.
    pub open spec fn short_spec(&self) -> Seq<char> {
        if self.is_remote {
            strip_origin(self.name@)
        } else {
            self.name@
        }
    }

    /// The name without the `origin/` of a remote-tracking branch.
    pub fn short_name(&self) -> (r: &str)
        ensures
            r@ == self.short_spec(),
    {
        if self.is_remote {
            strip_origin_str(self.name.as_str())
        } else {
            self.name.as_str()
        }
    }

    /// Whether the short name is one of `protected_branches`.
    pub fn is_protected(&self, protected_branches: &[String]) -> (r: bool)
        ensures
            r == listed(protected_branches@, self.short_spec()),
    {
        let name = self.short_name();
        let mut i: usize = 0;
        while i < protected_branches.len()
            invariant
                name@ == self.short_spec(),
                i <= protected_branches@.len(),
                forall|k: int| 0 <= k < i ==> #[trigger] protected_branches@[k]@ != name@,
            decreases protected_branches.len() - i,
        {
            if same(protected_branches[i].as_str(), name) {
                return true;
            }
            i = i + 1;
        }
        false
    }

    /// Whether some pattern of `patterns` matches the short name.
    pub fn matches_exclude_pattern(&self, patterns: &[String]) -> (r: bool)
        ensures
            r == any_pattern_matches(patterns@, self.short_spec()),
    {
        let name = self.short_name();
        let mut i: usize = 0;
        while i < patterns.len()
            invariant
                name@ == self.short_spec(),
                i <= patterns@.len(),
                forall|k: int| 0 <= k < i ==> !glob_spec(#[trigger] patterns@[k]@, name@),
            decreases patterns.len() - i,
        {
            if Branch::glob_match(patterns[i].as_str(), name) {
                return true;
            }
            i = i + 1;
        }
        false
    }

    /// Whether all of `text` matches `pattern`, where `*` stands for any run
    /// of characters and every other character for itself.
    ///
    /// The pattern is cut at each `*` into tokens: the first must begin the
    /// text, the last must end it, and each one between is taken at its
    /// leftmost place after the one before.
    pub fn glob_match(pattern: &str, text: &str) -> (r: bool)
        ensures
            r == glob_spec(pattern@, text@),
    {
        let p = chars_of(pattern);
        let t = chars_of(text);
        let first = find_star(&p, 0);
        if first == p.len() {
            proof {
                lemma_no_star(p@, t@);
            }
            return same(pattern, text);
        }
        proof {
            lemma_literal_prefix(p@, t@, first as int);
        }
        if t.len() < first || !region_eq(&t, 0, &p, 0, first) {
            return false;
        }
        let mut pi = first;
        let mut ti = first;
        loop
            invariant
                p@ == pattern@,
                t@ == text@,
                pi < p.len(),
                p@[pi as int] == '*',
                ti <= t.len(),
                glob_spec(pattern@, text@) == glob_spec(sfx(p@, pi as int), sfx(t@, ti as int)),
            decreases p.len() - pi,
        {
            let e = find_star(&p, pi + 1);
            let n = e - (pi + 1);
            let ghost ps = sfx(p@, pi as int);
            let ghost ts = sfx(t@, ti as int);
            assert(star_free(ps, 1, n + 1)) by {
                assert forall|j: int| 1 <= j < n + 1 implies ps[j] != '*' by {
                    assert(ps[j] == p@[pi + j]);
                }
            }
            assert(ps.subrange(1, n + 1) =~= p@.subrange(pi + 1, pi + 1 + n));
            if e == p.len() {
                proof {
                    lemma_star_last(ps, ts);
                    assert(sfx(ps, 1) =~= p@.subrange(pi + 1, pi + 1 + n));
                }
                if t.len() - ti < n {
                    return false;
                }
                let r = region_eq(&t, t.len() - n, &p, pi + 1, n);
                assert(sfx(ts, ts.len() - n) =~= t@.subrange(t.len() - n, t.len() - n + n));
                return r;
            }
            if n == 0 {
                proof {
                    lemma_double_star(ps, ts);
                    assert(sfx(ps, 1) =~= sfx(p@, e as int));
                }
                pi = e;
            } else {
                let ghost tok = p@.subrange(pi + 1, pi + 1 + n);
                assert(sfx(ps, n + 1) =~= sfx(p@, e as int));
                assert forall|k: int| #[trigger] occurs_at(ts, tok, k) implies occurs_at(t@, tok, ti + k) by {
                    assert(ts.subrange(k, k + n) =~= t@.subrange(ti + k, ti + k + n));
                }
                match find_token(&t, ti, &p, pi + 1, n) {
                    None => {
                        proof {
                            lemma_star_token_absent(ps, ts, n as int, 0);
                            assert(sfx(ts, 0) =~= ts);
                        }
                        return false;
                    },
                    Some(i) => {
                        proof {
                            let rel = i - ti;
                            assert(ts.subrange(rel, rel + n) =~= t@.subrange(i as int, i + n));
                            assert(sfx(ts, 0) =~= ts);
                            assert(sfx(ts, rel + n) =~= sfx(t@, i + n));
                            lemma_star_token_leftmost(ps, ts, n as int, rel, 0);
                        }
                        ti = i + n;
                        pi = e;
                    },
                }
            }
        }
    }

    /// The age as shown in tables: "1 day" or "N days".
    pub fn format_age(&self) -> (r: String)
        ensures
            r@ == age_text(self.age_days as int),
    {
        if self.age_days == 1 {
            proof {
                reveal_strlit("1 day");
            }
            let r = "1 day".to_owned();
            assert(r@ =~= age_text(1));
            r
        } else {
            let n = signed_decimal_string(self.age_days);
            proof {
                reveal_strlit(" days");
            }
            let r = cat(n.as_str(), " days");
            assert(r@ =~= age_text(self.age_days as int));
            r
        }
    }
}

/// `name` without a leading `origin/`, if it has one.
pub fn strip_origin_str(name: &str) -> (r: &str)
    ensures
        r@ == strip_origin(name@),
{
    let prefix = "origin/";
    proof {
        reveal_strlit("origin/");
    }
    assert(prefix@ =~= origin_prefix());
    if starts_with(name, prefix) {
        crate::text::drop_chars(name, 7)
    } else {
        name
    }
}

/// Which branches count as stale.
#[derive(Debug)]
pub struct BranchFilter {
    /// Least age, in days, of a branch that passes.
    pub min_age_days: u32,
    /// Pass local branches only.
    pub local_only: bool,
    /// Pass remote-tracking branches only.
    pub remote_only: bool,
    /// Pass merged branches only.
    pub merged_only: bool,
    /// Short names that never pass.
    pub protected_branches: Vec<String>,
    /// Patterns (see [`Branch::glob_match`]) whose matches never pass.
    pub exclude_patterns: Vec<String>,
}

impl Default for BranchFilter {
    /// A filter that passes every branch of age 0 or more.
    fn default() -> (r: Self)
        ensures
            r.min_age_days == 0,
            !r.local_only,
            !r.remote_only,
            !r.merged_only,
            r.protected_branches@.len() == 0,
            r.exclude_patterns@.len() == 0,
    {
        BranchFilter {
            min_age_days: 0,
            local_only: false,
            remote_only: false,
            merged_only: false,
            protected_branches: Vec::new(),
            exclude_patterns: Vec::new(),
        }
    }
}

impl BranchFilter {
    /// Whether `b` passes this filter.
    pub open spec fn matches_spec(&self, b: Branch) -> bool {
        &&& b.age_days >= self.min_age_days as i64
        &&& self.local_only ==> !b.is_remote
        &&& self.remote_only ==> b.is_remote
        &&& self.merged_only ==> b.is_merged
        &&& !listed(self.protected_branches@, b.short_spec())
        &&& !any_pattern_matches(self.exclude_patterns@, b.short_spec())
    }

    /// Whether `branch` passes this filter: old enough, of the requested
    /// kind, merged if asked, neither protected nor excluded by a pattern.
    pub fn matches(&self, branch: &Branch) -> (r: bool)
        ensures
            r == self.matches_spec(*branch),
    {
        if branch.age_days < self.min_age_days as i64 {
            return false;
        }
        if self.local_only && branch.is_remote {
            return false;
        }
        if self.remote_only && !branch.is_remote {
            return false;
        }
        if self.merged_only && !branch.is_merged {
            return false;
        }
        if branch.is_protected(self.protected_branches.as_slice()) {
            return false;
        }
        if branch.matches_exclude_pattern(self.exclude_patterns.as_slice()) {
            return false;
        }
        true
    }
}

/// A protected branch, or one whose short name matches an exclude pattern,
/// passes no filter whatever its other settings.
pub proof fn lemma_excluded_never_match(filter: BranchFilter, branch: Branch)
    requires
        listed(filter.protected_branches@, branch.short_spec()) || any_pattern_matches(
            filter.exclude_patterns@,
            branch.short_spec(),
        ),
    ensures
        !filter.matches_spec(branch),
{
}

/// `a` comes no later than `b` in character-code order.
pub open spec fn lex_le(a: Seq<char>, b: Seq<char>) -> bool
    decreases a.len(),
{
    if a.len() == 0 {
        true
    } else if b.len() == 0 {
        false
    } else if a[0] != b[0] {
        a[0] < b[0]
    } else {
        lex_le(sfx(a, 1), sfx(b, 1))
    }
}

/// Of two strings, one comes no later than the other.
pub proof fn lemma_lex_total(a: Seq<char>, b: Seq<char>)
    ensures
        lex_le(a, b) || lex_le(b, a),
    decreases a.len(),
{
    if a.len() > 0 && b.len() > 0 && a[0] == b[0] {
        lemma_lex_total(sfx(a, 1), sfx(b, 1));
    }
}

/// Character-code order is transitive.
pub proof fn lemma_lex_trans(a: Seq<char>, b: Seq<char>, c: Seq<char>)
    requires
        lex_le(a, b),
        lex_le(b, c),
    ensures
        lex_le(a, c),
    decreases a.len(),
{
    if a.len() > 0 && b.len() > 0 && c.len() > 0 && a[0] == b[0] && b[0] == c[0] {
        lemma_lex_trans(sfx(a, 1), sfx(b, 1), sfx(c, 1));
    }
}

/// Display and deletion order: unmerged before merged, then the newest
/// (least age) first, then by name.
pub open spec fn branch_le(a: Branch, b: Branch) -> bool {
    if a.is_merged != b.is_merged {
        !a.is_merged
    } else if a.age_days != b.age_days {
        a.age_days < b.age_days
    } else {
        lex_le(a.name@, b.name@)
    }
}

/// Of two branches, one comes no later than the other.
pub proof fn lemma_branch_total(a: Branch, b: Branch)
    ensures
        branch_le(a, b) || branch_le(b, a),
{
    lemma_lex_total(a.name@, b.name@);
}

/// The display order is transitive.
pub proof fn lemma_branch_trans(a: Branch, b: Branch, c: Branch)
    requires
        branch_le(a, b),
        branch_le(b, c),
    ensures
        branch_le(a, c),
{
    if a.is_merged == b.is_merged && b.is_merged == c.is_merged && a.age_days == b.age_days
        && b.age_days == c.age_days {
        lemma_lex_trans(a.name@, b.name@, c.name@);
    }
}

/// Whether `a` comes no later than `b` in character-code order.
pub fn lex_le_str(a: &str, b: &str) -> (r: bool)
    ensures
        r == lex_le(a@, b@),
{
    let x = chars_of(a);
    let y = chars_of(b);
    let mut i: usize = 0;
    assert(sfx(x@, 0) =~= x@);
    assert(sfx(y@, 0) =~= y@);
    while i < x.len() && i < y.len() && x[i] == y[i]
        invariant
            x@ == a@,
            y@ == b@,
            i <= x.len(),
            i <= y.len(),
            lex_le(a@, b@) == lex_le(sfx(x@, i as int), sfx(y@, i as int)),
        decreases x.len() - i,
    {
        proof {
            assert(sfx(sfx(x@, i as int), 1) =~= sfx(x@, i + 1));
            assert(sfx(sfx(y@, i as int), 1) =~= sfx(y@, i + 1));
        }
        i = i + 1;
    }
    if i == x.len() {
        true
    } else if i == y.len() {
        false
    } else {
        assert(sfx(x@, i as int)[0] == x@[i as int]);
        assert(sfx(y@, i as int)[0] == y@[i as int]);
        x[i] < y[i]
    }
}

/// Whether `a` comes no later than `b` in display order.
pub fn branch_before(a: &Branch, b: &Branch) -> (r: bool)
    ensures
        r == branch_le(*a, *b),
{
    if a.is_merged != b.is_merged {
        !a.is_merged
    } else if a.age_days != b.age_days {
        a.age_days < b.age_days
    } else {
        lex_le_str(a.name.as_str(), b.name.as_str())
    }
}

/// Puts `branches` in display order: unmerged first, then newest first
/// (ascending age), ties by name.
pub fn sort_branches(branches: &mut Vec<Branch>)
    ensures
        final(branches)@.to_multiset() == old(branches)@.to_multiset(),
        forall|i: int, j: int|
            0 <= i < j < final(branches)@.len() ==> branch_le(
                #[trigger] final(branches)@[i],
                #[trigger] final(branches)@[j],
            ),
        forall|i: int, j: int|
            0 <= i < j < final(branches)@.len() && #[trigger] final(branches)@[i].is_merged
                ==> #[trigger] final(branches)@[j].is_merged,
        forall|i: int, j: int|
            0 <= i < j < final(branches)@.len() && #[trigger] final(branches)@[i].is_merged
                == #[trigger] final(branches)@[j].is_merged ==> final(branches)@[i].age_days
                <= final(branches)@[j].age_days,
{
    let ghost all = branches@.to_multiset();
    let mut out: Vec<Branch> = Vec::new();
    while branches.len() > 0
        invariant
            out@.to_multiset().add(branches@.to_multiset()) == all,
            forall|i: int, j: int|
                0 <= i < j < out@.len() ==> branch_le(#[trigger] out@[i], #[trigger] out@[j]),
            forall|i: int, k: int|
                0 <= i < out@.len() && 0 <= k < branches@.len() ==> branch_le(
                    #[trigger] out@[i],
                    #[trigger] branches@[k],
                ),
        decreases branches.len(),
    {
        let mut best: usize = 0;
        let mut k: usize = 1;
        proof {
            lemma_lex_total(branches@[0].name@, branches@[0].name@);
        }
        while k < branches.len()
            invariant
                best < k <= branches@.len(),
                forall|m: int| 0 <= m < k ==> branch_le(branches@[best as int], #[trigger] branches@[m]),
            decreases branches.len() - k,
        {
            if !branch_before(&branches[best], &branches[k]) {
                proof {
                    lemma_branch_total(branches@[best as int], branches@[k as int]);
                    assert forall|m: int| 0 <= m <= k implies branch_le(
                        branches@[k as int],
                        #[trigger] branches@[m],
                    ) by {
                        if m < k {
                            lemma_branch_trans(
                                branches@[k as int],
                                branches@[best as int],
                                branches@[m],
                            );
                        } else {
                            lemma_lex_total(branches@[m].name@, branches@[m].name@);
                        }
                    }
                }
                best = k;
            }
            k = k + 1;
        }
        let ghost before = branches@;
        let b = branches.remove(best);
        proof {
            assert(before.to_multiset().count(b) > 0) by {
                assert(before.contains(b));
            }
            assert(branches@ == before.remove(best as int));
            assert forall|m: int| 0 <= m < branches@.len() implies branch_le(
                b,
                #[trigger] branches@[m],
            ) by {
                if m < best {
                    assert(branches@[m] == before[m]);
                } else {
                    assert(branches@[m] == before[m + 1]);
                }
            }
            assert forall|i: int, m: int|
                0 <= i < out@.len() && 0 <= m < branches@.len() implies branch_le(
                #[trigger] out@[i],
                #[trigger] branches@[m],
            ) by {
                if m < best {
                    assert(branches@[m] == before[m]);
                } else {
                    assert(branches@[m] == before[m + 1]);
                }
            }
        }
        let ghost out_before = out@;
        out.push(b);
        proof {
            assert(out@ == out_before.push(b));
            assert(out@.to_multiset().add(branches@.to_multiset()) =~= all);
        }
    }
    assert(branches@.to_multiset() =~= Multiset::empty());
    assert(out@.to_multiset() =~= all);
    *branches = out;
}

} // verus!
