//! Meaning of the single-wildcard patterns used to exclude branches, and the
//! facts that justify matching them token by token.

use vstd::prelude::*;

verus! {

/// `s` without its first `i` characters.
pub open spec fn sfx(s: Seq<char>, i: int) -> Seq<char> {
    s.subrange(i, s.len() as int)
}

/// Whether the whole of `t` matches pattern `p`: `*` stands for any run of
/// characters, possibly empty; every other character stands for itself.
/// This is the regular expression `^...$` obtained by escaping every
/// character of `p` but `*` and writing `.*` for each `*`.
pub open spec fn glob_spec(p: Seq<char>, t: Seq<char>) -> bool
    decreases p.len(), t.len(),
{
    if p.len() == 0 {
        t.len() == 0
    } else if p[0] == '*' {
        glob_spec(sfx(p, 1), t) || (t.len() > 0 && glob_spec(p, sfx(t, 1)))
    } else {
        t.len() > 0 && t[0] == p[0] && glob_spec(sfx(p, 1), sfx(t, 1))
    }
}

/// No `*` among the characters of `p` at positions `lo..hi`.
pub open spec fn star_free(p: Seq<char>, lo: int, hi: int) -> bool {
    forall|j: int| lo <= j < hi ==> p[j] != '*'
}

/// `tok` occurs in `s` at position `i`.
pub open spec fn occurs_at(s: Seq<char>, tok: Seq<char>, i: int) -> bool {
    0 <= i && i + tok.len() <= s.len() && s.subrange(i, i + tok.len()) == tok
}

/// A pattern that starts with `*` also matches any text with more characters
/// in front.
pub proof fn lemma_star_skip(p: Seq<char>, s: Seq<char>, j: int)
    requires
        p.len() > 0,
        p[0] == '*',
        0 <= j <= s.len(),
        glob_spec(p, sfx(s, j)),
    ensures
        glob_spec(p, s),
    decreases j,
{
    if j == 0 {
        assert(sfx(s, 0) =~= s);
    } else {
        let s1 = sfx(s, j - 1);
        assert(sfx(s1, 1) =~= sfx(s, j));
        assert(glob_spec(p, s1));
        lemma_star_skip(p, s, j - 1);
    }
}

/// A star-free head of the pattern must be matched literally by the head of
/// the text.
pub proof fn lemma_literal_prefix(p: Seq<char>, t: Seq<char>, f: int)
    requires
        0 <= f <= p.len(),
        star_free(p, 0, f),
    ensures
        glob_spec(p, t) == (t.len() >= f && t.subrange(0, f) == p.subrange(0, f) && glob_spec(
            sfx(p, f),
            sfx(t, f),
        )),
    decreases f,
{
    if f == 0 {
        assert(sfx(p, 0) =~= p);
        assert(sfx(t, 0) =~= t);
        assert(t.subrange(0, 0) =~= p.subrange(0, 0));
    } else {
        let p1 = sfx(p, 1);
        assert(p[0] != '*');
        assert(star_free(p1, 0, f - 1));
        if t.len() > 0 {
            let t1 = sfx(t, 1);
            lemma_literal_prefix(p1, t1, f - 1);
            assert(sfx(p1, f - 1) =~= sfx(p, f));
            if t.len() >= f {
                assert(sfx(t1, f - 1) =~= sfx(t, f));
                let tf = t.subrange(0, f);
                let pf = p.subrange(0, f);
                assert(t1.subrange(0, f - 1) =~= tf.subrange(1, f));
                assert(p1.subrange(0, f - 1) =~= pf.subrange(1, f));
                assert(tf[0] == t[0] && pf[0] == p[0]);
                if t[0] == p[0] && t1.subrange(0, f - 1) == p1.subrange(0, f - 1) {
                    assert forall|k: int| 0 <= k < f implies tf[k] == pf[k] by {
                        if k > 0 {
                            assert(tf.subrange(1, f)[k - 1] == pf.subrange(1, f)[k - 1]);
                        }
                    }
                    assert(tf =~= pf);
                }
            }
        }
    }
}

/// A pattern without `*` matches exactly itself.
pub proof fn lemma_no_star(p: Seq<char>, t: Seq<char>)
    requires
        star_free(p, 0, p.len() as int),
    ensures
        glob_spec(p, t) == (p == t),
{
    lemma_literal_prefix(p, t, p.len() as int);
    assert(sfx(p, p.len() as int) =~= Seq::<char>::empty());
    assert(p.subrange(0, p.len() as int) =~= p);
    if t.len() >= p.len() {
        let rest = sfx(t, p.len() as int);
        assert(glob_spec(Seq::<char>::empty(), rest) == (rest.len() == 0));
        if t.len() == p.len() {
            assert(t.subrange(0, p.len() as int) =~= t);
        }
    }
}

/// `*` followed by a star-free tail matches exactly the texts that end with
/// that tail.
pub proof fn lemma_star_last(p: Seq<char>, s: Seq<char>)
    requires
        p.len() > 0,
        p[0] == '*',
        star_free(p, 1, p.len() as int),
    ensures
        glob_spec(p, s) == (s.len() >= p.len() - 1 && sfx(s, s.len() - (p.len() - 1)) == sfx(
            p,
            1,
        )),
    decreases s.len(),
{
    let q = sfx(p, 1);
    assert(star_free(q, 0, q.len() as int));
    lemma_no_star(q, s);
    if s.len() > 0 {
        let s1 = sfx(s, 1);
        lemma_star_last(p, s1);
        if s.len() > q.len() {
            assert(sfx(s1, s1.len() - q.len()) =~= sfx(s, s.len() - q.len()));
        }
        if s.len() == q.len() {
            assert(sfx(s, 0) =~= s);
        }
    } else {
        assert(sfx(s, 0) =~= s);
    }
}

/// Two stars in a row match what one star matches.
pub proof fn lemma_double_star(p: Seq<char>, s: Seq<char>)
    requires
        p.len() > 1,
        p[0] == '*',
        p[1] == '*',
    ensures
        glob_spec(p, s) == glob_spec(sfx(p, 1), s),
    decreases s.len(),
{
    let p1 = sfx(p, 1);
    if s.len() > 0 {
        let s1 = sfx(s, 1);
        lemma_double_star(p, s1);
        if glob_spec(p1, s1) {
            assert(p1[0] == '*');
            assert(glob_spec(p1, s));
        }
    }
}

/// With `p` = `*`, a star-free token of length `n`, then a part `r` that
/// starts with `*`: a match of `p` on `x` leaves a match of `r` on what
/// follows the first `n` characters.
pub proof fn lemma_star_token_tail(p: Seq<char>, x: Seq<char>, n: int)
    requires
        n >= 1,
        p.len() > n + 1,
        p[0] == '*',
        star_free(p, 1, n + 1),
        p[n + 1] == '*',
        glob_spec(p, x),
    ensures
        x.len() >= n,
        glob_spec(sfx(p, n + 1), sfx(x, n)),
    decreases x.len(),
{
    let p1 = sfx(p, 1);
    let r = sfx(p, n + 1);
    assert(star_free(p1, 0, n));
    lemma_literal_prefix(p1, x, n);
    assert(sfx(p1, n) =~= r);
    if glob_spec(p1, x) {
    } else {
        let x1 = sfx(x, 1);
        lemma_star_token_tail(p, x1, n);
        assert(sfx(x1, n) =~= sfx(sfx(x, n), 1));
        assert(r[0] == '*');
        assert(glob_spec(r, sfx(x, n)));
    }
}

/// The same pattern: matching it comes down to matching `r` after the
/// leftmost occurrence `i` of the token.
pub proof fn lemma_star_token_leftmost(p: Seq<char>, s: Seq<char>, n: int, i: int, j: int)
    requires
        n >= 1,
        p.len() > n + 1,
        p[0] == '*',
        star_free(p, 1, n + 1),
        p[n + 1] == '*',
        occurs_at(s, p.subrange(1, n + 1), i),
        forall|k: int| 0 <= k < i ==> !#[trigger] occurs_at(s, p.subrange(1, n + 1), k),
        0 <= j <= i,
    ensures
        glob_spec(p, sfx(s, j)) == glob_spec(sfx(p, n + 1), sfx(s, i + n)),
    decreases i - j,
{
    let tok = p.subrange(1, n + 1);
    let p1 = sfx(p, 1);
    let r = sfx(p, n + 1);
    let x = sfx(s, j);
    assert(star_free(p1, 0, n));
    lemma_literal_prefix(p1, x, n);
    assert(sfx(p1, n) =~= r);
    assert(p1.subrange(0, n) =~= tok);
    assert(sfx(x, 1) =~= sfx(s, j + 1));
    if j == i {
        assert(x.subrange(0, n) =~= s.subrange(i, i + n));
        assert(sfx(x, n) =~= sfx(s, i + n));
        if x.len() > 0 && glob_spec(p, sfx(x, 1)) {
            lemma_star_token_tail(p, sfx(s, i + 1), n);
            assert(sfx(sfx(s, i + 1), n) =~= sfx(sfx(s, i + n), 1));
            assert(r[0] == '*');
            lemma_star_skip(r, sfx(s, i + n), 1);
        }
    } else {
        if x.len() >= n {
            assert(x.subrange(0, n) =~= s.subrange(j, j + n));
        }
        assert(!occurs_at(s, tok, j));
        lemma_star_token_leftmost(p, s, n, i, j + 1);
    }
}

/// The same pattern matches no text in which the token does not occur.
pub proof fn lemma_star_token_absent(p: Seq<char>, s: Seq<char>, n: int, j: int)
    requires
        n >= 1,
        p.len() > n + 1,
        p[0] == '*',
        star_free(p, 1, n + 1),
        p[n + 1] == '*',
        forall|k: int| 0 <= k <= s.len() ==> !#[trigger] occurs_at(s, p.subrange(1, n + 1), k),
        0 <= j <= s.len(),
    ensures
        !glob_spec(p, sfx(s, j)),
    decreases s.len() - j,
{
    let tok = p.subrange(1, n + 1);
    let p1 = sfx(p, 1);
    let x = sfx(s, j);
    assert(star_free(p1, 0, n));
    lemma_literal_prefix(p1, x, n);
    assert(p1.subrange(0, n) =~= tok);
    if x.len() >= n {
        assert(x.subrange(0, n) =~= s.subrange(j, j + n));
    }
    assert(!occurs_at(s, tok, j));
    if j < s.len() {
        assert(sfx(x, 1) =~= sfx(s, j + 1));
        lemma_star_token_absent(p, s, n, j + 1);
    }
}

/// Position of the first `*` in `p` at or after `from`, or `p.len()`.
pub(crate) fn find_star(p: &Vec<char>, from: usize) -> (r: usize)
    requires
        from <= p.len(),
    ensures
        from <= r <= p.len(),
        star_free(p@, from as int, r as int),
        r < p.len() ==> p@[r as int] == '*',
{
    let mut i = from;
    while i < p.len()
        invariant
            from <= i <= p.len(),
            star_free(p@, from as int, i as int),
        decreases p.len() - i,
    {
        if p[i] == '*' {
            return i;
        }
        i = i + 1;
    }
    i
}

/// Whether `a[ai..ai + n]` and `b[bi..bi + n]` hold the same characters.
pub(crate) fn region_eq(a: &Vec<char>, ai: usize, b: &Vec<char>, bi: usize, n: usize) -> (r: bool)
    requires
        ai + n <= a.len(),
        bi + n <= b.len(),
    ensures
        r == (a@.subrange(ai as int, ai + n) == b@.subrange(bi as int, bi + n)),
{
    let mut k: usize = 0;
    while k < n
        invariant
            ai + n <= a.len(),
            bi + n <= b.len(),
            k <= n,
            forall|m: int| 0 <= m < k ==> #[trigger] a@[ai + m] == b@[bi + m],
        decreases n - k,
    {
        if a[ai + k] != b[bi + k] {
            assert(a@.subrange(ai as int, ai + n)[k as int] != b@.subrange(bi as int, bi + n)[k as int]);
            return false;
        }
        k = k + 1;
    }
    assert forall|m: int| 0 <= m < n implies #[trigger] a@.subrange(ai as int, ai + n)[m]
        == b@.subrange(bi as int, bi + n)[m] by {
        assert(a@[ai + m] == b@[bi + m]);
    }
    assert(a@.subrange(ai as int, ai + n) =~= b@.subrange(bi as int, bi + n));
    true
}

/// Leftmost position at or after `from` where `p[ps..ps + n]` occurs in `t`.
pub(crate) fn find_token(t: &Vec<char>, from: usize, p: &Vec<char>, ps: usize, n: usize) -> (r:
    Option<usize>)
    requires
        from <= t.len(),
        ps + n <= p.len(),
        n >= 1,
    ensures
        r matches Some(i) ==> from <= i && occurs_at(t@, p@.subrange(ps as int, ps + n), i as int)
            && forall|k: int|
            from <= k < i ==> !#[trigger] occurs_at(t@, p@.subrange(ps as int, ps + n), k),
        r is None ==> forall|k: int|
            from <= k <= t.len() ==> !#[trigger] occurs_at(t@, p@.subrange(ps as int, ps + n), k),
{
    let ghost tok = p@.subrange(ps as int, ps + n);
    if n > t.len() - from {
        return None;
    }
    let last = t.len() - n;
    let mut i = from;
    while i <= last
        invariant
            from <= i,
            last + n == t.len(),
            from <= last + 1,
            n >= 1,
            ps + n <= p.len(),
            tok == p@.subrange(ps as int, ps + n),
            forall|k: int| from <= k < i ==> !#[trigger] occurs_at(t@, tok, k),
        decreases last + 1 - i,
    {
        if region_eq(t, i, p, ps, n) {
            return Some(i);
        }
        i = i + 1;
    }
    None
}

} // verus!
