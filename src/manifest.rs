//! The restore manifest: the text written before branches are deleted, and
//! the tolerant parser that reads it back.
//!
//! A manifest is a header of `#` comment lines, then for each branch a
//! comment with its listed name, the command that recreates it
//! (`git branch <name> <sha>`) and a blank line.

use vstd::prelude::*;
use vstd::string::*;

use crate::branch::Branch;
use crate::glob::sfx;
use crate::restore::RestoreError;
use crate::text::{cat, chars_of, has_prefix, owned, push_str, starts_with};

verus! {

/// Whether `c` is white space as Unicode defines it (what `char::is_whitespace`
/// answers).
pub open spec fn is_ws(c: char) -> bool {
    c == ' ' || c == '\t' || c == '\n' || c == '\u{0B}' || c == '\u{0C}' || c == '\r' || c
        == '\u{85}' || c == '\u{A0}' || c == '\u{1680}' || ('\u{2000}' <= c && c <= '\u{200A}')
        || c == '\u{2028}' || c == '\u{2029}' || c == '\u{202F}' || c == '\u{205F}' || c
        == '\u{3000}'
}

/// `cur` followed by the lines of `s`, read as `BufRead::lines` reads them:
/// split at `\n`, a `\r` before the `\n` dropped, no line after a final `\n`.
pub open spec fn lines_acc(s: Seq<char>, cur: Seq<char>) -> Seq<Seq<char>>
    decreases s.len(),
{
    if s.len() == 0 {
        if cur.len() == 0 {
            seq![]
        } else {
            seq![cur]
        }
    } else if s[0] == '\n' {
        seq![strip_cr(cur)] + lines_acc(sfx(s, 1), seq![])
    } else {
        lines_acc(sfx(s, 1), cur.push(s[0]))
    }
}

/// `l` without a final `\r`.
pub open spec fn strip_cr(l: Seq<char>) -> Seq<char> {
    if l.len() > 0 && l[l.len() - 1] == '\r' {
        l.subrange(0, l.len() - 1)
    } else {
        l
    }
}

/// The lines of `s`.
pub open spec fn lines_of(s: Seq<char>) -> Seq<Seq<char>> {
    lines_acc(s, seq![])
}

/// `cur` followed by the words of `s`: maximal runs of characters that are not
/// white space.
pub open spec fn words_acc(s: Seq<char>, cur: Seq<char>) -> Seq<Seq<char>>
    decreases s.len(),
{
    if s.len() == 0 {
        if cur.len() == 0 {
            seq![]
        } else {
            seq![cur]
        }
    } else if is_ws(s[0]) {
        (if cur.len() == 0 {
            seq![]
        } else {
            seq![cur]
        }) + words_acc(sfx(s, 1), seq![])
    } else {
        words_acc(sfx(s, 1), cur.push(s[0]))
    }
}

/// The words of `s`, as `str::split_whitespace` gives them.
pub open spec fn words(s: Seq<char>) -> Seq<Seq<char>> {
    words_acc(s, seq![])
}

/// A comment or a blank line.
pub open spec fn ignored_line(l: Seq<char>) -> bool {
    has_prefix(l, "#"@) || forall|j: int| 0 <= j < l.len() ==> is_ws(#[trigger] l[j])
}

/// A line that restores a branch: the command and at least a name and an id.
pub open spec fn entry_line(l: Seq<char>) -> bool {
    !ignored_line(l) && has_prefix(l, "git branch "@) && words(l).len() >= 4
}

/// The (name, commit) pairs of the entry lines among `ls`, in order.
pub open spec fn entries_of(ls: Seq<Seq<char>>) -> Seq<(Seq<char>, Seq<char>)>
    decreases ls.len(),
{
    if ls.len() == 0 {
        seq![]
    } else {
        (if entry_line(ls[0]) {
            seq![(words(ls[0])[2], words(ls[0])[3])]
        } else {
            seq![]
        }) + entries_of(ls.drop_first())
    }
}

/// The lines among `ls` that are neither ignored nor entries, each with its
/// number, counting the first of `ls` as line `n`.
pub open spec fn skipped_of(ls: Seq<Seq<char>>, n: int) -> Seq<(int, Seq<char>)>
    decreases ls.len(),
{
    if ls.len() == 0 {
        seq![]
    } else {
        (if !ignored_line(ls[0]) && !entry_line(ls[0]) {
            seq![(n, ls[0])]
        } else {
            seq![]
        }) + skipped_of(ls.drop_first(), n + 1)
    }
}

/// What reading manifest text `c` gives: the entries and the skipped lines
/// after the header line, or the message of a missing header.
pub open spec fn parse_spec(c: Seq<char>) -> Result<
    (Seq<(Seq<char>, Seq<char>)>, Seq<(int, Seq<char>)>),
    Seq<char>,
> {
    let ls = lines_of(c);
    if ls.len() == 0 {
        Err("Empty or invalid backup file"@)
    } else if !has_prefix(ls[0], "# deadbranch backup"@) {
        Err(
            "Invalid header at line 1. Expected '# deadbranch backup', found: '"@ + ls[0] + "'"@,
        )
    } else {
        Ok((entries_of(ls.drop_first()), skipped_of(ls.drop_first(), 2)))
    }
}

/// A branch recorded in a manifest.
#[derive(Debug, Clone)]
pub struct BackupBranchEntry {
    /// The name it is restored under.
    pub name: String,
    /// The commit it pointed to.
    pub commit_sha: String,
}

/// A line of a manifest that was neither a comment, blank, nor an entry.
#[derive(Debug, Clone)]
pub struct SkippedLine {
    /// Its number, counting from 1.
    pub line_number: usize,
    /// Its text.
    pub content: String,
}

/// What a manifest holds.
#[derive(Debug)]
pub struct ParsedBackup {
    /// The entries, in the order of the file.
    pub entries: Vec<BackupBranchEntry>,
    /// The lines that could not be read, in the order of the file.
    pub skipped_lines: Vec<SkippedLine>,
}

/// The (name, commit) pairs of `v`.
pub open spec fn entries_view(v: Seq<BackupBranchEntry>) -> Seq<(Seq<char>, Seq<char>)> {
    v.map_values(|e: BackupBranchEntry| (e.name@, e.commit_sha@))
}

/// The (number, text) pairs of `v`.
pub open spec fn skipped_view(v: Seq<SkippedLine>) -> Seq<(int, Seq<char>)> {
    v.map_values(|s: SkippedLine| (s.line_number as int, s.content@))
}

/// The words of `line`.
pub fn words_of(line: &str) -> (r: Vec<String>)
    ensures
        r@.map_values(|w: String| w@) == words(line@),
{
    let c = chars_of(line);
    let mut out: Vec<String> = Vec::new();
    let mut start: usize = 0;
    let mut i: usize = 0;
    assert(sfx(c@, 0) =~= c@);
    assert(c@.subrange(0, 0) =~= Seq::<char>::empty());
    assert(out@.map_values(|w: String| w@) =~= Seq::<Seq<char>>::empty());
    assert(words(line@) =~= out@.map_values(|w: String| w@) + words(line@));
    while i < c.len()
        invariant
            c@ == line@,
            start <= i <= c.len(),
            words(line@) == out@.map_values(|w: String| w@) + words_acc(
                sfx(c@, i as int),
                c@.subrange(start as int, i as int),
            ),
        decreases c.len() - i,
    {
        let ghost cur = c@.subrange(start as int, i as int);
        let ghost rest = sfx(c@, i as int);
        assert(sfx(rest, 1) =~= sfx(c@, i + 1));
        if is_ws_char(c[i]) {
            if i > start {
                let w = line.substring_char(start, i).to_owned();
                let ghost before = out@;
                out.push(w);
                assert(out@.map_values(|w: String| w@) =~= before.map_values(|w: String| w@).push(
                    cur,
                ));
            }
            assert(c@.subrange(i + 1, i + 1) =~= Seq::<char>::empty());
            start = i + 1;
        } else {
            assert(cur.push(c@[i as int]) =~= c@.subrange(start as int, i + 1));
        }
        i = i + 1;
    }
    if start < c.len() {
        let w = line.substring_char(start, c.len()).to_owned();
        let ghost before = out@;
        out.push(w);
        assert(out@.map_values(|w: String| w@) =~= before.map_values(|w: String| w@).push(
            c@.subrange(start as int, c.len() as int),
        ));
    }
    assert(sfx(c@, c.len() as int) =~= Seq::<char>::empty());
    out
}

/// Whether `c` is white space (see [`is_ws`]).
pub fn is_ws_char(c: char) -> (r: bool)
    ensures
        r == is_ws(c),
{
    c == ' ' || c == '\t' || c == '\n' || c == '\u{0B}' || c == '\u{0C}' || c == '\r' || c
        == '\u{85}' || c == '\u{A0}' || c == '\u{1680}' || ('\u{2000}' <= c && c <= '\u{200A}')
        || c == '\u{2028}' || c == '\u{2029}' || c == '\u{202F}' || c == '\u{205F}' || c
        == '\u{3000}'
}

/// How one line after the header is read.
enum LineRead {
    Ignored,
    Entry(BackupBranchEntry),
    Malformed,
}

fn read_line(line: &str) -> (r: LineRead)
    ensures
        r is Ignored <==> ignored_line(line@),
        r is Entry <==> entry_line(line@),
        r matches LineRead::Entry(e) ==> e.name@ == words(line@)[2] && e.commit_sha@ == words(
            line@,
        )[3],
{
    proof {
        reveal_strlit("#");
        reveal_strlit("git branch ");
    }
    if starts_with(line, "#") {
        return LineRead::Ignored;
    }
    let c = chars_of(line);
    let mut i: usize = 0;
    let mut blank = true;
    while i < c.len() && blank
        invariant
            c@ == line@,
            i <= c.len(),
            forall|j: int| 0 <= j < i ==> is_ws(#[trigger] c@[j]),
            !blank ==> i < c.len() && !is_ws(c@[i as int]),
        decreases c.len() - i + (if blank { 1int } else { 0int }),
    {
        if !is_ws_char(c[i]) {
            blank = false;
        } else {
            i = i + 1;
        }
    }
    if blank {
        return LineRead::Ignored;
    }
    if !starts_with(line, "git branch ") {
        return LineRead::Malformed;
    }
    let mut ws = words_of(line);
    if ws.len() < 4 {
        return LineRead::Malformed;
    }
    assert(ws@.map_values(|w: String| w@)[2] == ws@[2]@);
    assert(ws@.map_values(|w: String| w@)[3] == ws@[3]@);
    let sha = ws.remove(3);
    let name = ws.remove(2);
    LineRead::Entry(BackupBranchEntry { name, commit_sha: sha })
}

/// Entries of two runs of lines are those of each, in order.
pub proof fn lemma_entries_concat(a: Seq<Seq<char>>, b: Seq<Seq<char>>)
    ensures
        entries_of(a + b) == entries_of(a) + entries_of(b),
    decreases a.len(),
{
    if a.len() == 0 {
        assert(a + b =~= b);
        assert(entries_of(a) + entries_of(b) =~= entries_of(b));
    } else {
        assert((a + b).drop_first() =~= a.drop_first() + b);
        assert((a + b)[0] == a[0]);
        lemma_entries_concat(a.drop_first(), b);
        let h: Seq<(Seq<char>, Seq<char>)> = if entry_line(a[0]) {
            seq![(words(a[0])[2], words(a[0])[3])]
        } else {
            seq![]
        };
        assert(h + (entries_of(a.drop_first()) + entries_of(b)) =~= (h + entries_of(
            a.drop_first(),
        )) + entries_of(b));
    }
}

/// Skipped lines of two runs of lines are those of each, in order, the
/// second numbered on from the first.
pub proof fn lemma_skipped_concat(a: Seq<Seq<char>>, b: Seq<Seq<char>>, n: int)
    ensures
        skipped_of(a + b, n) == skipped_of(a, n) + skipped_of(b, n + a.len()),
    decreases a.len(),
{
    if a.len() == 0 {
        assert(a + b =~= b);
        assert(skipped_of(a, n) + skipped_of(b, n) =~= skipped_of(b, n));
    } else {
        assert((a + b).drop_first() =~= a.drop_first() + b);
        assert((a + b)[0] == a[0]);
        lemma_skipped_concat(a.drop_first(), b, n + 1);
        let h: Seq<(int, Seq<char>)> = if !ignored_line(a[0]) && !entry_line(a[0]) {
            seq![(n, a[0])]
        } else {
            seq![]
        };
        assert(h + (skipped_of(a.drop_first(), n + 1) + skipped_of(b, n + 1 + a.len() - 1)) =~= (h
            + skipped_of(a.drop_first(), n + 1)) + skipped_of(b, n + a.len()));
    }
}

/// Reads one line after the header, numbered `number`, into `ents` or
/// `skips`.
fn take_line(
    line: &str,
    number: usize,
    ents: &mut Vec<BackupBranchEntry>,
    skips: &mut Vec<SkippedLine>,
)
    ensures
        entries_view(final(ents)@) == entries_view(old(ents)@) + entries_of(seq![line@]),
        skipped_view(final(skips)@) == skipped_view(old(skips)@) + skipped_of(
            seq![line@],
            number as int,
        ),
{
    let ghost l = seq![line@];
    assert(l.drop_first() =~= Seq::<Seq<char>>::empty());
    assert(entries_of(Seq::<Seq<char>>::empty()) == Seq::<(Seq<char>, Seq<char>)>::empty());
    assert(skipped_of(Seq::<Seq<char>>::empty(), number + 1) == Seq::<(int, Seq<char>)>::empty());
    assert(l[0] == line@);
    match read_line(line) {
        LineRead::Ignored => {
            assert(entries_view(ents@) + entries_of(l) =~= entries_view(ents@));
            assert(skipped_view(skips@) + skipped_of(l, number as int) =~= skipped_view(skips@));
        },
        LineRead::Entry(e) => {
            let ghost before = ents@;
            ents.push(e);
            assert(entries_view(ents@) =~= entries_view(before) + entries_of(l));
            assert(skipped_view(skips@) + skipped_of(l, number as int) =~= skipped_view(skips@));
        },
        LineRead::Malformed => {
            let ghost before = skips@;
            skips.push(SkippedLine { line_number: number, content: owned(line) });
            assert(skipped_view(skips@) =~= skipped_view(before) + skipped_of(l, number as int));
            assert(entries_view(ents@) + entries_of(l) =~= entries_view(ents@));
        },
    }
}

/// Reads the text of a manifest. Blank lines and `#` comments are passed
/// over; a line that is neither and is no well-formed entry is kept as a
/// skipped line. Only a first line without the header tag fails, with
/// `BackupCorrupted`.
pub fn parse_backup(content: &str) -> (r: Result<ParsedBackup, RestoreError>)
    ensures
        r is Ok <==> parse_spec(content@) is Ok,
        r matches Ok(pb) ==> parse_spec(content@) == Ok::<_, Seq<char>>(
            (entries_view(pb.entries@), skipped_view(pb.skipped_lines@)),
        ),
        r matches Err(e) ==> e matches RestoreError::BackupCorrupted { message }
            && parse_spec(content@) == Err::<(Seq<(Seq<char>, Seq<char>)>, Seq<(int, Seq<char>)>), _>(
            message@,
        ),
{
    proof {
        reveal_strlit("# deadbranch backup");
        reveal_strlit("Empty or invalid backup file");
    }
    let c = chars_of(content);
    let mut ents: Vec<BackupBranchEntry> = Vec::new();
    let mut skips: Vec<SkippedLine> = Vec::new();
    let mut start: usize = 0;
    let mut i: usize = 0;
    let mut count: usize = 0;
    let ghost mut done: Seq<Seq<char>> = seq![];
    assert(sfx(c@, 0) =~= c@);
    assert(c@.subrange(0, 0) =~= Seq::<char>::empty());
    assert(done + lines_of(content@) =~= lines_of(content@));
    assert(entries_view(ents@) =~= Seq::<(Seq<char>, Seq<char>)>::empty());
    assert(skipped_view(skips@) =~= Seq::<(int, Seq<char>)>::empty());
    while i < c.len()
        invariant
            c@ == content@,
            start <= i <= c.len(),
            count == done.len(),
            count <= start,
            lines_of(content@) == done + lines_acc(sfx(c@, i as int), c@.subrange(start as int, i as int)),
            count > 0 ==> has_prefix(done[0], "# deadbranch backup"@),
            count > 0 ==> entries_view(ents@) == entries_of(done.drop_first()),
            count > 0 ==> skipped_view(skips@) == skipped_of(done.drop_first(), 2),
            count == 0 ==> entries_view(ents@) == Seq::<(Seq<char>, Seq<char>)>::empty(),
            count == 0 ==> skipped_view(skips@) == Seq::<(int, Seq<char>)>::empty(),
        decreases c.len() - i,
    {
        let ghost cur = c@.subrange(start as int, i as int);
        let ghost rest = sfx(c@, i as int);
        assert(sfx(rest, 1) =~= sfx(c@, i + 1));
        if c[i] == '\n' {
            let end = if i > start && c[i - 1] == '\r' {
                i - 1
            } else {
                i
            };
            let line = content.substring_char(start, end);
            assert(line@ =~= strip_cr(cur));
            if count == 0 {
                if !starts_with(line, "# deadbranch backup") {
                    proof {
                        assert(lines_of(content@)[0] == line@);
                    }
                    return Err(corrupt_header(line));
                }
            } else {
                let ghost d = done.drop_first();
                take_line(line, count + 1, &mut ents, &mut skips);
                proof {
                    lemma_entries_concat(d, seq![line@]);
                    lemma_skipped_concat(d, seq![line@], 2);
                    assert(done.push(line@).drop_first() =~= d + seq![line@]);
                }
            }
            proof {
                assert(done + lines_acc(rest, cur) =~= done.push(line@) + lines_acc(
                    sfx(c@, i + 1),
                    seq![],
                ));
                done = done.push(line@);
                if count == 0 {
                    assert(done.drop_first() =~= Seq::<Seq<char>>::empty());
                }
            }
            assert(c@.subrange(i + 1, i + 1) =~= Seq::<char>::empty());
            count = count + 1;
            start = i + 1;
        } else {
            assert(cur.push(c@[i as int]) =~= c@.subrange(start as int, i + 1));
        }
        i = i + 1;
    }
    assert(sfx(c@, c.len() as int) =~= Seq::<char>::empty());
    if start < c.len() {
        let line = content.substring_char(start, c.len());
        assert(lines_of(content@) == done.push(line@));
        if count == 0 {
            if !starts_with(line, "# deadbranch backup") {
                return Err(corrupt_header(line));
            }
            proof {
                assert(done.push(line@).drop_first() =~= Seq::<Seq<char>>::empty());
            }
        } else {
            let ghost d = done.drop_first();
            take_line(line, count + 1, &mut ents, &mut skips);
            proof {
                lemma_entries_concat(d, seq![line@]);
                lemma_skipped_concat(d, seq![line@], 2);
                assert(done.push(line@).drop_first() =~= d + seq![line@]);
            }
        }
    } else {
        assert(lines_of(content@) =~= done);
        if count == 0 {
            return Err(RestoreError::BackupCorrupted { message: owned("Empty or invalid backup file") });
        }
    }
    Ok(ParsedBackup { entries: ents, skipped_lines: skips })
}

fn corrupt_header(line: &str) -> (r: RestoreError)
    ensures
        r matches RestoreError::BackupCorrupted { message } && message@
            == "Invalid header at line 1. Expected '# deadbranch backup', found: '"@ + line@ + "'"@,
{
    let m = cat("Invalid header at line 1. Expected '# deadbranch backup', found: '", line);
    let message = cat(m.as_str(), "'");
    RestoreError::BackupCorrupted { message }
}

/// `ls`, each line followed by `\n`.
pub open spec fn joined(ls: Seq<Seq<char>>) -> Seq<char>
    decreases ls.len(),
{
    if ls.len() == 0 {
        seq![]
    } else {
        joined(ls.drop_last()) + ls.last() + seq!['\n']
    }
}

/// The header of a manifest: its tag, when it was made, for which repository
/// and from which directory, how to use it, and a blank line.
pub open spec fn header_lines(created: Seq<char>, repo: Seq<char>, cwd: Seq<char>) -> Seq<
    Seq<char>,
> {
    seq![
        "# deadbranch backup"@,
        "# Created: "@ + created,
        "# Repository: "@ + repo,
        "# Working directory: "@ + cwd,
        "#"@,
        "# To restore a branch, run the git command shown"@,
        "#"@,
        seq![],
    ]
}

/// The lines recording one branch: its listed name as a comment, the command
/// that recreates it, a blank line.
pub open spec fn block_lines(listed: Seq<char>, name: Seq<char>, sha: Seq<char>) -> Seq<
    Seq<char>,
> {
    seq!["# "@ + listed, "git branch "@ + name + " "@ + sha, seq![]]
}

/// The lines of a manifest recording `bs`, each a (listed name, restore
/// name, commit) triple.
pub open spec fn manifest_lines(
    created: Seq<char>,
    repo: Seq<char>,
    cwd: Seq<char>,
    bs: Seq<(Seq<char>, Seq<char>, Seq<char>)>,
) -> Seq<Seq<char>>
    decreases bs.len(),
{
    if bs.len() == 0 {
        header_lines(created, repo, cwd)
    } else {
        manifest_lines(created, repo, cwd, bs.drop_last()) + block_lines(
            bs.last().0,
            bs.last().1,
            bs.last().2,
        )
    }
}

/// The commit recorded for branch `b`: the full id if it could be resolved,
/// otherwise the one listed with the branch.
pub open spec fn recorded_sha(b: Branch, resolved: Option<String>) -> Seq<char> {
    match resolved {
        Some(s) => s@,
        None => b.last_commit_sha@,
    }
}

/// The triples a manifest records for `branches`.
pub open spec fn branch_blocks(branches: Seq<Branch>, resolved: Seq<Option<String>>) -> Seq<
    (Seq<char>, Seq<char>, Seq<char>),
> {
    Seq::new(
        branches.len(),
        |i: int| (branches[i].name@, branches[i].short_spec(), recorded_sha(branches[i], resolved[i])),
    )
}

fn push_line(out: &mut String, line: &str)
    ensures
        final(out)@ == old(out)@ + line@ + seq!['\n'],
{
    proof {
        reveal_strlit("\n");
    }
    push_str(out, line);
    push_str(out, "\n");
}

/// The text of the manifest for `branches`, written at `created` for
/// repository `repo_name` from `working_dir`. `resolved[i]` is the full
/// commit id of `branches[i]` where it could be found; otherwise the id listed
/// with the branch is recorded. Remote-tracking branches are recorded under
/// their short name, so that they restore as local branches.
pub fn render_manifest(
    created: &str,
    repo_name: &str,
    working_dir: &str,
    branches: &[Branch],
    resolved: &[Option<String>],
) -> (r: String)
    requires
        resolved@.len() == branches@.len(),
    ensures
        r@ == joined(
            manifest_lines(created@, repo_name@, working_dir@, branch_blocks(branches@, resolved@)),
        ),
{
    let ghost bs = branch_blocks(branches@, resolved@);
    let ghost hl = header_lines(created@, repo_name@, working_dir@);
    let mut out = String::new();
    push_line(&mut out, "# deadbranch backup");
    let l2 = cat("# Created: ", created);
    push_line(&mut out, l2.as_str());
    let l3 = cat("# Repository: ", repo_name);
    push_line(&mut out, l3.as_str());
    let l4 = cat("# Working directory: ", working_dir);
    push_line(&mut out, l4.as_str());
    push_line(&mut out, "#");
    push_line(&mut out, "# To restore a branch, run the git command shown");
    push_line(&mut out, "#");
    proof {
        reveal_strlit("");
    }
    push_line(&mut out, "");
    proof {
        assert(bs.subrange(0, 0) =~= Seq::<(Seq<char>, Seq<char>, Seq<char>)>::empty());
    }
    assert(out@ == joined(hl)) by {
        assert(hl.subrange(0, 1).drop_last() =~= hl.subrange(0, 0));
        assert(hl.subrange(0, 2).drop_last() =~= hl.subrange(0, 1));
        assert(hl.subrange(0, 3).drop_last() =~= hl.subrange(0, 2));
        assert(hl.subrange(0, 4).drop_last() =~= hl.subrange(0, 3));
        assert(hl.subrange(0, 5).drop_last() =~= hl.subrange(0, 4));
        assert(hl.subrange(0, 6).drop_last() =~= hl.subrange(0, 5));
        assert(hl.subrange(0, 7).drop_last() =~= hl.subrange(0, 6));
        assert(hl.subrange(0, 8).drop_last() =~= hl.subrange(0, 7));
        assert(hl.subrange(0, 8) =~= hl);
        assert(joined(hl.subrange(0, 0)) =~= Seq::<char>::empty());
        assert(joined(hl.subrange(0, 1)) =~= hl[0] + seq!['\n']);
        assert(joined(hl.subrange(0, 2)) =~= hl[0] + seq!['\n'] + hl[1] + seq!['\n']);
        assert(joined(hl.subrange(0, 3)) =~= joined(hl.subrange(0, 2)) + hl[2] + seq!['\n']);
        assert(joined(hl.subrange(0, 4)) =~= joined(hl.subrange(0, 3)) + hl[3] + seq!['\n']);
        assert(joined(hl.subrange(0, 5)) =~= joined(hl.subrange(0, 4)) + hl[4] + seq!['\n']);
        assert(joined(hl.subrange(0, 6)) =~= joined(hl.subrange(0, 5)) + hl[5] + seq!['\n']);
        assert(joined(hl.subrange(0, 7)) =~= joined(hl.subrange(0, 6)) + hl[6] + seq!['\n']);
        assert(joined(hl.subrange(0, 8)) =~= joined(hl.subrange(0, 7)) + hl[7] + seq!['\n']);
    }
    let mut i: usize = 0;
    while i < branches.len()
        invariant
            i <= branches@.len(),
            resolved@.len() == branches@.len(),
            bs == branch_blocks(branches@, resolved@),
            out@ == joined(manifest_lines(created@, repo_name@, working_dir@, bs.subrange(0, i as int))),
        decreases branches.len() - i,
    {
        let b = &branches[i];
        let c1 = cat("# ", b.name.as_str());
        let sha: &str = match &resolved[i] {
            Some(s) => s.as_str(),
            None => b.last_commit_sha.as_str(),
        };
        let g1 = cat("git branch ", b.short_name());
        let g2 = cat(g1.as_str(), " ");
        let g3 = cat(g2.as_str(), sha);
        let ghost before = manifest_lines(created@, repo_name@, working_dir@, bs.subrange(0, i as int));
        let ghost out0 = out@;
        push_line(&mut out, c1.as_str());
        push_line(&mut out, g3.as_str());
        push_line(&mut out, "");
        proof {
            let bl = block_lines(bs[i as int].0, bs[i as int].1, bs[i as int].2);
            assert(bs.subrange(0, i + 1).drop_last() =~= bs.subrange(0, i as int));
            assert(bs.subrange(0, i + 1).last() == bs[i as int]);
            assert(bs[i as int] == (b.name@, b.short_spec(), sha@));
            assert(c1@ == bl[0]);
            assert(g3@ =~= bl[1]);
            let after = before + bl;
            let p1 = before.push(bl[0]);
            let p2 = p1.push(bl[1]);
            assert(after =~= p2.push(bl[2]));
            assert(p2.push(bl[2]).drop_last() =~= p2);
            assert(p2.drop_last() =~= p1);
            assert(p1.drop_last() =~= before);
            assert(joined(p1) == joined(before) + bl[0] + seq!['\n']);
            assert(joined(p2) == joined(p1) + bl[1] + seq!['\n']);
            assert(joined(p2.push(bl[2])) == joined(p2) + bl[2] + seq!['\n']);
            assert(manifest_lines(created@, repo_name@, working_dir@, bs.subrange(0, i + 1)) == after);
            reveal_strlit("");
            assert(""@ =~= bl[2]);
            assert(out@ =~= out0 + bl[0] + seq!['\n'] + bl[1] + seq!['\n'] + bl[2] + seq!['\n']);
            assert(out@ =~= joined(after));
        }
        i = i + 1;
    }
    assert(bs.subrange(0, branches@.len() as int) =~= bs);
    out
}

/// No `\n` in `s`.
pub open spec fn one_line(s: Seq<char>) -> bool {
    forall|j: int| 0 <= j < s.len() ==> s[j] != '\n'
}

/// A non-empty run of characters none of which is white space.
pub open spec fn is_word(s: Seq<char>) -> bool {
    s.len() > 0 && forall|j: int| 0 <= j < s.len() ==> !is_ws(#[trigger] s[j])
}

/// A line, its `\n`, and what follows.
pub proof fn lemma_lines_step(l: Seq<char>, y: Seq<char>, cur: Seq<char>)
    requires
        one_line(l),
    ensures
        lines_acc(l + seq!['\n'] + y, cur) == seq![strip_cr(cur + l)] + lines_acc(y, seq![]),
    decreases l.len(),
{
    let s = l + seq!['\n'] + y;
    if l.len() == 0 {
        assert(cur + l =~= cur);
        assert(sfx(s, 1) =~= y);
    } else {
        let l1 = sfx(l, 1);
        assert(s[0] == l[0]);
        assert(sfx(s, 1) =~= l1 + seq!['\n'] + y);
        lemma_lines_step(l1, y, cur.push(l[0]));
        assert(cur.push(l[0]) + l1 =~= cur + l);
    }
}

/// The lines of joined lines are those lines, less a final `\r` each.
pub proof fn lemma_lines_joined(ls: Seq<Seq<char>>, y: Seq<char>)
    requires
        forall|i: int| 0 <= i < ls.len() ==> one_line(#[trigger] ls[i]),
    ensures
        lines_of(joined(ls) + y) == ls.map_values(|l: Seq<char>| strip_cr(l)) + lines_of(y),
    decreases ls.len(),
{
    if ls.len() == 0 {
        assert(joined(ls) + y =~= y);
        assert(ls.map_values(|l: Seq<char>| strip_cr(l)) + lines_of(y) =~= lines_of(y));
    } else {
        let init = ls.drop_last();
        let last = ls.last();
        let y1 = last + seq!['\n'] + y;
        assert(joined(ls) + y =~= joined(init) + y1);
        assert(one_line(ls[ls.len() - 1]));
        lemma_lines_joined(init, y1);
        lemma_lines_step(last, y, seq![]);
        assert(Seq::<char>::empty() + last =~= last);
        assert(ls.map_values(|l: Seq<char>| strip_cr(l)) =~= init.map_values(|l: Seq<char>| strip_cr(l)).push(
            strip_cr(last),
        ));
        assert(init.map_values(|l: Seq<char>| strip_cr(l)) + (seq![strip_cr(last)] + lines_of(y))
            =~= ls.map_values(|l: Seq<char>| strip_cr(l)) + lines_of(y));
    }
}

/// A word absorbs into the word being read.
pub proof fn lemma_words_run(w: Seq<char>, rest: Seq<char>, cur: Seq<char>)
    requires
        forall|j: int| 0 <= j < w.len() ==> !is_ws(#[trigger] w[j]),
    ensures
        words_acc(w + rest, cur) == words_acc(rest, cur + w),
    decreases w.len(),
{
    if w.len() == 0 {
        assert(w + rest =~= rest);
        assert(cur + w =~= cur);
    } else {
        let w1 = sfx(w, 1);
        assert((w + rest)[0] == w[0]);
        assert(sfx(w + rest, 1) =~= w1 + rest);
        assert(!is_ws(w[0]));
        lemma_words_run(w1, rest, cur.push(w[0]));
        assert(cur.push(w[0]) + w1 =~= cur + w);
    }
}

/// A word, one space, and what follows.
pub proof fn lemma_words_then_space(w: Seq<char>, rest: Seq<char>)
    requires
        is_word(w),
    ensures
        words(w + seq![' '] + rest) == seq![w] + words(rest),
{
    lemma_words_run(w, seq![' '] + rest, seq![]);
    assert(w + seq![' '] + rest =~= w + (seq![' '] + rest));
    assert(Seq::<char>::empty() + w =~= w);
    let s = seq![' '] + rest;
    assert(s[0] == ' ');
    assert(sfx(s, 1) =~= rest);
}

/// The words of the command line recorded for a branch.
pub proof fn lemma_command_words(name: Seq<char>, sha: Seq<char>)
    requires
        is_word(name),
        is_word(sha),
    ensures
        words("git branch "@ + name + " "@ + sha) == seq!["git"@, "branch"@, name, sha],
{
    reveal_strlit("git branch ");
    reveal_strlit(" ");
    reveal_strlit("git");
    reveal_strlit("branch");
    let line = "git branch "@ + name + " "@ + sha;
    assert(line =~= "git"@ + seq![' '] + ("branch"@ + seq![' '] + (name + seq![' '] + sha)));
    lemma_words_then_space("git"@, "branch"@ + seq![' '] + (name + seq![' '] + sha));
    lemma_words_then_space("branch"@, name + seq![' '] + sha);
    lemma_words_then_space(name, sha);
    lemma_words_run(sha, seq![], seq![]);
    assert(sha + Seq::<char>::empty() =~= sha);
    assert(Seq::<char>::empty() + sha =~= sha);
    assert(words(sha) == seq![sha]);
    assert(seq!["git"@] + (seq!["branch"@] + (seq![name] + seq![sha])) =~= seq![
        "git"@,
        "branch"@,
        name,
        sha,
    ]);
}

/// A line that begins with `#` and one more character stays a comment when
/// a final `\r` is dropped.
pub proof fn lemma_comment_kept(a: Seq<char>, x: Seq<char>)
    requires
        a.len() >= 2,
        a[0] == '#',
    ensures
        ignored_line(strip_cr(a + x)),
{
    reveal_strlit("#");
    let l = strip_cr(a + x);
    assert(l[0] == '#');
    assert(l.subrange(0, 1) =~= "#"@);
}

/// Lines that are all comments or blank hold no entry and no skipped line.
pub proof fn lemma_all_ignored(ls: Seq<Seq<char>>, n: int)
    requires
        forall|i: int| 0 <= i < ls.len() ==> ignored_line(#[trigger] ls[i]),
    ensures
        entries_of(ls) == Seq::<(Seq<char>, Seq<char>)>::empty(),
        skipped_of(ls, n) == Seq::<(int, Seq<char>)>::empty(),
    decreases ls.len(),
{
    if ls.len() > 0 {
        assert(ignored_line(ls[0]));
        assert forall|i: int| 0 <= i < ls.drop_first().len() implies ignored_line(
            #[trigger] ls.drop_first()[i],
        ) by {
            assert(ls.drop_first()[i] == ls[i + 1]);
        }
        lemma_all_ignored(ls.drop_first(), n + 1);
        assert(entries_of(ls) =~= Seq::<(Seq<char>, Seq<char>)>::empty());
        assert(skipped_of(ls, n) =~= Seq::<(int, Seq<char>)>::empty());
    }
}

/// The header lines hold no line break, and after the first they are all
/// comments or blank once read back.
pub proof fn lemma_header_lines(created: Seq<char>, repo: Seq<char>, cwd: Seq<char>)
    requires
        one_line(created),
        one_line(repo),
        one_line(cwd),
    ensures
        forall|i: int| 0 <= i < 8 ==> one_line(#[trigger] header_lines(created, repo, cwd)[i]),
        strip_cr(header_lines(created, repo, cwd)[0]) == "# deadbranch backup"@,
        forall|i: int|
            1 <= i < 8 ==> ignored_line(
                strip_cr(#[trigger] header_lines(created, repo, cwd)[i]),
            ),
{
    reveal_strlit("# deadbranch backup");
    reveal_strlit("# Created: ");
    reveal_strlit("# Repository: ");
    reveal_strlit("# Working directory: ");
    reveal_strlit("#");
    reveal_strlit("# To restore a branch, run the git command shown");
    let h = header_lines(created, repo, cwd);
    assert forall|i: int| 0 <= i < 8 implies one_line(#[trigger] h[i]) by {
        if i == 1 {
            assert forall|j: int| 0 <= j < h[1].len() implies h[1][j] != '\n' by {
                if j >= 11 {
                    assert(h[1][j] == created[j - 11]);
                }
            }
        } else if i == 2 {
            assert forall|j: int| 0 <= j < h[2].len() implies h[2][j] != '\n' by {
                if j >= 14 {
                    assert(h[2][j] == repo[j - 14]);
                }
            }
        } else if i == 3 {
            assert forall|j: int| 0 <= j < h[3].len() implies h[3][j] != '\n' by {
                if j >= 21 {
                    assert(h[3][j] == cwd[j - 21]);
                }
            }
        }
    }
    lemma_comment_kept("# Created: "@, created);
    lemma_comment_kept("# Repository: "@, repo);
    lemma_comment_kept("# Working directory: "@, cwd);
    lemma_comment_kept("# To restore a branch, run the git command shown"@, seq![]);
    assert("# To restore a branch, run the git command shown"@ + Seq::<char>::empty()
        =~= "# To restore a branch, run the git command shown"@);
    assert(strip_cr("#"@) == "#"@);
    assert("#"@.subrange(0, 1) =~= "#"@);
    assert(strip_cr(seq![]) =~= Seq::<char>::empty());
}

/// The lines recording one branch hold no line break, and read back as
/// that one entry.
pub proof fn lemma_block_lines(listed: Seq<char>, name: Seq<char>, sha: Seq<char>, n: int)
    requires
        one_line(listed),
        is_word(name),
        is_word(sha),
    ensures
        forall|i: int| 0 <= i < 3 ==> one_line(#[trigger] block_lines(listed, name, sha)[i]),
        entries_of(block_lines(listed, name, sha).map_values(|l: Seq<char>| strip_cr(l))) == seq![
            (name, sha),
        ],
        skipped_of(block_lines(listed, name, sha).map_values(|l: Seq<char>| strip_cr(l)), n)
            == Seq::<(int, Seq<char>)>::empty(),
{
    reveal_strlit("# ");
    reveal_strlit("git branch ");
    reveal_strlit(" ");
    reveal_strlit("#");
    let b = block_lines(listed, name, sha);
    let cmd = "git branch "@ + name + " "@ + sha;
    assert(b[1] == cmd);
    assert forall|j: int| 0 <= j < b[0].len() implies b[0][j] != '\n' by {
        if j >= 2 {
            assert(b[0][j] == listed[j - 2]);
        }
    }
    assert forall|j: int| 0 <= j < cmd.len() implies cmd[j] != '\n' by {
        if 11 <= j < 11 + name.len() {
            assert(cmd[j] == name[j - 11]);
            assert(!is_ws(name[j - 11]));
        } else if j >= 12 + name.len() {
            assert(cmd[j] == sha[j - 12 - name.len()]);
            assert(!is_ws(sha[j - 12 - name.len()]));
        }
    }
    assert(b[2].len() == 0);
    let m = b.map_values(|l: Seq<char>| strip_cr(l));
    lemma_comment_kept("# "@, listed);
    assert(cmd[cmd.len() - 1] == sha[sha.len() - 1]);
    assert(!is_ws(sha[sha.len() - 1]));
    assert(strip_cr(cmd) == cmd);
    assert(m[1] == cmd);
    assert(m[2] =~= Seq::<char>::empty());
    lemma_command_words(name, sha);
    reveal_strlit("git");
    reveal_strlit("branch");
    assert(cmd[0] == 'g');
    assert(!has_prefix(cmd, "#"@)) by {
        assert(cmd.subrange(0, 1)[0] != "#"@[0]);
    }
    assert(!is_ws(cmd[0]));
    assert(!ignored_line(cmd));
    assert(cmd.subrange(0, 11) =~= "git branch "@);
    assert(entry_line(cmd));
    assert(ignored_line(m[2]));
    let t = m.drop_first();
    assert(t[0] == cmd);
    assert(t.drop_first() =~= seq![m[2]]);
    lemma_all_ignored(seq![m[2]], n + 2);
    assert(seq![m[2]].drop_first() =~= Seq::<Seq<char>>::empty());
    assert(entries_of(t) =~= seq![(name, sha)] + entries_of(seq![m[2]]));
    assert(entries_of(m) =~= entries_of(t));
    assert(skipped_of(t, n + 1) =~= skipped_of(seq![m[2]], n + 2));
    assert(skipped_of(m, n) =~= skipped_of(t, n + 1));
}

/// The (restore name, commit) pairs of recorded triples.
pub open spec fn recorded_entries(bs: Seq<(Seq<char>, Seq<char>, Seq<char>)>) -> Seq<
    (Seq<char>, Seq<char>),
> {
    bs.map_values(|b: (Seq<char>, Seq<char>, Seq<char>)| (b.1, b.2))
}

/// Triples that can be written and read back: no line break in the listed
/// name, and restore name and commit single words.
pub open spec fn writable(bs: Seq<(Seq<char>, Seq<char>, Seq<char>)>) -> bool {
    forall|i: int|
        0 <= i < bs.len() ==> one_line(#[trigger] bs[i].0) && is_word(bs[i].1) && is_word(bs[i].2)
}

proof fn lemma_manifest_lines_read(
    created: Seq<char>,
    repo: Seq<char>,
    cwd: Seq<char>,
    bs: Seq<(Seq<char>, Seq<char>, Seq<char>)>,
)
    requires
        one_line(created),
        one_line(repo),
        one_line(cwd),
        writable(bs),
    ensures
        manifest_lines(created, repo, cwd, bs).len() >= 8,
        forall|i: int|
            0 <= i < manifest_lines(created, repo, cwd, bs).len() ==> one_line(
                #[trigger] manifest_lines(created, repo, cwd, bs)[i],
            ),
        strip_cr(manifest_lines(created, repo, cwd, bs)[0]) == "# deadbranch backup"@,
        entries_of(
            manifest_lines(created, repo, cwd, bs).map_values(|l: Seq<char>| strip_cr(l)).drop_first(),
        ) == recorded_entries(bs),
        skipped_of(
            manifest_lines(created, repo, cwd, bs).map_values(|l: Seq<char>| strip_cr(l)).drop_first(),
            2,
        ) == Seq::<(int, Seq<char>)>::empty(),
    decreases bs.len(),
{
    let ml = manifest_lines(created, repo, cwd, bs);
    let m = ml.map_values(|l: Seq<char>| strip_cr(l));
    if bs.len() == 0 {
        lemma_header_lines(created, repo, cwd);
        assert forall|i: int| 0 <= i < m.drop_first().len() implies ignored_line(
            #[trigger] m.drop_first()[i],
        ) by {
            assert(m.drop_first()[i] == strip_cr(ml[i + 1]));
        }
        lemma_all_ignored(m.drop_first(), 2);
        assert(recorded_entries(bs) =~= Seq::<(Seq<char>, Seq<char>)>::empty());
    } else {
        let init = bs.drop_last();
        let x = bs.last();
        assert(writable(init)) by {
            assert forall|i: int| 0 <= i < init.len() implies one_line(#[trigger] init[i].0)
                && is_word(init[i].1) && is_word(init[i].2) by {
                assert(init[i] == bs[i]);
            }
        }
        assert(one_line(bs[bs.len() - 1].0));
        lemma_manifest_lines_read(created, repo, cwd, init);
        let a = manifest_lines(created, repo, cwd, init);
        let bl = block_lines(x.0, x.1, x.2);
        lemma_block_lines(x.0, x.1, x.2, 2 + a.len() - 1);
        assert(ml == a + bl);
        let am = a.map_values(|l: Seq<char>| strip_cr(l));
        let bm = bl.map_values(|l: Seq<char>| strip_cr(l));
        assert(m =~= am + bm);
        assert(m.drop_first() =~= am.drop_first() + bm);
        lemma_entries_concat(am.drop_first(), bm);
        lemma_skipped_concat(am.drop_first(), bm, 2);
        assert(recorded_entries(bs) =~= recorded_entries(init) + seq![(x.1, x.2)]);
        assert(skipped_of(m.drop_first(), 2) =~= Seq::<(int, Seq<char>)>::empty());
        assert forall|i: int| 0 <= i < ml.len() implies one_line(#[trigger] ml[i]) by {
            if i < a.len() {
                assert(ml[i] == a[i]);
            } else {
                assert(ml[i] == bl[i - a.len()]);
            }
        }
        assert(ml[0] == a[0]);
    }
}

/// A manifest reads back as exactly the (restore name, commit) pairs it was
/// written with, in order, with no skipped line, provided that no header
/// value and no listed name holds a line break and every restore name and
/// commit is a single word.
pub proof fn lemma_manifest_round_trip(
    created: Seq<char>,
    repo: Seq<char>,
    cwd: Seq<char>,
    bs: Seq<(Seq<char>, Seq<char>, Seq<char>)>,
)
    requires
        one_line(created),
        one_line(repo),
        one_line(cwd),
        writable(bs),
    ensures
        parse_spec(joined(manifest_lines(created, repo, cwd, bs))) == Ok::<_, Seq<char>>(
            (recorded_entries(bs), Seq::<(int, Seq<char>)>::empty()),
        ),
{
    reveal_strlit("# deadbranch backup");
    let ml = manifest_lines(created, repo, cwd, bs);
    lemma_manifest_lines_read(created, repo, cwd, bs);
    lemma_lines_joined(ml, seq![]);
    assert(joined(ml) + Seq::<char>::empty() =~= joined(ml));
    assert(lines_acc(Seq::<char>::empty(), seq![]) =~= Seq::<Seq<char>>::empty());
    let m = ml.map_values(|l: Seq<char>| strip_cr(l));
    assert(m + Seq::<Seq<char>>::empty() =~= m);
    assert(lines_of(joined(ml)) == m);
    assert(m[0] == "# deadbranch backup"@);
    assert(m[0].subrange(0, 19) =~= "# deadbranch backup"@);
}

/// The lines of `content` (see [`lines_of`]).
pub fn split_lines(content: &str) -> (r: Vec<String>)
    ensures
        r@.map_values(|l: String| l@) == lines_of(content@),
{
    let c = chars_of(content);
    let mut out: Vec<String> = Vec::new();
    let mut start: usize = 0;
    let mut i: usize = 0;
    assert(sfx(c@, 0) =~= c@);
    assert(c@.subrange(0, 0) =~= Seq::<char>::empty());
    assert(out@.map_values(|l: String| l@) + lines_of(content@) =~= lines_of(content@));
    while i < c.len()
        invariant
            c@ == content@,
            start <= i <= c.len(),
            lines_of(content@) == out@.map_values(|l: String| l@) + lines_acc(
                sfx(c@, i as int),
                c@.subrange(start as int, i as int),
            ),
        decreases c.len() - i,
    {
        let ghost cur = c@.subrange(start as int, i as int);
        let ghost rest = sfx(c@, i as int);
        assert(sfx(rest, 1) =~= sfx(c@, i + 1));
        if c[i] == '\n' {
            let end = if i > start && c[i - 1] == '\r' {
                i - 1
            } else {
                i
            };
            let line = owned(content.substring_char(start, end));
            assert(line@ =~= strip_cr(cur));
            let ghost before = out@;
            out.push(line);
            assert(out@.map_values(|l: String| l@) =~= before.map_values(|l: String| l@).push(line@));
            assert(c@.subrange(i + 1, i + 1) =~= Seq::<char>::empty());
            start = i + 1;
        } else {
            assert(cur.push(c@[i as int]) =~= c@.subrange(start as int, i + 1));
        }
        i = i + 1;
    }
    assert(sfx(c@, c.len() as int) =~= Seq::<char>::empty());
    if start < c.len() {
        let line = owned(content.substring_char(start, c.len()));
        let ghost before = out@;
        out.push(line);
        assert(out@.map_values(|l: String| l@) =~= before.map_values(|l: String| l@).push(line@));
    } else {
        assert(out@.map_values(|l: String| l@) + lines_acc(Seq::<char>::empty(), c@.subrange(start as int, start as int)) =~= out@.map_values(|l: String| l@));
    }
    out
}

} // verus!
