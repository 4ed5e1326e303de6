//! Pure parsers for git plumbing/porcelain output. No I/O here — everything is
//! unit-testable against fixture strings. Each parser is stated as a fold over
//! the tokens or lines of its input.

use vstd::prelude::*;

use super::types::{
    empty_file_diff, file_views, opt_file_view, opt_hunk_view, FileDiff, FileDiffView, Hunk,
    HunkView, LogEntry, LogEntryView, StashInfo, StashInfoView,
    empty_branch_info, BranchInfo, BranchInfoView,
};
use crate::text::{
    chars_of, eq_chars, has_suffix, lemma_split_char_len, parse_usize, parse_usize_exec, strip_suffix, has_prefix, lines, lines_exec, parse_u32, parse_u32_exec, push_char, starts_with_at, split_once_str, parse_i64, parse_i64_exec, seqs, split_char,
    split_char_exec, split_once, split_once_exec, split_whitespace, split_whitespace_exec,
    starts_with, starts_with_str, string_of, strip_prefix, strip_prefix_str, strs, subvec,
};

verus! {

// ---------------------------------------------------------------------------
// git status --porcelain=v2 --branch -z
// ---------------------------------------------------------------------------

/// Result of parsing `git status --porcelain=v2 --branch -z`.
#[derive(Debug, PartialEq, Eq)]
pub struct StatusV2 {
    pub branch: BranchInfo,
    pub untracked: Vec<String>,
    pub unmerged: Vec<String>,
}

#[verifier::ext_equal]
pub struct StatusV2View {
    pub branch: BranchInfoView,
    pub untracked: Seq<Seq<char>>,
    pub unmerged: Seq<Seq<char>>,
}

impl View for StatusV2 {
    type V = StatusV2View;

    open spec fn view(&self) -> StatusV2View {
        StatusV2View {
            branch: self.branch@,
            untracked: strs(self.untracked@),
            unmerged: strs(self.unmerged@),
        }
    }
}

/// Skip `n` space-separated fields and return the remainder of the line.
pub open spec fn nth_field_rest_spec(s: Seq<char>, n: nat) -> Option<Seq<char>>
    decreases n,
{
    if n == 0 {
        Some(s)
    } else {
        match split_once(s, seq![' ']) {
            Some((_, rest)) => nth_field_rest_spec(rest, (n - 1) as nat),
            None => None,
        }
    }
}

/// One `+N`/`-N` part of a `branch.ab` header.
pub open spec fn ab_step(b: BranchInfoView, part: Seq<char>) -> BranchInfoView {
    match strip_prefix(part, seq!['+']) {
        Some(n) => BranchInfoView {
            ahead: match parse_i64(n) {
                Some(v) => v,
                None => 0,
            },
            ..b
        },
        None => match strip_prefix(part, seq!['-']) {
            Some(n) => BranchInfoView {
                behind: match parse_i64(n) {
                    Some(v) => v,
                    None => 0,
                },
                ..b
            },
            None => b,
        },
    }
}

pub open spec fn ab_fold(b: BranchInfoView, parts: Seq<Seq<char>>) -> BranchInfoView
    decreases parts.len(),
{
    if parts.len() == 0 {
        b
    } else {
        ab_step(ab_fold(b, parts.drop_last()), parts.last())
    }
}

/// The effect of one `# branch.*` header (after the `# `) on the branch info.
pub open spec fn branch_header_spec(b: BranchInfoView, rest: Seq<char>) -> BranchInfoView {
    match strip_prefix(rest, "branch.oid "@) {
        Some(v) => if v == "(initial)"@ {
            b
        } else {
            BranchInfoView { oid: Some(v), ..b }
        },
        None => match strip_prefix(rest, "branch.head "@) {
            Some(v) => if v == "(detached)"@ {
                BranchInfoView { detached: true, ..b }
            } else {
                BranchInfoView { head: Some(v), ..b }
            },
            None => match strip_prefix(rest, "branch.upstream "@) {
                Some(v) => BranchInfoView { upstream: Some(v), ..b },
                None => match strip_prefix(rest, "branch.ab "@) {
                    Some(v) => ab_fold(b, split_whitespace(v)),
                    None => b,
                },
            },
        },
    }
}

pub open spec fn empty_status() -> StatusV2View {
    StatusV2View { branch: empty_branch_info(), untracked: Seq::empty(), unmerged: Seq::empty() }
}

/// One NUL-separated token; the flag says the next non-empty token is the
/// original path of a rename and must be skipped.
pub open spec fn status_step(st: (StatusV2View, bool), tok: Seq<char>) -> (StatusV2View, bool) {
    let (v, skip) = st;
    if tok.len() == 0 {
        (v, skip)
    } else if skip {
        (v, false)
    } else {
        match strip_prefix(tok, "# "@) {
            Some(rest) => (StatusV2View { branch: branch_header_spec(v.branch, rest), ..v }, false),
            None => match strip_prefix(tok, "? "@) {
                Some(rest) => (StatusV2View { untracked: v.untracked.push(rest), ..v }, false),
                None => if starts_with(tok, "1 "@) {
                    (v, false)
                } else if starts_with(tok, "2 "@) {
                    (v, true)
                } else {
                    match strip_prefix(tok, "u "@) {
                        Some(rest) => match nth_field_rest_spec(rest, 9) {
                            Some(path) => (
                                StatusV2View { unmerged: v.unmerged.push(path), ..v },
                                false,
                            ),
                            None => (v, false),
                        },
                        None => (v, false),
                    }
                },
            },
        }
    }
}

pub open spec fn status_fold(toks: Seq<Seq<char>>) -> (StatusV2View, bool)
    decreases toks.len(),
{
    if toks.len() == 0 {
        (empty_status(), false)
    } else {
        status_step(status_fold(toks.drop_last()), toks.last())
    }
}

/// What `git status --porcelain=v2 --branch -z` output says.
pub open spec fn status_v2_spec(output: Seq<char>) -> StatusV2View {
    status_fold(split_char(output, '\0')).0
}

/// Token `i` is the original path of a rename: it is non-empty and the
/// last non-empty token before it is a rename entry (`2 ...`) that is not
/// itself such a path.
pub open spec fn is_orig_path(toks: Seq<Seq<char>>, i: int) -> bool
    decreases i, 1int,
{
    if i < 0 || i >= toks.len() {
        false
    } else {
        toks[i].len() > 0 && last_is_rename(toks, i - 1)
    }
}

/// The last non-empty token at or before `j` is a rename entry that is not
/// itself a rename's original path.
pub open spec fn last_is_rename(toks: Seq<Seq<char>>, j: int) -> bool
    decreases j + 1, 0int,
{
    if j < 0 || j >= toks.len() {
        false
    } else if toks[j].len() == 0 {
        last_is_rename(toks, j - 1)
    } else {
        starts_with(toks[j], "2 "@) && !is_orig_path(toks, j)
    }
}

/// The untracked paths among the first `n` tokens: each `? ` entry that is
/// not a rename's original path, without its `? `, in order.
pub open spec fn untracked_tokens(toks: Seq<Seq<char>>, n: int) -> Seq<Seq<char>>
    decreases n,
{
    if n <= 0 || n > toks.len() {
        Seq::empty()
    } else {
        let prev = untracked_tokens(toks, n - 1);
        if !is_orig_path(toks, n - 1) && starts_with(toks[n - 1], "? "@) {
            prev.push(toks[n - 1].subrange(2, toks[n - 1].len() as int))
        } else {
            prev
        }
    }
}

proof fn lemma_untracked_prefix(toks: Seq<Seq<char>>, n: int)
    requires
        0 <= n <= toks.len(),
    ensures
        status_fold(toks.take(n)).0.untracked == untracked_tokens(toks, n),
        status_fold(toks.take(n)).1 == last_is_rename(toks, n - 1),
    decreases n,
{
    reveal_strlit("# ");
    reveal_strlit("? ");
    reveal_strlit("1 ");
    reveal_strlit("2 ");
    reveal_strlit("u ");
    if n == 0 {
        assert(toks.take(0) =~= Seq::<Seq<char>>::empty());
    } else {
        lemma_untracked_prefix(toks, n - 1);
        let s = toks.take(n);
        assert(s.drop_last() =~= toks.take(n - 1));
        assert(s.last() == toks[n - 1]);
        let tok = toks[n - 1];
        assert(is_orig_path(toks, n - 1) == (tok.len() > 0 && last_is_rename(toks, n - 2)));
        assert(last_is_rename(toks, n - 1) == if tok.len() == 0 {
            last_is_rename(toks, n - 2)
        } else {
            starts_with(tok, "2 "@) && !is_orig_path(toks, n - 1)
        });
        if tok.len() > 0 {
            if starts_with(tok, "# "@) {
                assert(tok.subrange(0, 2)[0] == '#');
            }
            if starts_with(tok, "? "@) {
                assert(tok.subrange(0, 2)[0] == '?');
                assert(strip_prefix(tok, "? "@) == Some(tok.subrange(2, tok.len() as int)));
            }
            if starts_with(tok, "1 "@) {
                assert(tok.subrange(0, 2)[0] == '1');
            }
            if starts_with(tok, "u "@) {
                assert(tok.subrange(0, 2)[0] == 'u');
            }
            if starts_with(tok, "2 "@) {
                assert(tok.subrange(0, 2)[0] == '2');
            }
        }
    }
}

proof fn lemma_untracked_from(toks: Seq<Seq<char>>, n: int)
    requires
        0 <= n <= toks.len(),
    ensures
        forall|k: int|
            #![trigger untracked_tokens(toks, n)[k]]
            0 <= k < untracked_tokens(toks, n).len() ==> exists|i: int|
                0 <= i < n && starts_with(#[trigger] toks[i], "? "@) && !is_orig_path(toks, i)
                    && untracked_tokens(toks, n)[k] == toks[i].subrange(2, toks[i].len() as int),
    decreases n,
{
    if n > 0 {
        lemma_untracked_from(toks, n - 1);
        let prev = untracked_tokens(toks, n - 1);
        let cur = untracked_tokens(toks, n);
        assert forall|k: int| #![trigger cur[k]] 0 <= k < cur.len() implies exists|i: int|
            0 <= i < n && starts_with(#[trigger] toks[i], "? "@) && !is_orig_path(toks, i) && cur[k]
                == toks[i].subrange(2, toks[i].len() as int) by {
            if k < prev.len() {
                assert(cur[k] == prev[k]);
            } else {
                assert(starts_with(toks[n - 1], "? "@));
            }
        }
    }
}

/// Reading `git status --porcelain=v2 -z`: the untracked paths are exactly
/// the `? ` entries (a rename's original path is never one), each without
/// its `? `, in the order git printed them; so there are as many as such
/// entries.
pub proof fn law_status_untracked(output: Seq<char>)
    ensures
        ({
            let toks = split_char(output, '\0');
            &&& status_v2_spec(output).untracked == untracked_tokens(toks, toks.len() as int)
            &&& forall|k: int|
                #![trigger status_v2_spec(output).untracked[k]]
                0 <= k < status_v2_spec(output).untracked.len() ==> exists|i: int|
                    0 <= i < toks.len() && starts_with(#[trigger] toks[i], "? "@) && !is_orig_path(toks, i)
                        && status_v2_spec(output).untracked[k] == toks[i].subrange(2, toks[i].len() as int)
        }),
{
    let toks = split_char(output, '\0');
    lemma_untracked_prefix(toks, toks.len() as int);
    assert(toks.take(toks.len() as int) =~= toks);
    lemma_untracked_from(toks, toks.len() as int);
}


/// Skip `n` space-separated fields and return the remainder of the line.
fn nth_field_rest(s: &Vec<char>, n: usize) -> (r: Option<Vec<char>>)
    ensures
        match r {
            Some(v) => nth_field_rest_spec(s@, n as nat) == Some(v@),
            None => nth_field_rest_spec(s@, n as nat) is None,
        },
{
    let mut rest = subvec(s, 0, s.len());
    assert(s@.subrange(0, s@.len() as int) =~= s@);
    let mut k: usize = 0;
    let sp = vec![' '];
    assert(sp@ =~= seq![' ']);
    while k < n
        invariant
            k <= n,
            sp@ == seq![' '],
            nth_field_rest_spec(s@, n as nat) == nth_field_rest_spec(rest@, (n - k) as nat),
        decreases n - k,
    {
        match split_once_exec(&rest, &sp) {
            Some((_, r)) => {
                rest = r;
            },
            None => {
                return None;
            },
        }
        k += 1;
    }
    Some(rest)
}

/// Apply one `# branch.*` header line (after the `# `).
fn parse_branch_header(rest: &Vec<char>, branch: &mut BranchInfo)
    ensures
        final(branch)@ == branch_header_spec(old(branch)@, rest@),
{
    if let Some(v) = strip_prefix_str(rest, "branch.oid ") {
        let initial = chars_of("(initial)");
        if !eq_chars(&v, &initial) {
            branch.oid = Some(string_of(&v));
        }
    } else if let Some(v) = strip_prefix_str(rest, "branch.head ") {
        let detached = chars_of("(detached)");
        if eq_chars(&v, &detached) {
            branch.detached = true;
        } else {
            branch.head = Some(string_of(&v));
        }
    } else if let Some(v) = strip_prefix_str(rest, "branch.upstream ") {
        branch.upstream = Some(string_of(&v));
    } else if let Some(v) = strip_prefix_str(rest, "branch.ab ") {
        let parts = split_whitespace_exec(&v);
        let ghost start = branch@;
        let mut i: usize = 0;
        let plus = vec!['+'];
        let minus = vec!['-'];
        assert(plus@ =~= seq!['+']);
        assert(minus@ =~= seq!['-']);
        assert(seqs(parts@).subrange(0, 0) =~= Seq::<Seq<char>>::empty());
        while i < parts.len()
            invariant
                i <= parts.len(),
                plus@ == seq!['+'],
                minus@ == seq!['-'],
                seqs(parts@) == split_whitespace(v@),
                start == old(branch)@,
                branch@ == ab_fold(start, seqs(parts@).subrange(0, i as int)),
            decreases parts.len() - i,
        {
            let part = &parts[i];
            proof {
                assert(seqs(parts@).subrange(0, i + 1).drop_last() =~= seqs(parts@).subrange(
                    0,
                    i as int,
                ));
                assert(seqs(parts@).subrange(0, i + 1).last() == part@);
            }
            if has_prefix(part, &plus) {
                let n = subvec(part, 1, part.len());
                branch.ahead = match parse_i64_exec(&n) {
                    Some(x) => x,
                    None => 0,
                };
            } else if has_prefix(part, &minus) {
                let n = subvec(part, 1, part.len());
                branch.behind = match parse_i64_exec(&n) {
                    Some(x) => x,
                    None => 0,
                };
            }
            i += 1;
        }
        assert(seqs(parts@).subrange(0, parts@.len() as int) =~= seqs(parts@));
    }
}

/// Parse `git status --porcelain=v2 --branch -z`: branch headers, untracked
/// and unmerged paths (changed entries come from `git diff` instead).
pub fn parse_status_v2(output: &str) -> (st: StatusV2)
    ensures
        st@ == status_v2_spec(output@),
{
    let text = chars_of(output);
    let toks = split_char_exec(&text, '\0');
    let mut st = StatusV2 {
        branch: BranchInfo::default(),
        untracked: Vec::new(),
        unmerged: Vec::new(),
    };
    let mut skip = false;
    let mut i: usize = 0;
    assert(seqs(toks@).subrange(0, 0) =~= Seq::<Seq<char>>::empty());
    assert(st@.untracked =~= Seq::<Seq<char>>::empty());
    assert(st@.unmerged =~= Seq::<Seq<char>>::empty());
    while i < toks.len()
        invariant
            i <= toks.len(),
            seqs(toks@) == split_char(text@, '\0'),
            status_fold(seqs(toks@).subrange(0, i as int)) == (st@, skip),
        decreases toks.len() - i,
    {
        let tok = &toks[i];
        proof {
            assert(seqs(toks@).subrange(0, i + 1).drop_last() =~= seqs(toks@).subrange(
                0,
                i as int,
            ));
            assert(seqs(toks@).subrange(0, i + 1).last() == tok@);
        }
        if tok.len() == 0 {
        } else if skip {
            skip = false;
        } else if let Some(rest) = strip_prefix_str(tok, "# ") {
            parse_branch_header(&rest, &mut st.branch);
        } else if let Some(rest) = strip_prefix_str(tok, "? ") {
            let ghost before = st.untracked@;
            st.untracked.push(string_of(&rest));
            assert(strs(st.untracked@) =~= strs(before).push(rest@));
        } else if starts_with_str(tok, "1 ") {
            // Ordinary changed entry: 8 fixed fields, then the path.
            // We build diffs from `git diff`, so nothing to record here.
        } else if starts_with_str(tok, "2 ") {
            // Rename/copy entry: the original path follows as its own
            // NUL-separated token — skip it.
            skip = true;
        } else if let Some(rest) = strip_prefix_str(tok, "u ") {
            if let Some(path) = nth_field_rest(&rest, 9) {
                let ghost before = st.unmerged@;
                st.unmerged.push(string_of(&path));
                assert(strs(st.unmerged@) =~= strs(before).push(path@));
            }
        }
        // "! " (ignored entries) are skipped.
        i += 1;
    }
    assert(seqs(toks@).subrange(0, toks@.len() as int) =~= seqs(toks@));
    st
}

// ---------------------------------------------------------------------------
// git diff (unified)
// ---------------------------------------------------------------------------

/// The value of a `\x` escape inside a quoted path.
pub open spec fn escaped(c: char) -> char {
    if c == 'n' {
        '\n'
    } else if c == 't' {
        '\t'
    } else {
        c
    }
}

/// Backslash escapes resolved; a lone trailing backslash is dropped.
pub open spec fn unescape(s: Seq<char>) -> Seq<char>
    decreases s.len(),
{
    if s.len() == 0 {
        s
    } else if s[0] == '\\' {
        if s.len() == 1 {
            Seq::empty()
        } else {
            seq![escaped(s[1])] + unescape(s.subrange(2, s.len() as int))
        }
    } else {
        seq![s[0]] + unescape(s.drop_first())
    }
}

/// Minimal unquoting of git-quoted paths (`"path with \"quotes\""`).
pub open spec fn unquote_spec(s: Seq<char>) -> Seq<char> {
    if s.len() >= 2 && s[0] == '"' && s.last() == '"' {
        unescape(s.subrange(1, s.len() - 1))
    } else {
        s
    }
}

/// `a,b` or `a` (count 1).
pub open spec fn parse_pair(s: Seq<char>) -> Option<(u32, u32)> {
    match split_once(s, seq![',']) {
        Some((a, b)) => match (parse_u32(a), parse_u32(b)) {
            (Some(x), Some(y)) => Some((x, y)),
            _ => None,
        },
        None => match parse_u32(s) {
            Some(x) => Some((x, 1u32)),
            None => None,
        },
    }
}

/// `@@ -a,b +c,d @@ ctx` (counts default to 1 when omitted).
pub open spec fn hunk_header_spec(line: Seq<char>) -> Option<HunkView> {
    match strip_prefix(line, "@@ -"@) {
        None => None,
        Some(rest) => match split_once(rest, " +"@) {
            None => None,
            Some((old, rest2)) => match split_once(rest2, " @@"@) {
                None => None,
                Some((new, _)) => match (parse_pair(old), parse_pair(new)) {
                    (Some((os, oc)), Some((ns, nc))) => Some(
                        HunkView {
                            old_start: os,
                            old_count: oc,
                            new_start: ns,
                            new_count: nc,
                            header: line,
                            lines: Seq::empty(),
                        },
                    ),
                    _ => None,
                },
            },
        },
    }
}

/// Parser state between lines: finished files, the file being read and
/// the hunk being read.
#[verifier::ext_equal]
pub struct DiffState {
    pub files: Seq<FileDiffView>,
    pub cur: Option<FileDiffView>,
    pub hunk: Option<HunkView>,
}

pub open spec fn empty_diff_state() -> DiffState {
    DiffState { files: Seq::empty(), cur: None, hunk: None }
}

/// Move a finished hunk into the current file (the hunk is cleared either way).
pub open spec fn flush_hunk(st: DiffState) -> DiffState {
    match (st.cur, st.hunk) {
        (Some(f), Some(h)) => DiffState {
            files: st.files,
            cur: Some(FileDiffView { hunks: f.hunks.push(h), ..f }),
            hunk: None,
        },
        _ => DiffState { hunk: None, ..st },
    }
}

/// Move a finished file into the list.
pub open spec fn flush_file(st: DiffState) -> Seq<FileDiffView> {
    match st.cur {
        Some(f) => st.files.push(f),
        None => st.files,
    }
}

pub open spec fn is_hunk_line(line: Seq<char>) -> bool {
    line.len() > 0 && (line[0] == ' ' || line[0] == '+' || line[0] == '-' || line[0] == '\\')
}

/// How one header line changes the file being read.
pub open spec fn file_header_step(fd: FileDiffView, line: Seq<char>) -> FileDiffView {
    if starts_with(line, "new file mode"@) {
        FileDiffView { is_new: true, ..fd }
    } else if starts_with(line, "deleted file mode"@) {
        FileDiffView { is_deleted: true, ..fd }
    } else {
        match strip_prefix(line, "rename from "@) {
            Some(p) => FileDiffView { old_path: Some(unquote_spec(p)), ..fd },
            None => match strip_prefix(line, "rename to "@) {
                Some(p) => FileDiffView { path: unquote_spec(p), ..fd },
                None => if starts_with(line, "Binary files "@) || starts_with(
                    line,
                    "GIT binary patch"@,
                ) {
                    FileDiffView { is_binary: true, ..fd }
                } else {
                    match strip_prefix(line, "--- a/"@) {
                        Some(p) => if fd.old_path is None && !fd.is_new {
                            FileDiffView {
                                old_path: if unquote_spec(p) != fd.path {
                                    Some(unquote_spec(p))
                                } else {
                                    None
                                },
                                ..fd
                            }
                        } else {
                            fd
                        },
                        None => match strip_prefix(line, "+++ b/"@) {
                            Some(p) => FileDiffView { path: unquote_spec(p), ..fd },
                            None => fd,
                        },
                    }
                },
            },
        }
    }
}

/// One line of `git diff` output.
pub open spec fn diff_step(st: DiffState, line: Seq<char>) -> DiffState {
    match strip_prefix(line, "diff --git "@) {
        Some(rest) => {
            let st1 = flush_hunk(st);
            let path = match split_once(rest, " b/"@) {
                Some((_, b)) => unquote_spec(b),
                None => Seq::empty(),
            };
            DiffState {
                files: flush_file(st1),
                cur: Some(FileDiffView { path: path, ..empty_file_diff() }),
                hunk: None,
            }
        },
        None => match st.cur {
            None => st,
            Some(fd) => if st.hunk is Some && is_hunk_line(line) {
                let h = st.hunk->0;
                DiffState { hunk: Some(HunkView { lines: h.lines.push(line), ..h }), ..st }
            } else if starts_with(line, "@@"@) {
                DiffState { hunk: hunk_header_spec(line), ..flush_hunk(st) }
            } else {
                DiffState { cur: Some(file_header_step(fd, line)), ..st }
            },
        },
    }
}

pub open spec fn diff_fold(lines: Seq<Seq<char>>) -> DiffState
    decreases lines.len(),
{
    if lines.len() == 0 {
        empty_diff_state()
    } else {
        diff_step(diff_fold(lines.drop_last()), lines.last())
    }
}

/// The files described by `git diff` output, each with its hunks.
pub open spec fn diff_spec(text: Seq<char>) -> Seq<FileDiffView> {
    flush_file(flush_hunk(diff_fold(lines(text))))
}

/// A line that opens a file's block in `git diff` output.
pub open spec fn is_diff_header(l: Seq<char>) -> bool {
    starts_with(l, "diff --git "@)
}

/// A line saying the file of its block was deleted.
pub open spec fn is_deleted_line(l: Seq<char>) -> bool {
    starts_with(l, "deleted file mode"@)
}

/// How many file blocks the lines open.
pub open spec fn count_headers(s: Seq<Seq<char>>) -> nat
    decreases s.len(),
{
    if s.len() == 0 {
        0
    } else {
        count_headers(s.drop_last()) + if is_diff_header(s.last()) {
            1nat
        } else {
            0nat
        }
    }
}

/// The block opened at line `h` holds a `deleted file mode` line: some
/// later line, with no block opened between them, says so.
pub open spec fn block_says_deleted(s: Seq<Seq<char>>, h: int) -> bool {
    exists|j: int|
        h < j < s.len() && #[trigger] is_deleted_line(s[j]) && count_headers(s.take(j + 1)) == count_headers(
            s.take(h + 1),
        )
}

proof fn lemma_count_take(s: Seq<Seq<char>>, m: int)
    requires
        0 <= m <= s.len(),
    ensures
        count_headers(s.take(m)) <= count_headers(s),
    decreases s.len(),
{
    if m < s.len() {
        lemma_count_take(s.drop_last(), m);
        assert(s.drop_last().take(m) =~= s.take(m));
    } else {
        assert(s.take(m) =~= s);
    }
}

proof fn lemma_header_line_facts(l: Seq<char>)
    ensures
        is_diff_header(l) ==> !is_deleted_line(l),
        is_deleted_line(l) ==> !is_hunk_line(l) && !starts_with(l, "@@"@) && !starts_with(l, "new file mode"@),
        file_header_step_deletes(l),
{
    reveal_strlit("diff --git ");
    reveal_strlit("deleted file mode");
    reveal_strlit("@@");
    reveal_strlit("new file mode");
    if is_diff_header(l) && is_deleted_line(l) {
        assert(l.subrange(0, 11)[1] == l[1]);
        assert(l.subrange(0, 17)[1] == l[1]);
    }
    if is_deleted_line(l) {
        assert(l.subrange(0, 17)[0] == l[0]);
        if starts_with(l, "@@"@) {
            assert(l.subrange(0, 2)[0] == l[0]);
        }
        if starts_with(l, "new file mode"@) {
            assert(l.subrange(0, 13)[0] == l[0]);
        }
    }
}

/// A header line marks its file deleted exactly when it is a
/// `deleted file mode` line.
pub open spec fn file_header_step_deletes(l: Seq<char>) -> bool {
    forall|fd: FileDiffView| #[trigger] file_header_step(fd, l).is_deleted == (fd.is_deleted || is_deleted_line(l))
}

proof fn lemma_block_extend(p: Seq<Seq<char>>, l: Seq<char>, h: int)
    requires
        0 <= h < p.len(),
    ensures
        block_says_deleted(p.push(l), h) == (block_says_deleted(p, h) || (is_deleted_line(l) && count_headers(
            p.push(l),
        ) == count_headers(p.take(h + 1)))),
{
    let s = p.push(l);
    assert(p.take(h + 1) =~= s.take(h + 1));
    assert(s.take(s.len() as int) =~= s);
    assert forall|j: int| h < j < p.len() implies #[trigger] s.take(j + 1) == p.take(j + 1) by {
        assert(p.take(j + 1) =~= s.take(j + 1));
    }
    if block_says_deleted(p, h) {
        let j = choose|j: int|
            h < j < p.len() && #[trigger] is_deleted_line(p[j]) && count_headers(p.take(j + 1)) == count_headers(
                p.take(h + 1),
            );
        assert(s[j] == p[j]);
        assert(s.take(j + 1) == p.take(j + 1));
    }
    if block_says_deleted(s, h) && !block_says_deleted(p, h) {
        let j = choose|j: int|
            h < j < s.len() && #[trigger] is_deleted_line(s[j]) && count_headers(s.take(j + 1)) == count_headers(
                s.take(h + 1),
            );
        if j < p.len() {
            assert(s[j] == p[j]);
            assert(s.take(j + 1) == p.take(j + 1));
            assert(is_deleted_line(p[j]));
        }
    }
    if is_deleted_line(l) && count_headers(s) == count_headers(p.take(h + 1)) {
        assert(s[p.len() as int] == l);
        assert(is_deleted_line(s[p.len() as int]));
    }
}

/// What the parser state holds after the lines `s`.
pub open spec fn diff_prefix_ok(s: Seq<Seq<char>>) -> bool {
    let st = diff_fold(s);
    let c = count_headers(s);
    &&& st.cur is Some <==> c > 0
    &&& st.files.len() + (if st.cur is Some { 1int } else { 0int }) == c
    &&& forall|h: int|
        0 <= h < s.len() && #[trigger] is_diff_header(s[h]) ==> {
            let k = count_headers(s.take(h)) as int;
            &&& k < st.files.len() ==> st.files[k].is_deleted == block_says_deleted(s, h)
            &&& k == st.files.len() ==> st.cur->0.is_deleted == block_says_deleted(s, h)
        }
}

#[verifier::spinoff_prover]
#[verifier::rlimit(50)]
proof fn lemma_diff_prefix(s: Seq<Seq<char>>)
    ensures
        diff_prefix_ok(s),
    decreases s.len(),
{
    if s.len() > 0 {
        let p = s.drop_last();
        let l = s.last();
        lemma_diff_prefix(p);
        lemma_header_line_facts(l);
        assert(p.push(l) =~= s);
        let st = diff_fold(p);
        let st2 = diff_fold(s);
        assert(st2 == diff_step(st, l));
        assert(s.take(s.len() - 1) =~= p);
        assert(count_headers(s) == count_headers(p) + if is_diff_header(l) { 1nat } else { 0nat });
        assert forall|h: int| 0 <= h < s.len() && #[trigger] is_diff_header(s[h]) implies {
            let k = count_headers(s.take(h)) as int;
            &&& k < st2.files.len() ==> st2.files[k].is_deleted == block_says_deleted(s, h)
            &&& k == st2.files.len() ==> st2.cur->0.is_deleted == block_says_deleted(s, h)
        } by {
            lemma_diff_step_header(p, l, h);
        }
    }
}

/// One more line keeps the parser state as `diff_prefix_ok` says, for the
/// block opened at line `h`.
#[verifier::spinoff_prover]
#[verifier::rlimit(50)]
proof fn lemma_diff_step_header(p: Seq<Seq<char>>, l: Seq<char>, h: int)
    requires
        diff_prefix_ok(p),
        0 <= h <= p.len(),
        is_diff_header(p.push(l)[h]),
    ensures
        ({
            let s = p.push(l);
            let st2 = diff_fold(s);
            let k = count_headers(s.take(h)) as int;
            &&& k < st2.files.len() ==> st2.files[k].is_deleted == block_says_deleted(s, h)
            &&& k == st2.files.len() ==> st2.cur->0.is_deleted == block_says_deleted(s, h)
        }),
{
    let s = p.push(l);
    lemma_header_line_facts(l);
    assert(s.drop_last() =~= p);
    assert(s.last() == l);
    let st = diff_fold(p);
    let st2 = diff_fold(s);
    assert(st2 == diff_step(st, l));
    assert(count_headers(s) == count_headers(p) + if is_diff_header(l) { 1nat } else { 0nat });
    let k = count_headers(s.take(h)) as int;
    reveal_strlit("diff --git ");
    if is_diff_header(l) {
        assert(strip_prefix(l, "diff --git "@) is Some);
    } else {
        assert(strip_prefix(l, "diff --git "@) is None);
    }
    if h < p.len() {
        assert(p[h] == s[h]);
        assert(p.take(h) =~= s.take(h));
        assert(p.take(h + 1).drop_last() =~= p.take(h));
        assert(p.take(h + 1).last() == p[h]);
        lemma_count_take(p, h + 1);
        lemma_block_extend(p, l, h);
        let kk = count_headers(p.take(h)) as int;
        assert(kk == k);
        assert(count_headers(p.take(h + 1)) == k + 1);
        if is_diff_header(l) {
            assert(!is_deleted_line(l));
        } else if st.cur is Some {
            let fd = st.cur->0;
            if st.hunk is Some && is_hunk_line(l) {
            } else if starts_with(l, "@@"@) {
            } else {
                assert(file_header_step(fd, l).is_deleted == (fd.is_deleted || is_deleted_line(l)));
            }
        }
    } else {
        assert(s.take(h) =~= p);
        assert(s[h] == l);
        assert(!block_says_deleted(s, h)) by {
            if block_says_deleted(s, h) {
                let j = choose|j: int|
                    h < j < s.len() && #[trigger] is_deleted_line(s[j]) && count_headers(s.take(j + 1))
                        == count_headers(s.take(h + 1));
            }
        }
    }
}

/// Reading `git diff` output: there is one file per `diff --git` line, in
/// order, and a file is marked deleted exactly when its block (the lines
/// after its `diff --git` line, up to the next one) has a
/// `deleted file mode` line.
pub proof fn law_diff_deleted_files(text: Seq<char>)
    ensures
        ({
            let ls = lines(text);
            let fs = diff_spec(text);
            &&& fs.len() == count_headers(ls)
            &&& forall|h: int|
                0 <= h < ls.len() && #[trigger] is_diff_header(ls[h]) ==> fs[count_headers(ls.take(h)) as int].is_deleted
                    == block_says_deleted(ls, h)
        }),
{
    let ls = lines(text);
    lemma_diff_prefix(ls);
    let st = diff_fold(ls);
    assert forall|h: int| 0 <= h < ls.len() && #[trigger] is_diff_header(ls[h]) implies count_headers(ls.take(h))
        < count_headers(ls) by {
        assert(ls.take(h + 1).drop_last() =~= ls.take(h));
        assert(ls.take(h + 1).last() == ls[h]);
        lemma_count_take(ls, h + 1);
    }
}


/// Minimal unquoting of git-quoted paths.
fn unquote(s: &Vec<char>) -> (r: String)
    ensures
        r@ == unquote_spec(s@),
{
    let n = s.len();
    if !(n >= 2 && s[0] == '"' && s[n - 1] == '"') {
        return string_of(s);
    }
    let ghost body = s@.subrange(1, n - 1);
    let mut out = String::new();
    let mut i: usize = 1;
    assert(body.subrange(0, body.len() as int) =~= body);
    assert(out@ + unescape(body.subrange(i - 1, body.len() as int)) =~= unescape(body));
    while i < n - 1
        invariant
            n == s.len(),
            n >= 2,
            1 <= i <= n,
            body == s@.subrange(1, n - 1),
            i <= n - 1 ==> unescape(body) == out@ + unescape(body.subrange(i - 1, body.len() as int)),
            i > n - 1 ==> unescape(body) == out@,
        decreases n - i,
    {
        let ghost t = body.subrange(i - 1, body.len() as int);
        let c = s[i];
        assert(t[0] == c);
        if c == '\\' {
            if i + 1 < n - 1 {
                let d = s[i + 1];
                let e = if d == 'n' {
                    '\n'
                } else if d == 't' {
                    '\t'
                } else {
                    d
                };
                assert(t[1] == d);
                assert(t.subrange(2, t.len() as int) =~= body.subrange(i + 1, body.len() as int));
                let ghost before = out@;
                push_char(&mut out, e);
                assert(before + (seq![e] + unescape(t.subrange(2, t.len() as int))) =~= out@
                    + unescape(t.subrange(2, t.len() as int)));
                i += 2;
            } else {
                assert(t.len() == 1);
                assert(unescape(t) =~= Seq::<char>::empty());
                assert(out@ + unescape(t) =~= out@);
                i += 2;
            }
        } else {
            assert(t.drop_first() =~= body.subrange(i as int, body.len() as int));
            let ghost before = out@;
            push_char(&mut out, c);
            assert(before + (seq![c] + unescape(t.drop_first())) =~= out@ + unescape(t.drop_first()));
            i += 1;
        }
        if i == n - 1 {
            assert(body.subrange(i - 1, body.len() as int) =~= Seq::<char>::empty());
            assert(out@ + Seq::<char>::empty() =~= out@);
        }
    }
    if n == 2 {
        assert(body =~= Seq::<char>::empty());
        assert(out@ =~= unescape(body));
    }
    out
}

fn parse_pair_exec(s: &Vec<char>) -> (r: Option<(u32, u32)>)
    ensures
        r == parse_pair(s@),
{
    let comma = vec![','];
    assert(comma@ =~= seq![',']);
    match split_once_exec(s, &comma) {
        Some((a, b)) => match (parse_u32_exec(&a), parse_u32_exec(&b)) {
            (Some(x), Some(y)) => Some((x, y)),
            _ => None,
        },
        None => match parse_u32_exec(s) {
            Some(x) => Some((x, 1)),
            None => None,
        },
    }
}

/// Parse `@@ -a,b +c,d @@ ctx` (counts default to 1 when omitted).
pub fn parse_hunk_header(line: &str) -> (r: Option<Hunk>)
    ensures
        match r {
            Some(h) => hunk_header_spec(line@) == Some(h@),
            None => hunk_header_spec(line@) is None,
        },
{
    let v = chars_of(line);
    parse_hunk_header_chars(&v)
}

fn parse_hunk_header_chars(line: &Vec<char>) -> (r: Option<Hunk>)
    ensures
        match r {
            Some(h) => hunk_header_spec(line@) == Some(h@),
            None => hunk_header_spec(line@) is None,
        },
{
    let rest = match strip_prefix_str(line, "@@ -") {
        Some(r) => r,
        None => return None,
    };
    let (old, rest2) = match split_once_str(&rest, " +") {
        Some(p) => p,
        None => return None,
    };
    let (new, _) = match split_once_str(&rest2, " @@") {
        Some(p) => p,
        None => return None,
    };
    let (os, oc) = match parse_pair_exec(&old) {
        Some(p) => p,
        None => return None,
    };
    let (ns, nc) = match parse_pair_exec(&new) {
        Some(p) => p,
        None => return None,
    };
    let h = Hunk {
        old_start: os,
        old_count: oc,
        new_start: ns,
        new_count: nc,
        header: string_of(line),
        lines: Vec::new(),
    };
    assert(h@.lines =~= Seq::<Seq<char>>::empty());
    Some(h)
}

fn is_hunk_line_exec(line: &Vec<char>) -> (r: bool)
    ensures
        r == is_hunk_line(line@),
{
    line.len() > 0 && (line[0] == ' ' || line[0] == '+' || line[0] == '-' || line[0] == '\\')
}

fn flush_hunk_exec(cur: &mut Option<FileDiff>, hunk: &mut Option<Hunk>)
    ensures
        ({
            let st = flush_hunk(
                DiffState { files: Seq::empty(), cur: opt_file_view(*old(cur)), hunk: opt_hunk_view(*old(hunk)) },
            );
            &&& opt_file_view(*final(cur)) == st.cur
            &&& opt_hunk_view(*final(hunk)) == st.hunk
        }),
{
    let h = hunk.take();
    match h {
        Some(h) => {
            let c = cur.take();
            match c {
                Some(mut f) => {
                    let ghost before = f@;
                    f.hunks.push(h);
                    assert(f@.hunks =~= before.hunks.push(h@));
                    assert(f@ =~= FileDiffView { hunks: before.hunks.push(h@), ..before });
                    *cur = Some(f);
                },
                None => {},
            }
        },
        None => {},
    }
}

fn file_header_step_exec(fd: &mut FileDiff, line: &Vec<char>)
    ensures
        final(fd)@ == file_header_step(old(fd)@, line@),
{
    if starts_with_str(line, "new file mode") {
        fd.is_new = true;
    } else if starts_with_str(line, "deleted file mode") {
        fd.is_deleted = true;
    } else if let Some(p) = strip_prefix_str(line, "rename from ") {
        fd.old_path = Some(unquote(&p));
    } else if let Some(p) = strip_prefix_str(line, "rename to ") {
        fd.path = unquote(&p);
    } else if starts_with_str(line, "Binary files ") || starts_with_str(line, "GIT binary patch") {
        fd.is_binary = true;
    } else if let Some(p) = strip_prefix_str(line, "--- a/") {
        if fd.old_path.is_none() && !fd.is_new {
            let op = unquote(&p);
            if op == fd.path {
                fd.old_path = None;
            } else {
                fd.old_path = Some(op);
            }
        }
    } else if let Some(p) = strip_prefix_str(line, "+++ b/") {
        fd.path = unquote(&p);
    }
    // "index ...", "old mode", "similarity index", "--- /dev/null",
    // "+++ /dev/null" need no handling.
}

/// Parse `git diff` unified output into per-file diffs with hunks.
pub fn parse_diff(text: &str) -> (r: Vec<FileDiff>)
    ensures
        file_views(r@) == diff_spec(text@),
{
    let chars = chars_of(text);
    let ls = lines_exec(&chars);
    let mut files: Vec<FileDiff> = Vec::new();
    let mut cur: Option<FileDiff> = None;
    let mut hunk: Option<Hunk> = None;
    let mut i: usize = 0;
    assert(seqs(ls@).subrange(0, 0) =~= Seq::<Seq<char>>::empty());
    assert(file_views(files@) =~= Seq::<FileDiffView>::empty());
    while i < ls.len()
        invariant
            i <= ls.len(),
            seqs(ls@) == lines(chars@),
            diff_fold(seqs(ls@).subrange(0, i as int)) == (DiffState {
                files: file_views(files@),
                cur: opt_file_view(cur),
                hunk: opt_hunk_view(hunk),
            }),
        decreases ls.len() - i,
    {
        let line = &ls[i];
        let ghost st = DiffState {
            files: file_views(files@),
            cur: opt_file_view(cur),
            hunk: opt_hunk_view(hunk),
        };
        proof {
            assert(seqs(ls@).subrange(0, i + 1).drop_last() =~= seqs(ls@).subrange(0, i as int));
            assert(seqs(ls@).subrange(0, i + 1).last() == line@);
        }
        if let Some(rest) = strip_prefix_str(line, "diff --git ") {
            flush_hunk_exec(&mut cur, &mut hunk);
            let ghost st1 = flush_hunk(st);
            let c = cur.take();
            match c {
                Some(f) => {
                    let ghost before = files@;
                    files.push(f);
                    assert(file_views(files@) =~= file_views(before).push(f@));
                },
                None => {},
            }
            assert(file_views(files@) == flush_file(st1));
            let mut fd = FileDiff::default();
            if let Some((_, b)) = split_once_str(&rest, " b/") {
                fd.path = unquote(&b);
            }
            cur = Some(fd);
        } else if cur.is_some() {
            if hunk.is_some() && is_hunk_line_exec(line) {
                let mut h = hunk.take().unwrap();
                let ghost before = h@;
                h.lines.push(string_of(line));
                assert(h@.lines =~= before.lines.push(line@));
                assert(h@ =~= HunkView { lines: before.lines.push(line@), ..before });
                hunk = Some(h);
            } else if starts_with_str(line, "@@") {
                flush_hunk_exec(&mut cur, &mut hunk);
                hunk = parse_hunk_header_chars(line);
            } else {
                let mut fd = cur.take().unwrap();
                file_header_step_exec(&mut fd, line);
                cur = Some(fd);
            }
        }
        i += 1;
    }
    assert(seqs(ls@).subrange(0, ls@.len() as int) =~= seqs(ls@));
    flush_hunk_exec(&mut cur, &mut hunk);
    let c = cur.take();
    match c {
        Some(f) => {
            let ghost before = files@;
            files.push(f);
            assert(file_views(files@) =~= file_views(before).push(f@));
        },
        None => {},
    }
    files
}

// ---------------------------------------------------------------------------
// git log / git stash list
// ---------------------------------------------------------------------------

/// Field `k` of a unit-separated record, empty when missing.
pub open spec fn field_or_empty(fields: Seq<Seq<char>>, k: int) -> Seq<char> {
    if k < fields.len() {
        fields[k]
    } else {
        Seq::empty()
    }
}

/// The log entry a line describes, if its hash field is non-empty.
pub open spec fn log_line_spec(l: Seq<char>) -> Option<LogEntryView> {
    let f = split_char(l, '\x1f');
    if f[0].len() == 0 {
        None
    } else {
        Some(
            LogEntryView {
                hash: f[0],
                refs: field_or_empty(f, 1),
                subject: field_or_empty(f, 2),
                author: field_or_empty(f, 3),
                date: field_or_empty(f, 4),
            },
        )
    }
}

/// Keep the `Some` results of a per-line parser, in order.
pub open spec fn log_fold(ls: Seq<Seq<char>>) -> Seq<LogEntryView>
    decreases ls.len(),
{
    if ls.len() == 0 {
        Seq::empty()
    } else {
        match log_line_spec(ls.last()) {
            Some(e) => log_fold(ls.drop_last()).push(e),
            None => log_fold(ls.drop_last()),
        }
    }
}

/// The entries of `git log --format=%h%x1f%D%x1f%s%x1f%an%x1f%ar` output.
pub open spec fn log_entries_spec(text: Seq<char>) -> Seq<LogEntryView> {
    log_fold(lines(text))
}

fn field_string(fields: &Vec<Vec<char>>, k: usize) -> (r: String)
    ensures
        r@ == field_or_empty(seqs(fields@), k as int),
{
    if k < fields.len() {
        string_of(&fields[k])
    } else {
        String::new()
    }
}

/// Parse `git log --format=%h%x1f%D%x1f%s%x1f%an%x1f%ar` (one commit per
/// line, fields separated by US, 0x1f). Missing trailing fields are empty, so
/// this also accepts the shorter `%h%x1f%D%x1f%s` used for recent commits.
pub fn parse_log_entries(text: &str) -> (r: Vec<LogEntry>)
    ensures
        r@.map_values(|e: LogEntry| e@) == log_entries_spec(text@),
{
    let chars = chars_of(text);
    let ls = lines_exec(&chars);
    let mut out: Vec<LogEntry> = Vec::new();
    let mut i: usize = 0;
    assert(seqs(ls@).subrange(0, 0) =~= Seq::<Seq<char>>::empty());
    assert(out@.map_values(|e: LogEntry| e@) =~= Seq::<LogEntryView>::empty());
    while i < ls.len()
        invariant
            i <= ls.len(),
            seqs(ls@) == lines(chars@),
            out@.map_values(|e: LogEntry| e@) == log_fold(seqs(ls@).subrange(0, i as int)),
        decreases ls.len() - i,
    {
        let line = &ls[i];
        proof {
            assert(seqs(ls@).subrange(0, i + 1).drop_last() =~= seqs(ls@).subrange(0, i as int));
            assert(seqs(ls@).subrange(0, i + 1).last() == line@);
        }
        let f = split_char_exec(line, '\x1f');
        proof {
            lemma_split_char_len(line@, '\x1f');
        }
        if f[0].len() > 0 {
            let e = LogEntry {
                hash: string_of(&f[0]),
                refs: field_string(&f, 1),
                subject: field_string(&f, 2),
                author: field_string(&f, 3),
                date: field_string(&f, 4),
            };
            let ghost before = out@;
            out.push(e);
            assert(out@.map_values(|e: LogEntry| e@) =~= before.map_values(|e: LogEntry| e@).push(
                e@,
            ));
        }
        i += 1;
    }
    assert(seqs(ls@).subrange(0, ls@.len() as int) =~= seqs(ls@));
    out
}

/// The stash a `git stash list --format=%gd%x1f%s` line describes.
pub open spec fn stash_line_spec(l: Seq<char>) -> Option<StashInfoView> {
    match split_once(l, seq!['\x1f']) {
        None => None,
        Some((gd, msg)) => match strip_prefix(gd, "stash@{"@) {
            None => None,
            Some(a) => match strip_suffix(a, seq!['}']) {
                None => None,
                Some(n) => match parse_usize(n) {
                    None => None,
                    Some(index) => Some(StashInfoView { index: index, message: msg }),
                },
            },
        },
    }
}

pub open spec fn stash_fold(ls: Seq<Seq<char>>) -> Seq<StashInfoView>
    decreases ls.len(),
{
    if ls.len() == 0 {
        Seq::empty()
    } else {
        match stash_line_spec(ls.last()) {
            Some(e) => stash_fold(ls.drop_last()).push(e),
            None => stash_fold(ls.drop_last()),
        }
    }
}

/// The stashes of `git stash list --format=%gd%x1f%s` output.
pub open spec fn stash_list_spec(text: Seq<char>) -> Seq<StashInfoView> {
    stash_fold(lines(text))
}

fn parse_stash_line(l: &Vec<char>) -> (r: Option<StashInfo>)
    ensures
        match r {
            Some(e) => stash_line_spec(l@) == Some(e@),
            None => stash_line_spec(l@) is None,
        },
{
    let us = vec!['\x1f'];
    assert(us@ =~= seq!['\x1f']);
    let (gd, msg) = match split_once_exec(l, &us) {
        Some(p) => p,
        None => return None,
    };
    let a = match strip_prefix_str(&gd, "stash@{") {
        Some(a) => a,
        None => return None,
    };
    let close = vec!['}'];
    assert(close@ =~= seq!['}']);
    if !has_suffix(&a, &close) {
        return None;
    }
    let n = subvec(&a, 0, a.len() - 1);
    let index = match parse_usize_exec(&n) {
        Some(x) => x,
        None => return None,
    };
    Some(StashInfo { index, message: string_of(&msg) })
}

/// Parse `git stash list --format=%gd%x1f%s`.
pub fn parse_stash_list(text: &str) -> (r: Vec<StashInfo>)
    ensures
        r@.map_values(|e: StashInfo| e@) == stash_list_spec(text@),
{
    let chars = chars_of(text);
    let ls = lines_exec(&chars);
    let mut out: Vec<StashInfo> = Vec::new();
    let mut i: usize = 0;
    assert(seqs(ls@).subrange(0, 0) =~= Seq::<Seq<char>>::empty());
    assert(out@.map_values(|e: StashInfo| e@) =~= Seq::<StashInfoView>::empty());
    while i < ls.len()
        invariant
            i <= ls.len(),
            seqs(ls@) == lines(chars@),
            out@.map_values(|e: StashInfo| e@) == stash_fold(seqs(ls@).subrange(0, i as int)),
        decreases ls.len() - i,
    {
        let line = &ls[i];
        proof {
            assert(seqs(ls@).subrange(0, i + 1).drop_last() =~= seqs(ls@).subrange(0, i as int));
            assert(seqs(ls@).subrange(0, i + 1).last() == line@);
        }
        match parse_stash_line(line) {
            Some(e) => {
                let ghost before = out@;
                out.push(e);
                assert(out@.map_values(|e: StashInfo| e@) =~= before.map_values(
                    |e: StashInfo| e@,
                ).push(e@));
            },
            None => {},
        }
        i += 1;
    }
    assert(seqs(ls@).subrange(0, ls@.len() as int) =~= seqs(ls@));
    out
}

} // verus!
