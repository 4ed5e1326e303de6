//! Building patches for `git apply --cached` — the machinery behind hunk- and
//! line-level staging. This is the code path where a bug corrupts the index,
//! so every builder states exactly the text it produces.

use vstd::prelude::*;

use super::types::{FileDiff, FileDiffView, Hunk, HunkView};
use crate::text::{decimal, push_char, push_decimal, push_str, strs};

verus! {

#[derive(Debug, Clone, Copy, PartialEq, Eq, Structural)]
pub enum LineOp {
    /// Patch will be applied forward to the index (`git apply --cached`).
    Stage,
    /// Patch will be applied in reverse to the index (`git apply -R --cached`).
    Unstage,
}

/// The `---`/`+++` header of a patch touching `fd`.
pub open spec fn file_header_spec(fd: FileDiffView) -> Seq<char> {
    let a = if fd.is_new {
        "/dev/null"@
    } else {
        "a/"@ + match fd.old_path {
            Some(p) => p,
            None => fd.path,
        }
    };
    let b = if fd.is_deleted {
        "/dev/null"@
    } else {
        "b/"@ + fd.path
    };
    "--- "@ + a + seq!['\n'] + "+++ "@ + b + seq!['\n']
}

/// Each line followed by a newline.
pub open spec fn join_lines(ls: Seq<Seq<char>>) -> Seq<char>
    decreases ls.len(),
{
    if ls.len() == 0 {
        Seq::empty()
    } else {
        join_lines(ls.drop_last()) + ls.last() + seq!['\n']
    }
}

/// A patch holding the whole hunk verbatim.
pub open spec fn hunk_patch_spec(fd: FileDiffView, h: HunkView) -> Seq<char> {
    file_header_spec(fd) + h.header + seq!['\n'] + join_lines(h.lines)
}

/// Body text, old/new line counts, and whether the previous line was kept.
pub struct LinePatchState {
    pub body: Seq<char>,
    pub old_count: nat,
    pub new_count: nat,
    pub last_kept: bool,
}

/// The body line turning `line` into context.
pub open spec fn as_context(line: Seq<char>) -> Seq<char> {
    seq![' '] + line.drop_first()
}

/// How line `i` of the hunk enters a patch that keeps only line `keep`.
pub open spec fn line_patch_step(
    st: LinePatchState,
    line: Seq<char>,
    i: int,
    keep: int,
    op: LineOp,
) -> LinePatchState {
    if line.len() == 0 {
        st
    } else if line[0] == '\\' {
        // "\ No newline at end of file" annotates the preceding line.
        if st.last_kept {
            LinePatchState { body: st.body + line + seq!['\n'], ..st }
        } else {
            st
        }
    } else if line[0] == ' ' {
        LinePatchState {
            body: st.body + line + seq!['\n'],
            old_count: st.old_count + 1,
            new_count: st.new_count + 1,
            last_kept: true,
        }
    } else if line[0] == '+' {
        if i == keep {
            LinePatchState {
                body: st.body + line + seq!['\n'],
                new_count: st.new_count + 1,
                last_kept: true,
                ..st
            }
        } else if op == LineOp::Unstage {
            LinePatchState {
                body: st.body + as_context(line) + seq!['\n'],
                old_count: st.old_count + 1,
                new_count: st.new_count + 1,
                last_kept: true,
            }
        } else {
            LinePatchState { last_kept: false, ..st }
        }
    } else if line[0] == '-' {
        if i == keep {
            LinePatchState {
                body: st.body + line + seq!['\n'],
                old_count: st.old_count + 1,
                last_kept: true,
                ..st
            }
        } else if op == LineOp::Stage {
            LinePatchState {
                body: st.body + as_context(line) + seq!['\n'],
                old_count: st.old_count + 1,
                new_count: st.new_count + 1,
                last_kept: true,
            }
        } else {
            LinePatchState { last_kept: false, ..st }
        }
    } else {
        st
    }
}

/// The state after the first `ls.len()` lines.
pub open spec fn line_patch_fold(ls: Seq<Seq<char>>, keep: int, op: LineOp) -> LinePatchState
    decreases ls.len(),
{
    if ls.len() == 0 {
        LinePatchState { body: Seq::empty(), old_count: 0, new_count: 0, last_kept: false }
    } else {
        line_patch_step(
            line_patch_fold(ls.drop_last(), keep, op),
            ls.last(),
            ls.len() - 1,
            keep,
            op,
        )
    }
}

/// The change line `keep` makes on its own: +1 line for an addition, -1
/// for a removal.
pub open spec fn line_delta(ls: Seq<Seq<char>>, keep: int) -> int {
    if 0 <= keep < ls.len() && ls[keep].len() > 0 && ls[keep][0] == '+' {
        1
    } else if 0 <= keep < ls.len() && ls[keep].len() > 0 && ls[keep][0] == '-' {
        -1
    } else {
        0
    }
}

proof fn lemma_fold_delta(ls: Seq<Seq<char>>, keep: int, op: LineOp)
    ensures
        line_patch_fold(ls, keep, op).new_count - line_patch_fold(ls, keep, op).old_count == line_delta(ls, keep),
    decreases ls.len(),
{
    if ls.len() > 0 {
        let init = ls.drop_last();
        lemma_fold_delta(init, keep, op);
        if 0 <= keep < init.len() {
            assert(init[keep] == ls[keep]);
        }
    }
}

/// A single-line patch changes exactly the selected line: whichever way it
/// goes (staging or unstaging), the hunk's new side is one line longer
/// than its old side for an added line and one shorter for a removed one;
/// every other line of the hunk enters as context or not at all.
pub proof fn law_line_patch_changes_one_line(ls: Seq<Seq<char>>, keep: int, op: LineOp)
    requires
        is_change_line(ls, keep),
    ensures
        line_patch_fold(ls, keep, op).new_count - line_patch_fold(ls, keep, op).old_count == (if ls[keep][0] == '+' {
            1int
        } else {
            -1int
        }),
{
    lemma_fold_delta(ls, keep, op);
}

/// Whether line `keep` of the hunk is a `+`/`-` line.
pub open spec fn is_change_line(ls: Seq<Seq<char>>, keep: int) -> bool {
    0 <= keep < ls.len() && ls[keep].len() > 0 && (ls[keep][0] == '+' || ls[keep][0] == '-')
}

/// The patch that applies only line `keep` of the hunk.
pub open spec fn line_patch_spec(fd: FileDiffView, h: HunkView, keep: int, op: LineOp) -> Option<
    Seq<char>,
> {
    if !is_change_line(h.lines, keep) {
        None
    } else {
        let st = line_patch_fold(h.lines, keep, op);
        Some(
            file_header_spec(fd) + "@@ -"@ + decimal(h.old_start as nat) + seq![','] + decimal(
                st.old_count,
            ) + " +"@ + decimal(h.new_start as nat) + seq![','] + decimal(st.new_count)
                + " @@"@ + seq!['\n'] + st.body,
        )
    }
}

/// The lines of a single-line patch's body, in order.
pub open spec fn patch_lines(ls: Seq<Seq<char>>, keep: int, op: LineOp) -> Seq<Seq<char>>
    decreases ls.len(),
{
    if ls.len() == 0 {
        Seq::empty()
    } else {
        let prev = patch_lines(ls.drop_last(), keep, op);
        let last_kept = line_patch_fold(ls.drop_last(), keep, op).last_kept;
        let line = ls.last();
        let i = ls.len() - 1;
        if line.len() == 0 {
            prev
        } else if line[0] == '\\' {
            if last_kept {
                prev.push(line)
            } else {
                prev
            }
        } else if line[0] == ' ' {
            prev.push(line)
        } else if line[0] == '+' {
            if i == keep {
                prev.push(line)
            } else if op == LineOp::Unstage {
                prev.push(as_context(line))
            } else {
                prev
            }
        } else if line[0] == '-' {
            if i == keep {
                prev.push(line)
            } else if op == LineOp::Stage {
                prev.push(as_context(line))
            } else {
                prev
            }
        } else {
            prev
        }
    }
}

/// Whether a diff line starts with `c`.
pub open spec fn starts(line: Seq<char>, c: char) -> bool {
    line.len() > 0 && line[0] == c
}

/// How many lines belong to the old side (context and removals).
pub open spec fn count_old(ls: Seq<Seq<char>>) -> nat
    decreases ls.len(),
{
    if ls.len() == 0 {
        0
    } else {
        count_old(ls.drop_last()) + if starts(ls.last(), ' ') || starts(ls.last(), '-') {
            1nat
        } else {
            0nat
        }
    }
}

/// How many lines belong to the new side (context and additions).
pub open spec fn count_new(ls: Seq<Seq<char>>) -> nat
    decreases ls.len(),
{
    if ls.len() == 0 {
        0
    } else {
        count_new(ls.drop_last()) + if starts(ls.last(), ' ') || starts(ls.last(), '+') {
            1nat
        } else {
            0nat
        }
    }
}

/// The text of the side a diff reads with `c` besides context: `-` gives the
/// old file's lines, `+` the new file's.
pub open spec fn side(ls: Seq<Seq<char>>, c: char) -> Seq<Seq<char>>
    decreases ls.len(),
{
    if ls.len() == 0 {
        Seq::empty()
    } else if starts(ls.last(), ' ') || starts(ls.last(), c) {
        side(ls.drop_last(), c).push(ls.last().drop_first())
    } else {
        side(ls.drop_last(), c)
    }
}

/// The change lines (`+` and `-`) of a diff.
pub open spec fn changes(ls: Seq<Seq<char>>) -> Seq<Seq<char>>
    decreases ls.len(),
{
    if ls.len() == 0 {
        Seq::empty()
    } else if starts(ls.last(), '+') || starts(ls.last(), '-') {
        changes(ls.drop_last()).push(ls.last())
    } else {
        changes(ls.drop_last())
    }
}

proof fn lemma_patch_lines(ls: Seq<Seq<char>>, keep: int, op: LineOp)
    ensures
        line_patch_fold(ls, keep, op).body == join_lines(patch_lines(ls, keep, op)),
        line_patch_fold(ls, keep, op).old_count == count_old(patch_lines(ls, keep, op)),
        line_patch_fold(ls, keep, op).new_count == count_new(patch_lines(ls, keep, op)),
        op == LineOp::Stage ==> side(patch_lines(ls, keep, op), '-') == side(ls, '-'),
        op == LineOp::Unstage ==> side(patch_lines(ls, keep, op), '+') == side(ls, '+'),
        changes(patch_lines(ls, keep, op)) == (if 0 <= keep < ls.len() && (starts(ls[keep], '+') || starts(
            ls[keep],
            '-',
        )) {
            seq![ls[keep]]
        } else {
            Seq::<Seq<char>>::empty()
        }),
    decreases ls.len(),
{
    if ls.len() > 0 {
        let init = ls.drop_last();
        lemma_patch_lines(init, keep, op);
        let line = ls.last();
        let prev = patch_lines(init, keep, op);
        let cur = patch_lines(ls, keep, op);
        if 0 <= keep < init.len() {
            assert(init[keep] == ls[keep]);
        }
        if line.len() > 0 {
            let c = as_context(line);
            assert(c[0] == ' ');
            assert(c.drop_first() =~= line.drop_first());
            if cur.len() > 0 && cur != prev {
                assert(cur.drop_last() =~= prev);
            }
        }
        if cur.len() > 0 && cur.len() == prev.len() + 1 {
            assert(cur.drop_last() =~= prev);
        }
    }
}

/// A single-line patch exists exactly for a `+` or `-` line of the hunk.
pub proof fn law_line_patch_defined(fd: FileDiffView, h: HunkView, keep: int, op: LineOp)
    ensures
        line_patch_spec(fd, h, keep, op) is Some <==> is_change_line(h.lines, keep),
{
}

/// The shape of a single-line patch: its header counts the body's old-side
/// and new-side lines; the only change line in the body is the chosen one;
/// applied forward (staging) it reads the hunk's old side, and applied in
/// reverse (unstaging) the hunk's new side, so it changes nothing else.
pub proof fn law_line_patch_shape(fd: FileDiffView, h: HunkView, keep: int, op: LineOp)
    requires
        is_change_line(h.lines, keep),
    ensures
        ({
            let pl = patch_lines(h.lines, keep, op);
            &&& line_patch_spec(fd, h, keep, op) == Some(
                file_header_spec(fd) + "@@ -"@ + decimal(h.old_start as nat) + seq![','] + decimal(count_old(pl))
                    + " +"@ + decimal(h.new_start as nat) + seq![','] + decimal(count_new(pl)) + " @@"@
                    + seq!['\n'] + join_lines(pl),
            )
            &&& changes(pl) == seq![h.lines[keep]]
            &&& op == LineOp::Stage ==> side(pl, '-') == side(h.lines, '-')
            &&& op == LineOp::Unstage ==> side(pl, '+') == side(h.lines, '+')
        }),
{
    lemma_patch_lines(h.lines, keep, op);
}

/// `---`/`+++` header for a patch touching `fd`.
pub fn file_header(fd: &FileDiff) -> (r: String)
    ensures
        r@ == file_header_spec(fd@),
{
    let mut out = String::new();
    push_str(&mut out, "--- ");
    if fd.is_new {
        push_str(&mut out, "/dev/null");
    } else {
        push_str(&mut out, "a/");
        match &fd.old_path {
            Some(p) => push_str(&mut out, p.as_str()),
            None => push_str(&mut out, fd.path.as_str()),
        }
    }
    push_char(&mut out, '\n');
    push_str(&mut out, "+++ ");
    if fd.is_deleted {
        push_str(&mut out, "/dev/null");
    } else {
        push_str(&mut out, "b/");
        push_str(&mut out, fd.path.as_str());
    }
    push_char(&mut out, '\n');
    assert(out@ =~= file_header_spec(fd@));
    out
}

/// A patch containing the whole hunk verbatim.
pub fn hunk_patch(fd: &FileDiff, hunk: &Hunk) -> (r: String)
    ensures
        r@ == hunk_patch_spec(fd@, hunk@),
{
    let mut out = file_header(fd);
    push_str(&mut out, hunk.header.as_str());
    push_char(&mut out, '\n');
    let ghost start = out@;
    let mut i: usize = 0;
    assert(strs(hunk.lines@).subrange(0, 0) =~= Seq::<Seq<char>>::empty());
    assert(start + join_lines(Seq::empty()) =~= start);
    while i < hunk.lines.len()
        invariant
            i <= hunk.lines.len(),
            out@ == start + join_lines(strs(hunk.lines@).subrange(0, i as int)),
        decreases hunk.lines.len() - i,
    {
        let ghost pre = strs(hunk.lines@).subrange(0, i as int);
        push_str(&mut out, hunk.lines[i].as_str());
        push_char(&mut out, '\n');
        i += 1;
        assert(strs(hunk.lines@).subrange(0, i as int).drop_last() =~= pre);
        assert(out@ =~= start + join_lines(strs(hunk.lines@).subrange(0, i as int)));
    }
    assert(strs(hunk.lines@).subrange(0, hunk.lines@.len() as int) =~= strs(hunk.lines@));
    assert(out@ =~= hunk_patch_spec(fd@, hunk@));
    out
}

proof fn lemma_line_patch_counts(ls: Seq<Seq<char>>, keep: int, op: LineOp)
    ensures
        line_patch_fold(ls, keep, op).old_count <= ls.len(),
        line_patch_fold(ls, keep, op).new_count <= ls.len(),
    decreases ls.len(),
{
    if ls.len() > 0 {
        lemma_line_patch_counts(ls.drop_last(), keep, op);
    }
}

/// A patch containing only the single `+`/`-` line at `keep` (an index into
/// `hunk.lines`); all other lines are dropped or turned into context so the
/// patch stays self-consistent. Returns `None` when the target is a context
/// line — callers should fall back to staging the whole hunk.
///
/// The transform depends on the apply direction:
/// - `Stage` (forward onto the index): unselected `+` lines don't exist in the
///   index yet → drop; unselected `-` lines still exist there → context.
/// - `Unstage` (reverse onto the index): unselected `+` lines exist in the
///   index → context; unselected `-` lines don't → drop.
pub fn line_patch(fd: &FileDiff, hunk: &Hunk, keep: usize, op: LineOp) -> (r: Option<String>)
    requires
        hunk.lines@.len() <= u32::MAX,
    ensures
        match r {
            Some(p) => line_patch_spec(fd@, hunk@, keep as int, op) == Some(p@),
            None => line_patch_spec(fd@, hunk@, keep as int, op) is None,
        },
{
    if keep >= hunk.lines.len() {
        return None;
    }
    let target = &hunk.lines[keep];
    let tv = crate::text::chars_of(target.as_str());
    if !(tv.len() > 0 && (tv[0] == '+' || tv[0] == '-')) {
        return None;
    }
    let ghost ls = strs(hunk.lines@);
    let mut body = String::new();
    let mut old_count: u32 = 0;
    let mut new_count: u32 = 0;
    let mut last_kept = false;
    let mut i: usize = 0;
    assert(ls.subrange(0, 0) =~= Seq::<Seq<char>>::empty());
    while i < hunk.lines.len()
        invariant
            hunk.lines@.len() <= u32::MAX,
            ls == strs(hunk.lines@),
            i <= hunk.lines.len(),
            line_patch_fold(ls.subrange(0, i as int), keep as int, op) == (LinePatchState {
                body: body@,
                old_count: old_count as nat,
                new_count: new_count as nat,
                last_kept: last_kept,
            }),
        decreases hunk.lines.len() - i,
    {
        let lv = crate::text::chars_of(hunk.lines[i].as_str());
        proof {
            let pre = ls.subrange(0, i as int);
            assert(ls.subrange(0, i + 1).drop_last() =~= pre);
            assert(ls.subrange(0, i + 1).last() == lv@);
            lemma_line_patch_counts(pre, keep as int, op);
        }
        if lv.len() == 0 {
        } else if lv[0] == '\\' {
            if last_kept {
                crate::text::push_chars(&mut body, &lv);
                push_char(&mut body, '\n');
            }
        } else if lv[0] == ' ' {
            crate::text::push_chars(&mut body, &lv);
            push_char(&mut body, '\n');
            old_count += 1;
            new_count += 1;
            last_kept = true;
        } else if lv[0] == '+' {
            if i == keep {
                crate::text::push_chars(&mut body, &lv);
                push_char(&mut body, '\n');
                new_count += 1;
                last_kept = true;
            } else if op == LineOp::Unstage {
                push_char(&mut body, ' ');
                let rest = crate::text::subvec(&lv, 1, lv.len());
                crate::text::push_chars(&mut body, &rest);
                push_char(&mut body, '\n');
                old_count += 1;
                new_count += 1;
                last_kept = true;
            } else {
                last_kept = false;
            }
        } else if lv[0] == '-' {
            if i == keep {
                crate::text::push_chars(&mut body, &lv);
                push_char(&mut body, '\n');
                old_count += 1;
                last_kept = true;
            } else if op == LineOp::Stage {
                push_char(&mut body, ' ');
                let rest = crate::text::subvec(&lv, 1, lv.len());
                crate::text::push_chars(&mut body, &rest);
                push_char(&mut body, '\n');
                old_count += 1;
                new_count += 1;
                last_kept = true;
            } else {
                last_kept = false;
            }
        }
        proof {
            assert(lv@.drop_first() =~= lv@.subrange(1, lv@.len() as int));
        }
        i += 1;
        assert(line_patch_fold(ls.subrange(0, i as int), keep as int, op).body =~= body@);
    }
    assert(ls.subrange(0, ls.len() as int) =~= ls);
    let mut out = file_header(fd);
    push_str(&mut out, "@@ -");
    push_decimal(&mut out, hunk.old_start as u64);
    push_char(&mut out, ',');
    push_decimal(&mut out, old_count as u64);
    push_str(&mut out, " +");
    push_decimal(&mut out, hunk.new_start as u64);
    push_char(&mut out, ',');
    push_decimal(&mut out, new_count as u64);
    push_str(&mut out, " @@");
    push_char(&mut out, '\n');
    push_str(&mut out, body.as_str());
    assert(out@ =~= line_patch_spec(fd@, hunk@, keep as int, op)->0);
    Some(out)
}

} // verus!
