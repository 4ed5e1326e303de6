//! Builders that turn git data into styled section trees: the status
//! buffer, file diffs (shared by status and revision buffers), revisions,
//! the process log, the rebase-todo editor and the log. Colors come from
//! the theme alone, so the scheme is configurable.

use vstd::prelude::*;

use crate::activity::signed_decimal;
use crate::git::client::ProcessEntry;
use crate::git::todo::{action_word, TodoAction, TodoEntry};
use crate::git::types::{status_word_spec, BranchInfo, DiffArea, FileDiff, Hunk, LogEntry, StashInfo, StatusSnapshot};
use crate::ops::{cat, owned};
use crate::text::{
    chars_of, contains, decimal, ends_with, find, find_exec, has_suffix, lines, lines_exec, push_char, push_decimal,
    push_str, seqs, split_once, split_once_str, starts_with, string_of, strip_prefix, strip_prefix_str, trim, trim_exec,
};
use crate::theme::{Color, Theme};
use crate::ui::pane::patch;
use crate::ui::section::{
    children_views, default_hash, lemma_children_views, line_views, Group, Line, LineView, Section, SectionView,
    SectionValue, Span, Style,
};
use crate::ui::transient::{pad, pad_str};

verus! {

pub open spec fn plain() -> Style {
    Style { fg: None, bg: None, bold: false, dim: false, reversed: false, crossed_out: false }
}

pub open spec fn fg(c: Color) -> Style {
    Style { fg: Some(c), ..plain() }
}

pub open spec fn bold_fg(c: Color) -> Style {
    Style { fg: Some(c), bold: true, ..plain() }
}

pub open spec fn bold() -> Style {
    Style { bold: true, ..plain() }
}

pub open spec fn dim() -> Style {
    Style { dim: true, ..plain() }
}

/// A section without body or children.
pub open spec fn leaf(parent: u64, key: Seq<char>, value: SectionValue, heading: LineView) -> SectionView {
    SectionView {
        id: default_hash(parent, key),
        value,
        heading,
        body: Seq::empty(),
        children: Seq::empty(),
        collapsed: false,
        compact: false,
        body_fill: None,
        margin: None,
    }
}

pub open spec fn empty_root() -> SectionView {
    SectionView {
        id: 0,
        value: SectionValue::Root,
        heading: Seq::empty(),
        body: Seq::empty(),
        children: Seq::empty(),
        collapsed: false,
        compact: false,
        body_fill: None,
        margin: None,
    }
}

fn span(text: String, style: Style) -> (r: Span)
    ensures
        r.text@ == text@,
        r.style == style,
{
    Span { text, style }
}

fn line1(text: String, style: Style) -> (r: Line)
    ensures
        r@ == seq![(text@, style)],
{
    let mut spans: Vec<Span> = Vec::new();
    spans.push(Span { text, style });
    let r = Line { spans };
    assert(r@ =~= seq![(text@, style)]);
    r
}

fn line2(a: String, sa: Style, b: String, sb: Style) -> (r: Line)
    ensures
        r@ == seq![(a@, sa), (b@, sb)],
{
    let mut spans: Vec<Span> = Vec::new();
    spans.push(Span { text: a, style: sa });
    spans.push(Span { text: b, style: sb });
    let r = Line { spans };
    assert(r@ =~= seq![(a@, sa), (b@, sb)]);
    r
}

fn blank() -> (r: Line)
    ensures
        r@ == Seq::<(Seq<char>, Style)>::empty(),
{
    let r = Line::empty();
    assert(r@ =~= Seq::<(Seq<char>, Style)>::empty());
    r
}

fn style_plain() -> (r: Style)
    ensures
        r == plain(),
{
    Style { fg: None, bg: None, bold: false, dim: false, reversed: false, crossed_out: false }
}

fn style_fg(c: Color) -> (r: Style)
    ensures
        r == fg(c),
{
    Style { fg: Some(c), bg: None, bold: false, dim: false, reversed: false, crossed_out: false }
}

fn style_bold_fg(c: Color) -> (r: Style)
    ensures
        r == bold_fg(c),
{
    Style { fg: Some(c), bg: None, bold: true, dim: false, reversed: false, crossed_out: false }
}

fn style_bold() -> (r: Style)
    ensures
        r == bold(),
{
    Style { fg: None, bg: None, bold: true, dim: false, reversed: false, crossed_out: false }
}

fn style_dim() -> (r: Style)
    ensures
        r == dim(),
{
    Style { fg: None, bg: None, bold: false, dim: true, reversed: false, crossed_out: false }
}

/// Appends a child section.
fn push_child(parent: &mut Section, child: Section)
    ensures
        final(parent)@ == (SectionView { children: old(parent)@.children.push(child@), ..old(parent)@ }),
{
    let ghost before = parent.children@;
    let ghost cv = child@;
    parent.children.push(child);
    proof {
        let n = before.len() as int;
        lemma_children_views(before, n);
        lemma_children_views(parent.children@, n + 1);
        assert(children_views(parent.children@, n + 1) =~= children_views(before, n).push(cv));
    }
}

/// Appends a body line.
fn push_line(s: &mut Section, l: Line)
    ensures
        final(s)@ == (SectionView { body: old(s)@.body.push(l@), ..old(s)@ }),
{
    let ghost before = s@;
    let ghost lines_before = s.body@;
    let ghost lv = l@;
    s.body.push(l);
    assert(line_views(s.body@) =~= line_views(lines_before).push(lv));
}

/// A diff body line, colored by its first character.
pub open spec fn diff_line_spec(t: Theme, l: Seq<char>) -> LineView {
    seq![
        (l, if l.len() > 0 && l[0] == '+' {
            fg(t.diff_add)
        } else if l.len() > 0 && l[0] == '-' {
            fg(t.diff_remove)
        } else if l.len() > 0 && l[0] == '\\' {
            dim()
        } else {
            plain()
        }),
    ]
}

fn diff_line(t: &Theme, l: &String) -> (r: Line)
    ensures
        r@ == diff_line_spec(*t, l@),
{
    let cs = chars_of(l.as_str());
    let style = if cs.len() > 0 && cs[0] == '+' {
        style_fg(t.diff_add)
    } else if cs.len() > 0 && cs[0] == '-' {
        style_fg(t.diff_remove)
    } else if cs.len() > 0 && cs[0] == '\\' {
        style_dim()
    } else {
        style_plain()
    };
    line1(l.clone(), style)
}

/// A hunk: its header as heading, its lines as body.
pub open spec fn hunk_spec(t: Theme, parent: u64, area: DiffArea, path: String, idx: int, h: Hunk) -> SectionView {
    SectionView {
        body: h.lines@.map_values(|l: String| diff_line_spec(t, l@)),
        ..leaf(
            parent,
            "hunk:"@ + decimal(h.old_start as nat),
            SectionValue::Hunk { area, path, hunk_idx: idx as usize },
            seq![(h.header@, fg(t.hunk_header))],
        )
    }
}

/// A file with its hunks as children; binary files say so in the body.
pub open spec fn file_section_spec(t: Theme, parent: u64, area: DiffArea, fd: FileDiff) -> SectionView {
    let name = match fd.old_path {
        Some(o) => o@ + " -> "@ + fd.path@,
        None => fd.path@,
    };
    let id = default_hash(parent, "file:"@ + fd.path@);
    SectionView {
        id,
        value: SectionValue::File { area, path: fd.path },
        heading: seq![(status_word_spec(fd@) + "   "@, fg(t.file_status)), (name, bold())],
        body: if fd.is_binary {
            seq![seq![("(binary file)"@, dim())]]
        } else {
            Seq::empty()
        },
        children: Seq::new(fd.hunks@.len(), |i: int| hunk_spec(t, id, area, fd.path, i, fd.hunks@[i])),
        collapsed: false,
        compact: false,
        body_fill: None,
        margin: None,
    }
}

fn hunk_section(t: &Theme, parent: u64, area: DiffArea, path: &String, idx: usize, h: &Hunk) -> (r: Section)
    ensures
        r@ == hunk_spec(*t, parent, area, *path, idx as int, *h),
{
    let mut key = owned("hunk:");
    push_decimal(&mut key, h.old_start as u64);
    let mut sec = Section::new(
        parent,
        key.as_str(),
        SectionValue::Hunk { area, path: path.clone(), hunk_idx: idx },
        line1(h.header.clone(), style_fg(t.hunk_header)),
    );
    let ghost base = sec@;
    let ghost want = h.lines@.map_values(|l: String| diff_line_spec(*t, l@));
    let mut i: usize = 0;
    assert(base.body =~= want.take(0));
    while i < h.lines.len()
        invariant
            i <= h.lines@.len(),
            want == h.lines@.map_values(|l: String| diff_line_spec(*t, l@)),
            sec@ == (SectionView { body: want.take(i as int), ..base }),
        decreases h.lines.len() - i,
    {
        let l = diff_line(t, &h.lines[i]);
        push_line(&mut sec, l);
        assert(want.take(i + 1) =~= want.take(i as int).push(want[i as int]));
        i += 1;
    }
    assert(want.take(i as int) =~= want);
    sec
}

/// A file section with its hunks as children, shared by status and
/// revision buffers.
pub fn file_section(t: &Theme, parent: u64, area: DiffArea, fd: &FileDiff) -> (r: Section)
    ensures
        r@ == file_section_spec(*t, parent, area, *fd),
{
    let name = match &fd.old_path {
        Some(old) => {
            let mut n = cat(old.as_str(), " -> ");
            push_str(&mut n, fd.path.as_str());
            n
        },
        None => fd.path.clone(),
    };
    let key = cat("file:", fd.path.as_str());
    let word = cat(fd.status_word(), "   ");
    let mut sec = Section::new(
        parent,
        key.as_str(),
        SectionValue::File { area, path: fd.path.clone() },
        line2(word, style_fg(t.file_status), name, style_bold()),
    );
    if fd.is_binary {
        push_line(&mut sec, line1(owned("(binary file)"), style_dim()));
        assert(sec@.body =~= seq![seq![("(binary file)"@, dim())]]);
    } else {
        assert(sec@.body =~= Seq::<LineView>::empty());
    }
    let ghost base = sec@;
    let ghost id = sec.id;
    let ghost want = Seq::new(fd.hunks@.len(), |i: int| hunk_spec(*t, id, area, fd.path, i, fd.hunks@[i]));
    let mut i: usize = 0;
    assert(base.children =~= want.take(0));
    while i < fd.hunks.len()
        invariant
            i <= fd.hunks@.len(),
            id == sec.id,
            id == default_hash(parent, "file:"@ + fd.path@),
            want == Seq::new(fd.hunks@.len(), |i: int| hunk_spec(*t, id, area, fd.path, i, fd.hunks@[i])),
            sec@ == (SectionView { children: want.take(i as int), ..base }),
        decreases fd.hunks.len() - i,
    {
        let h = hunk_section(t, sec.id, area, &fd.path, i, &fd.hunks[i]);
        push_child(&mut sec, h);
        assert(want.take(i + 1) =~= want.take(i as int).push(want[i as int]));
        i += 1;
    }
    assert(want.take(i as int) =~= want);
    sec
}

/// A revision buffer: the commit header as body lines, then its files.
pub open spec fn revision_spec(t: Theme, header: Seq<char>, files: Seq<FileDiff>) -> SectionView {
    SectionView {
        body: lines(header).map_values(|l: Seq<char>| seq![(l, plain())]),
        children: files.map_values(|fd: FileDiff| file_section_spec(t, 0, DiffArea::Committed, fd)),
        ..empty_root()
    }
}

/// The buffer RET opens on a commit or stash.
pub fn build_revision(t: &Theme, header: &str, files: &Vec<FileDiff>) -> (r: Section)
    ensures
        r@ == revision_spec(*t, header@, files@),
{
    let mut root = Section::root();
    assert(root@ == empty_root()) by {
        assert(root@.heading =~= Seq::<(Seq<char>, Style)>::empty());
        assert(root@.body =~= Seq::<LineView>::empty());
        assert(root@.children =~= Seq::<SectionView>::empty());
    }
    let cs = chars_of(header);
    let ls = lines_exec(&cs);
    let ghost body = lines(header@).map_values(|l: Seq<char>| seq![(l, plain())]);
    let mut i: usize = 0;
    while i < ls.len()
        invariant
            i <= ls@.len(),
            seqs(ls@) == lines(header@),
            body == lines(header@).map_values(|l: Seq<char>| seq![(l, plain())]),
            root@ == (SectionView { body: body.take(i as int), ..empty_root() }),
        decreases ls.len() - i,
    {
        assert(seqs(ls@)[i as int] == ls@[i as int]@);
        push_line(&mut root, line1(string_of(&ls[i]), style_plain()));
        assert(body.take(i + 1) =~= body.take(i as int).push(body[i as int]));
        i += 1;
    }
    assert(body.take(i as int) =~= body);
    let ghost kids = files@.map_values(|fd: FileDiff| file_section_spec(*t, 0, DiffArea::Committed, fd));
    let ghost base = root@;
    let mut k: usize = 0;
    assert(base.children =~= kids.take(0));
    while k < files.len()
        invariant
            k <= files@.len(),
            kids == files@.map_values(|fd: FileDiff| file_section_spec(*t, 0, DiffArea::Committed, fd)),
            root@ == (SectionView { children: kids.take(k as int), ..base }),
        decreases files.len() - k,
    {
        let f = file_section(t, 0, DiffArea::Committed, &files[k]);
        push_child(&mut root, f);
        assert(kids.take(k + 1) =~= kids.take(k as int).push(kids[k as int]));
        k += 1;
    }
    assert(kids.take(k as int) =~= kids);
    root
}

/// An integer in decimal, negative ones with a minus sign.
fn push_signed64(out: &mut String, n: i64)
    ensures
        final(out)@ == old(out)@ + signed_decimal(n as int),
{
    if n < 0 {
        push_str(out, "-");
        let m: i128 = -(n as i128);
        push_decimal(out, m as u64);
    } else {
        push_decimal(out, n as u64);
    }
}

/// The branch in the status header: its name, or whether HEAD is detached.
pub open spec fn branch_span(t: Theme, b: BranchInfo) -> (Seq<char>, Style) {
    match b.head {
        Some(n) => (n@, bold_fg(t.branch)),
        None => if b.detached {
            ("(detached)"@, fg(t.repo_state))
        } else {
            ("(no branch)"@, fg(t.repo_state))
        },
    }
}

pub open spec fn head_line_spec(t: Theme, s: StatusSnapshot) -> LineView {
    seq![
        ("Head:     "@, dim()),
        branch_span(t, s.branch),
        (" "@, plain()),
        (match s.head_summary {
            Some(x) => x@,
            None => "(no commits yet)"@,
        }, plain()),
    ]
}

pub open spec fn merge_line_spec(t: Theme, b: BranchInfo, u: Seq<char>) -> LineView {
    seq![("Merge:    "@, dim()), (u, fg(t.upstream))] + if b.ahead != 0 || b.behind != 0 {
        seq![
            (" (ahead "@ + signed_decimal(b.ahead as int) + ", behind "@ + signed_decimal(b.behind as int) + ")"@, plain()),
        ]
    } else {
        Seq::empty()
    }
}

/// The status header: `Head:` with the branch and HEAD's summary, then the
/// upstream with how far ahead and behind (if any), then the operation in
/// progress (if any).
pub open spec fn header_spec(t: Theme, s: StatusSnapshot) -> Seq<LineView> {
    let head = head_line_spec(t, s);
    let merge = match s.branch.upstream {
        Some(u) => seq![merge_line_spec(t, s.branch, u@)],
        None => Seq::empty(),
    };
    let state = match s.state {
        Some(st) => seq![seq![("State:    "@, dim()), (st@, bold_fg(t.repo_state))]],
        None => Seq::empty(),
    };
    seq![head] + merge + state
}

fn header_lines(t: &Theme, s: &StatusSnapshot) -> (r: Vec<Line>)
    ensures
        line_views(r@) == header_spec(*t, *s),
{
    let mut out: Vec<Line> = Vec::new();
    let (bname, bstyle) = match &s.branch.head {
        Some(n) => (n.clone(), style_bold_fg(t.branch)),
        None => if s.branch.detached {
            (owned("(detached)"), style_fg(t.repo_state))
        } else {
            (owned("(no branch)"), style_fg(t.repo_state))
        },
    };
    let summary = match &s.head_summary {
        Some(x) => x.clone(),
        None => owned("(no commits yet)"),
    };
    let mut spans: Vec<Span> = Vec::new();
    spans.push(span(owned("Head:     "), style_dim()));
    spans.push(span(bname, bstyle));
    spans.push(span(owned(" "), style_plain()));
    spans.push(span(summary, style_plain()));
    let head = Line { spans };
    assert(head@ =~= head_line_spec(*t, *s));
    out.push(head);
    assert(line_views(out@) =~= seq![head_line_spec(*t, *s)]);
    match &s.branch.upstream {
        Some(u) => {
            let mut spans: Vec<Span> = Vec::new();
            spans.push(span(owned("Merge:    "), style_dim()));
            spans.push(span(u.clone(), style_fg(t.upstream)));
            if s.branch.ahead != 0 || s.branch.behind != 0 {
                let mut counts = owned(" (ahead ");
                push_signed64(&mut counts, s.branch.ahead);
                push_str(&mut counts, ", behind ");
                push_signed64(&mut counts, s.branch.behind);
                push_str(&mut counts, ")");
                spans.push(span(counts, style_plain()));
            }
            let l = Line { spans };
            assert(l@ =~= merge_line_spec(*t, s.branch, u@));
            let ghost before = line_views(out@);
            out.push(l);
            assert(line_views(out@) =~= before.push(l@));
        },
        None => {},
    }
    match &s.state {
        Some(st) => {
            let l = line2(owned("State:    "), style_dim(), st.clone(), style_bold_fg(t.repo_state));
            let ghost before = line_views(out@);
            out.push(l);
            assert(line_views(out@) =~= before.push(l@));
        },
        None => {},
    }
    assert(line_views(out@) =~= header_spec(*t, *s));
    out
}

/// A group of the status buffer: its heading with the count (the recent
/// commits show none) and its members.
pub open spec fn group_spec(t: Theme, key: Seq<char>, g: Group, title: Seq<char>, children: Seq<SectionView>) -> SectionView {
    SectionView {
        children,
        ..leaf(0, key, SectionValue::Group(g), seq![(title, bold_fg(t.section_heading))])
    }
}

pub open spec fn counted(title: Seq<char>, n: nat) -> Seq<char> {
    title + " ("@ + decimal(n) + ")"@
}

pub open spec fn untracked_kids(t: Theme, gid: u64, ps: Seq<String>) -> Seq<SectionView> {
    ps.map_values(
        |p: String|
            leaf(
                gid,
                "file:"@ + p@,
                SectionValue::File { area: DiffArea::Untracked, path: p },
                seq![(p@, fg(t.untracked))],
            ),
    )
}

pub open spec fn unmerged_kids(t: Theme, gid: u64, ps: Seq<String>) -> Seq<SectionView> {
    ps.map_values(
        |p: String| leaf(gid, "file:"@ + p@, SectionValue::Text, seq![("conflict   "@ + p@, fg(t.conflict))]),
    )
}

pub open spec fn file_kids(t: Theme, gid: u64, area: DiffArea, fs: Seq<FileDiff>) -> Seq<SectionView> {
    fs.map_values(|fd: FileDiff| file_section_spec(t, gid, area, fd))
}

pub open spec fn stash_kids(t: Theme, gid: u64, ss: Seq<StashInfo>) -> Seq<SectionView> {
    ss.map_values(
        |st: StashInfo|
            leaf(
                gid,
                "stash:"@ + decimal(st.index as nat),
                SectionValue::Stash { index: st.index },
                seq![("stash@{"@ + decimal(st.index as nat) + "}"@, fg(t.hash)), (" "@ + st.message@, plain())],
            ),
    )
}

pub open spec fn commit_kids(t: Theme, gid: u64, cs: Seq<LogEntry>) -> Seq<SectionView> {
    cs.map_values(
        |c: LogEntry|
            leaf(
                gid,
                "commit:"@ + c.hash@,
                SectionValue::Commit { hash: c.hash },
                seq![(c.hash@, fg(t.hash)), (" "@ + c.subject@, plain())],
            ),
    )
}

/// The status buffer's groups, each only when it has members: untracked,
/// unmerged, unstaged, staged, stashes, recent commits.
pub open spec fn status_groups(t: Theme, s: StatusSnapshot) -> Seq<SectionView> {
    let gu = default_hash(0, "group:untracked"@);
    let gm = default_hash(0, "group:unmerged"@);
    let gw = default_hash(0, "group:unstaged"@);
    let gi = default_hash(0, "group:staged"@);
    let gs = default_hash(0, "group:stashes"@);
    let gr = default_hash(0, "group:recent"@);
    (if s.untracked@.len() > 0 {
        seq![
            group_spec(
                t,
                "group:untracked"@,
                Group::Untracked,
                counted("Untracked files"@, s.untracked@.len()),
                untracked_kids(t, gu, s.untracked@),
            ),
        ]
    } else {
        Seq::empty()
    }) + (if s.unmerged@.len() > 0 {
        seq![
            group_spec(
                t,
                "group:unmerged"@,
                Group::Unmerged,
                counted("Unmerged paths"@, s.unmerged@.len()),
                unmerged_kids(t, gm, s.unmerged@),
            ),
        ]
    } else {
        Seq::empty()
    }) + (if s.unstaged@.len() > 0 {
        seq![
            group_spec(
                t,
                "group:unstaged"@,
                Group::Unstaged,
                counted("Unstaged changes"@, s.unstaged@.len()),
                file_kids(t, gw, DiffArea::Unstaged, s.unstaged@),
            ),
        ]
    } else {
        Seq::empty()
    }) + (if s.staged@.len() > 0 {
        seq![
            group_spec(
                t,
                "group:staged"@,
                Group::Staged,
                counted("Staged changes"@, s.staged@.len()),
                file_kids(t, gi, DiffArea::Staged, s.staged@),
            ),
        ]
    } else {
        Seq::empty()
    }) + (if s.stashes@.len() > 0 {
        seq![
            group_spec(
                t,
                "group:stashes"@,
                Group::Stashes,
                counted("Stashes"@, s.stashes@.len()),
                stash_kids(t, gs, s.stashes@),
            ),
        ]
    } else {
        Seq::empty()
    }) + (if s.recent@.len() > 0 {
        seq![group_spec(t, "group:recent"@, Group::Recent, "Recent commits"@, commit_kids(t, gr, s.recent@))]
    } else {
        Seq::empty()
    })
}

/// A status group listing the files `fs` of `area`: its heading is `title`
/// with the number of files, and it holds one file section per file, in
/// order, each naming that file in `area`.
pub open spec fn lists_files(g: SectionView, title: Seq<char>, area: DiffArea, fs: Seq<FileDiff>) -> bool {
    &&& g.heading.len() == 1
    &&& g.heading[0].0 == title + " ("@ + decimal(fs.len()) + ")"@
    &&& g.children.len() == fs.len()
    &&& forall|k: int|
        0 <= k < fs.len() ==> (#[trigger] g.children[k]).value == (SectionValue::File { area, path: fs[k].path })
}

/// A status group listing the untracked paths `ps`, counted, in order.
pub open spec fn lists_untracked(g: SectionView, ps: Seq<String>) -> bool {
    &&& g.heading.len() == 1
    &&& g.heading[0].0 == "Untracked files"@ + " ("@ + decimal(ps.len()) + ")"@
    &&& g.children.len() == ps.len()
    &&& forall|k: int|
        0 <= k < ps.len() ==> (#[trigger] g.children[k]).value == (SectionValue::File {
            area: DiffArea::Untracked,
            path: ps[k],
        })
}

/// The status buffer shows each kind of change in its own group: there is
/// an untracked, an unstaged and a staged group exactly when the snapshot
/// has such files, and each lists exactly the snapshot's files of its kind,
/// in order, under a heading that counts them.
pub proof fn law_status_groups_list_their_files(t: Theme, s: StatusSnapshot)
    ensures
        ({
            let cs = status_spec(t, s).children;
            &&& (exists|i: int| 0 <= i < cs.len() && (#[trigger] cs[i]).value == SectionValue::Group(Group::Unstaged))
                <==> s.unstaged@.len() > 0
            &&& (exists|i: int| 0 <= i < cs.len() && (#[trigger] cs[i]).value == SectionValue::Group(Group::Staged))
                <==> s.staged@.len() > 0
            &&& (exists|i: int| 0 <= i < cs.len() && (#[trigger] cs[i]).value == SectionValue::Group(Group::Untracked))
                <==> s.untracked@.len() > 0
            &&& forall|i: int|
                0 <= i < cs.len() && (#[trigger] cs[i]).value == SectionValue::Group(Group::Unstaged) ==> lists_files(
                    cs[i],
                    "Unstaged changes"@,
                    DiffArea::Unstaged,
                    s.unstaged@,
                )
            &&& forall|i: int|
                0 <= i < cs.len() && (#[trigger] cs[i]).value == SectionValue::Group(Group::Staged) ==> lists_files(
                    cs[i],
                    "Staged changes"@,
                    DiffArea::Staged,
                    s.staged@,
                )
            &&& forall|i: int|
                0 <= i < cs.len() && (#[trigger] cs[i]).value == SectionValue::Group(Group::Untracked)
                    ==> lists_untracked(cs[i], s.untracked@)
        }),
{
    let gu = default_hash(0, "group:untracked"@);
    let gw = default_hash(0, "group:unstaged"@);
    let gi = default_hash(0, "group:staged"@);
    let gm = default_hash(0, "group:unmerged"@);
    let gs = default_hash(0, "group:stashes"@);
    let gr = default_hash(0, "group:recent"@);
    let a = if s.untracked@.len() > 0 {
        seq![group_spec(t, "group:untracked"@, Group::Untracked, counted("Untracked files"@, s.untracked@.len()), untracked_kids(t, gu, s.untracked@))]
    } else {
        Seq::<SectionView>::empty()
    };
    let b = if s.unmerged@.len() > 0 {
        seq![group_spec(t, "group:unmerged"@, Group::Unmerged, counted("Unmerged paths"@, s.unmerged@.len()), unmerged_kids(t, gm, s.unmerged@))]
    } else {
        Seq::<SectionView>::empty()
    };
    let c = if s.unstaged@.len() > 0 {
        seq![group_spec(t, "group:unstaged"@, Group::Unstaged, counted("Unstaged changes"@, s.unstaged@.len()), file_kids(t, gw, DiffArea::Unstaged, s.unstaged@))]
    } else {
        Seq::<SectionView>::empty()
    };
    let d = if s.staged@.len() > 0 {
        seq![group_spec(t, "group:staged"@, Group::Staged, counted("Staged changes"@, s.staged@.len()), file_kids(t, gi, DiffArea::Staged, s.staged@))]
    } else {
        Seq::<SectionView>::empty()
    };
    let e = if s.stashes@.len() > 0 {
        seq![group_spec(t, "group:stashes"@, Group::Stashes, counted("Stashes"@, s.stashes@.len()), stash_kids(t, gs, s.stashes@))]
    } else {
        Seq::<SectionView>::empty()
    };
    let f = if s.recent@.len() > 0 {
        seq![group_spec(t, "group:recent"@, Group::Recent, "Recent commits"@, commit_kids(t, gr, s.recent@))]
    } else {
        Seq::<SectionView>::empty()
    };
    let cs = status_spec(t, s).children;
    assert(cs == a + b + c + d + e + f);
    assert forall|i: int| 0 <= i < cs.len() implies {
        ||| (i < a.len() && cs[i] == a[0])
        ||| (a.len() <= i < a.len() + b.len() && cs[i] == b[0])
        ||| (a.len() + b.len() <= i < a.len() + b.len() + c.len() && cs[i] == c[0])
        ||| (a.len() + b.len() + c.len() <= i < a.len() + b.len() + c.len() + d.len() && cs[i] == d[0])
        ||| (a.len() + b.len() + c.len() + d.len() <= i < a.len() + b.len() + c.len() + d.len() + e.len() && cs[i] == e[0])
        ||| (a.len() + b.len() + c.len() + d.len() + e.len() <= i && cs[i] == f[0])
    } by {
        let ab = a + b;
        let abc = ab + c;
        let abcd = abc + d;
        let abcde = abcd + e;
        if i < abcde.len() {
            assert(cs[i] == abcde[i]);
            if i < abcd.len() {
                assert(abcde[i] == abcd[i]);
                if i < abc.len() {
                    assert(abcd[i] == abc[i]);
                    if i < ab.len() {
                        assert(abc[i] == ab[i]);
                    }
                }
            }
        }
    }
    let title_u = "Unstaged changes"@;
    let title_s = "Staged changes"@;
    let kw = file_kids(t, gw, DiffArea::Unstaged, s.unstaged@);
    let ki = file_kids(t, gi, DiffArea::Staged, s.staged@);
    let ku = untracked_kids(t, gu, s.untracked@);
    if s.unstaged@.len() > 0 {
        assert(cs[(a.len() + b.len()) as int] == c[0]);
        assert forall|k: int| 0 <= k < s.unstaged@.len() implies (#[trigger] kw[k]).value == (SectionValue::File {
            area: DiffArea::Unstaged,
            path: s.unstaged@[k].path,
        }) by {}
        assert(lists_files(c[0], title_u, DiffArea::Unstaged, s.unstaged@));
    }
    if s.staged@.len() > 0 {
        assert(cs[(a.len() + b.len() + c.len()) as int] == d[0]);
        assert forall|k: int| 0 <= k < s.staged@.len() implies (#[trigger] ki[k]).value == (SectionValue::File {
            area: DiffArea::Staged,
            path: s.staged@[k].path,
        }) by {}
        assert(lists_files(d[0], title_s, DiffArea::Staged, s.staged@));
    }
    if s.untracked@.len() > 0 {
        assert(cs[0] == a[0]);
        assert forall|k: int| 0 <= k < s.untracked@.len() implies (#[trigger] ku[k]).value == (SectionValue::File {
            area: DiffArea::Untracked,
            path: s.untracked@[k],
        }) by {}
        assert(lists_untracked(a[0], s.untracked@));
    }
}

/// The status buffer: the header, then the groups; a clean tree says so.
pub open spec fn status_spec(t: Theme, s: StatusSnapshot) -> SectionView {
    let groups = status_groups(t, s);
    let header = header_spec(t, s);
    SectionView {
        body: if groups.len() == 0 && header.len() <= 3 {
            header + seq![
                Seq::<(Seq<char>, Style)>::empty(),
                seq![("Nothing to see here \u{2014} working tree clean."@, dim())],
            ]
        } else {
            header
        },
        children: groups,
        ..empty_root()
    }
}

fn group_section(t: &Theme, key: &str, g: Group, title: String) -> (r: Section)
    ensures
        r@ == group_spec(*t, key@, g, title@, Seq::empty()),
{
    let r = Section::new(0, key, SectionValue::Group(g), line1(title, style_bold_fg(t.section_heading)));
    assert(r@.body =~= Seq::<LineView>::empty());
    assert(r@.children =~= Seq::<SectionView>::empty());
    r
}

fn counted_title(title: &str, n: usize) -> (r: String)
    ensures
        r@ == counted(title@, n as nat),
{
    let mut s = cat(title, " (");
    push_decimal(&mut s, n as u64);
    push_str(&mut s, ")");
    s
}

fn untracked_group(t: &Theme, ps: &Vec<String>) -> (r: Section)
    ensures
        r@ == group_spec(
            *t,
            "group:untracked"@,
            Group::Untracked,
            counted("Untracked files"@, ps@.len()),
            untracked_kids(*t, default_hash(0, "group:untracked"@), ps@),
        ),
{
    let mut g = group_section(t, "group:untracked", Group::Untracked, counted_title("Untracked files", ps.len()));
    let ghost base = g@;
    let ghost want = untracked_kids(*t, g.id, ps@);
    let mut i: usize = 0;
    assert(base.children =~= want.take(0));
    while i < ps.len()
        invariant
            i <= ps@.len(),
            want == untracked_kids(*t, g.id, ps@),
            g@ == (SectionView { children: want.take(i as int), ..base }),
        decreases ps.len() - i,
    {
        let p = &ps[i];
        let key = cat("file:", p.as_str());
        let c = Section::new(
            g.id,
            key.as_str(),
            SectionValue::File { area: DiffArea::Untracked, path: p.clone() },
            line1(p.clone(), style_fg(t.untracked)),
        );
        assert(c@ =~= want[i as int]);
        push_child(&mut g, c);
        assert(want.take(i + 1) =~= want.take(i as int).push(want[i as int]));
        i += 1;
    }
    assert(want.take(i as int) =~= want);
    g
}

fn unmerged_group(t: &Theme, ps: &Vec<String>) -> (r: Section)
    ensures
        r@ == group_spec(
            *t,
            "group:unmerged"@,
            Group::Unmerged,
            counted("Unmerged paths"@, ps@.len()),
            unmerged_kids(*t, default_hash(0, "group:unmerged"@), ps@),
        ),
{
    let mut g = group_section(t, "group:unmerged", Group::Unmerged, counted_title("Unmerged paths", ps.len()));
    let ghost base = g@;
    let ghost want = unmerged_kids(*t, g.id, ps@);
    let mut i: usize = 0;
    assert(base.children =~= want.take(0));
    while i < ps.len()
        invariant
            i <= ps@.len(),
            want == unmerged_kids(*t, g.id, ps@),
            g@ == (SectionView { children: want.take(i as int), ..base }),
        decreases ps.len() - i,
    {
        let p = &ps[i];
        let key = cat("file:", p.as_str());
        let c = Section::new(
            g.id,
            key.as_str(),
            SectionValue::Text,
            line1(cat("conflict   ", p.as_str()), style_fg(t.conflict)),
        );
        assert(c@ =~= want[i as int]);
        push_child(&mut g, c);
        assert(want.take(i + 1) =~= want.take(i as int).push(want[i as int]));
        i += 1;
    }
    assert(want.take(i as int) =~= want);
    g
}

fn files_group(t: &Theme, key: &str, g0: Group, title: &str, area: DiffArea, fs: &Vec<FileDiff>) -> (r: Section)
    ensures
        r@ == group_spec(*t, key@, g0, counted(title@, fs@.len()), file_kids(*t, default_hash(0, key@), area, fs@)),
{
    let mut g = group_section(t, key, g0, counted_title(title, fs.len()));
    let ghost base = g@;
    let ghost want = file_kids(*t, g.id, area, fs@);
    let mut i: usize = 0;
    assert(base.children =~= want.take(0));
    while i < fs.len()
        invariant
            i <= fs@.len(),
            want == file_kids(*t, g.id, area, fs@),
            g@ == (SectionView { children: want.take(i as int), ..base }),
        decreases fs.len() - i,
    {
        let c = file_section(t, g.id, area, &fs[i]);
        push_child(&mut g, c);
        assert(want.take(i + 1) =~= want.take(i as int).push(want[i as int]));
        i += 1;
    }
    assert(want.take(i as int) =~= want);
    g
}

fn stash_group(t: &Theme, ss: &Vec<StashInfo>) -> (r: Section)
    ensures
        r@ == group_spec(
            *t,
            "group:stashes"@,
            Group::Stashes,
            counted("Stashes"@, ss@.len()),
            stash_kids(*t, default_hash(0, "group:stashes"@), ss@),
        ),
{
    let mut g = group_section(t, "group:stashes", Group::Stashes, counted_title("Stashes", ss.len()));
    let ghost base = g@;
    let ghost want = stash_kids(*t, g.id, ss@);
    let mut i: usize = 0;
    assert(base.children =~= want.take(0));
    while i < ss.len()
        invariant
            i <= ss@.len(),
            want == stash_kids(*t, g.id, ss@),
            g@ == (SectionView { children: want.take(i as int), ..base }),
        decreases ss.len() - i,
    {
        let st = &ss[i];
        let mut key = owned("stash:");
        push_decimal(&mut key, st.index as u64);
        let mut name = owned("stash@{");
        push_decimal(&mut name, st.index as u64);
        push_str(&mut name, "}");
        let c = Section::new(
            g.id,
            key.as_str(),
            SectionValue::Stash { index: st.index },
            line2(name, style_fg(t.hash), cat(" ", st.message.as_str()), style_plain()),
        );
        assert(c@ =~= want[i as int]);
        push_child(&mut g, c);
        assert(want.take(i + 1) =~= want.take(i as int).push(want[i as int]));
        i += 1;
    }
    assert(want.take(i as int) =~= want);
    g
}

fn recent_group(t: &Theme, cs: &Vec<LogEntry>) -> (r: Section)
    ensures
        r@ == group_spec(
            *t,
            "group:recent"@,
            Group::Recent,
            "Recent commits"@,
            commit_kids(*t, default_hash(0, "group:recent"@), cs@),
        ),
{
    let mut g = group_section(t, "group:recent", Group::Recent, owned("Recent commits"));
    let ghost base = g@;
    let ghost want = commit_kids(*t, g.id, cs@);
    let mut i: usize = 0;
    assert(base.children =~= want.take(0));
    while i < cs.len()
        invariant
            i <= cs@.len(),
            want == commit_kids(*t, g.id, cs@),
            g@ == (SectionView { children: want.take(i as int), ..base }),
        decreases cs.len() - i,
    {
        let c = &cs[i];
        let key = cat("commit:", c.hash.as_str());
        let sec = Section::new(
            g.id,
            key.as_str(),
            SectionValue::Commit { hash: c.hash.clone() },
            line2(c.hash.clone(), style_fg(t.hash), cat(" ", c.subject.as_str()), style_plain()),
        );
        assert(sec@ =~= want[i as int]);
        push_child(&mut g, sec);
        assert(want.take(i + 1) =~= want.take(i as int).push(want[i as int]));
        i += 1;
    }
    assert(want.take(i as int) =~= want);
    g
}

/// The status buffer of a snapshot.
pub fn build_status(t: &Theme, s: &StatusSnapshot) -> (r: Section)
    ensures
        r@ == status_spec(*t, *s),
{
    let mut root = Section::root();
    root.body = header_lines(t, s);
    let ghost header = header_spec(*t, *s);
    assert(root@ == (SectionView { body: header, ..empty_root() })) by {
        assert(root@.heading =~= Seq::<(Seq<char>, Style)>::empty());
        assert(root@.children =~= Seq::<SectionView>::empty());
    }
    let ghost groups = status_groups(*t, *s);
    if s.untracked.len() > 0 {
        push_child(&mut root, untracked_group(t, &s.untracked));
    }
    if s.unmerged.len() > 0 {
        push_child(&mut root, unmerged_group(t, &s.unmerged));
    }
    if s.unstaged.len() > 0 {
        push_child(&mut root, files_group(t, "group:unstaged", Group::Unstaged, "Unstaged changes", DiffArea::Unstaged, &s.unstaged));
    }
    if s.staged.len() > 0 {
        push_child(&mut root, files_group(t, "group:staged", Group::Staged, "Staged changes", DiffArea::Staged, &s.staged));
    }
    if s.stashes.len() > 0 {
        push_child(&mut root, stash_group(t, &s.stashes));
    }
    if s.recent.len() > 0 {
        push_child(&mut root, recent_group(t, &s.recent));
    }
    assert(root@.children =~= groups);
    if root.children.len() == 0 && root.body.len() <= 3 {
        push_line(&mut root, blank());
        push_line(&mut root, line1(owned("Nothing to see here \u{2014} working tree clean."), style_dim()));
    }
    root
}

/// One run in the `$` buffer: `[status] command`, its output as body.
pub open spec fn proc_spec(t: Theme, i: int, e: ProcessEntry) -> SectionView {
    SectionView {
        body: lines(e.output@).map_values(|l: Seq<char>| seq![(l, dim())]),
        ..leaf(
            0,
            "proc:"@ + decimal(i as nat),
            SectionValue::Text,
            seq![
                ("["@ + signed_decimal(e.status as int) + "] "@, if e.status == 0 {
                    fg(t.success)
                } else {
                    fg(t.error)
                }),
                (e.cmd@, bold()),
            ],
        )
    }
}

/// The `$` buffer: every git command the app ran, newest last.
pub open spec fn process_log_spec(t: Theme, es: Seq<ProcessEntry>) -> SectionView {
    if es.len() == 0 {
        SectionView { body: seq![seq![("No git commands run yet."@, dim())]], ..empty_root() }
    } else {
        SectionView { children: Seq::new(es.len(), |i: int| proc_spec(t, i, es[i])), ..empty_root() }
    }
}

fn proc_section(t: &Theme, i: usize, e: &ProcessEntry) -> (r: Section)
    ensures
        r@ == proc_spec(*t, i as int, *e),
{
    let mut key = owned("proc:");
    push_decimal(&mut key, i as u64);
    let mut status = owned("[");
    crate::activity::push_signed_pub(&mut status, e.status);
    push_str(&mut status, "] ");
    let st = if e.status == 0 {
        style_fg(t.success)
    } else {
        style_fg(t.error)
    };
    let mut sec = Section::new(0, key.as_str(), SectionValue::Text, line2(status, st, e.cmd.clone(), style_bold()));
    let ghost base = sec@;
    assert(base.body =~= Seq::<LineView>::empty());
    let cs = chars_of(e.output.as_str());
    let ls = lines_exec(&cs);
    let ghost want = lines(e.output@).map_values(|l: Seq<char>| seq![(l, dim())]);
    let mut k: usize = 0;
    while k < ls.len()
        invariant
            k <= ls@.len(),
            seqs(ls@) == lines(e.output@),
            want == lines(e.output@).map_values(|l: Seq<char>| seq![(l, dim())]),
            sec@ == (SectionView { body: want.take(k as int), ..base }),
        decreases ls.len() - k,
    {
        assert(seqs(ls@)[k as int] == ls@[k as int]@);
        push_line(&mut sec, line1(string_of(&ls[k]), style_dim()));
        assert(want.take(k + 1) =~= want.take(k as int).push(want[k as int]));
        k += 1;
    }
    assert(want.take(k as int) =~= want);
    sec
}

pub fn build_process_log(t: &Theme, entries: &Vec<ProcessEntry>) -> (r: Section)
    ensures
        r@ == process_log_spec(*t, entries@),
{
    let mut root = Section::root();
    assert(root@ == empty_root()) by {
        assert(root@.heading =~= Seq::<(Seq<char>, Style)>::empty());
        assert(root@.body =~= Seq::<LineView>::empty());
        assert(root@.children =~= Seq::<SectionView>::empty());
    }
    if entries.len() == 0 {
        push_line(&mut root, line1(owned("No git commands run yet."), style_dim()));
        assert(root@.body =~= seq![seq![("No git commands run yet."@, dim())]]);
        return root;
    }
    let ghost want = Seq::new(entries@.len(), |i: int| proc_spec(*t, i, entries@[i]));
    let mut i: usize = 0;
    assert(Seq::<SectionView>::empty() =~= want.take(0));
    while i < entries.len()
        invariant
            i <= entries@.len(),
            want == Seq::new(entries@.len(), |i: int| proc_spec(*t, i, entries@[i])),
            root@ == (SectionView { children: want.take(i as int), ..empty_root() }),
        decreases entries.len() - i,
    {
        let c = proc_section(t, i, &entries[i]);
        push_child(&mut root, c);
        assert(want.take(i + 1) =~= want.take(i as int).push(want[i as int]));
        i += 1;
    }
    assert(want.take(i as int) =~= want);
    root
}

/// A header bar line: bold, in the header colors.
pub open spec fn header_bar(t: Theme, title: Seq<char>) -> LineView {
    seq![(title, Style { fg: Some(t.header_fg), bg: Some(t.header_bg), bold: true, ..plain() })]
}

/// A dropped commit is struck through.
pub open spec fn todo_row_spec(t: Theme, e: TodoEntry) -> SectionView {
    let dropped = e.action == TodoAction::Drop;
    let action_style = if dropped {
        Style { fg: Some(t.error), crossed_out: true, ..plain() }
    } else {
        fg(t.todo_action)
    };
    let rest = if dropped {
        Style { dim: true, crossed_out: true, ..plain() }
    } else {
        plain()
    };
    leaf(
        0,
        "commit:"@ + e.hash@,
        SectionValue::Commit { hash: e.hash },
        seq![
            (pad(action_word(e.action), 7), action_style),
            (e.hash@, patch(rest, fg(t.hash))),
            (" "@ + e.subject@, rest),
        ],
    )
}

pub open spec fn todo_hints() -> SectionView {
    SectionView {
        body: seq![
            seq![("p pick  r reword  e edit  s squash  f fixup  d drop"@, dim())],
            seq![("M-j/M-k move commit  RET show commit  C-c C-c rebase  C-c C-k abort"@, dim())],
        ],
        ..leaf(0, "hints"@, SectionValue::Text, Seq::empty())
    }
}

/// The rebase-todo editor buffer: one commit per line, `<action> <hash>
/// <subject>`, oldest first, then a dim block of key hints.
pub open spec fn rebase_todo_spec(t: Theme, title: Seq<char>, es: Seq<TodoEntry>) -> SectionView {
    SectionView {
        compact: true,
        body_fill: Some(t.header_bg),
        body: seq![header_bar(t, title)],
        children: es.map_values(|e: TodoEntry| todo_row_spec(t, e)) + seq![todo_hints()],
        ..empty_root()
    }
}

fn header_line(t: &Theme, title: &str) -> (r: Line)
    ensures
        r@ == header_bar(*t, title@),
{
    line1(
        owned(title),
        Style { fg: Some(t.header_fg), bg: Some(t.header_bg), bold: true, dim: false, reversed: false, crossed_out: false },
    )
}

fn todo_row(t: &Theme, e: &TodoEntry) -> (r: Section)
    ensures
        r@ == todo_row_spec(*t, *e),
{
    let dropped = e.action == TodoAction::Drop;
    let action_style = if dropped {
        Style { fg: Some(t.error), bg: None, bold: false, dim: false, reversed: false, crossed_out: true }
    } else {
        style_fg(t.todo_action)
    };
    let rest = if dropped {
        Style { fg: None, bg: None, bold: false, dim: true, reversed: false, crossed_out: true }
    } else {
        style_plain()
    };
    let mut spans: Vec<Span> = Vec::new();
    spans.push(span(pad_str(e.action.word(), 7), action_style));
    spans.push(span(e.hash.clone(), crate::ui::pane::patch_style(rest, style_fg(t.hash))));
    spans.push(span(cat(" ", e.subject.as_str()), rest));
    let heading = Line { spans };
    let key = cat("commit:", e.hash.as_str());
    let r = Section::new(0, key.as_str(), SectionValue::Commit { hash: e.hash.clone() }, heading);
    assert(r@ =~= todo_row_spec(*t, *e));
    r
}

pub fn build_rebase_todo(t: &Theme, title: &str, entries: &Vec<TodoEntry>) -> (r: Section)
    ensures
        r@ == rebase_todo_spec(*t, title@, entries@),
{
    let mut root = Section::root();
    root.compact = true;
    root.body_fill = Some(t.header_bg);
    push_line(&mut root, header_line(t, title));
    let ghost base = root@;
    assert(base.children =~= Seq::<SectionView>::empty());
    let ghost want = entries@.map_values(|e: TodoEntry| todo_row_spec(*t, e));
    let mut i: usize = 0;
    assert(want.take(0) =~= Seq::<SectionView>::empty());
    while i < entries.len()
        invariant
            i <= entries@.len(),
            want == entries@.map_values(|e: TodoEntry| todo_row_spec(*t, e)),
            root@ == (SectionView { children: want.take(i as int), ..base }),
        decreases entries.len() - i,
    {
        let c = todo_row(t, &entries[i]);
        push_child(&mut root, c);
        assert(want.take(i + 1) =~= want.take(i as int).push(want[i as int]));
        i += 1;
    }
    assert(want.take(i as int) =~= want);
    let mut hints = Section::new(0, "hints", SectionValue::Text, blank());
    push_line(&mut hints, line1(owned("p pick  r reword  e edit  s squash  f fixup  d drop"), style_dim()));
    push_line(
        &mut hints,
        line1(owned("M-j/M-k move commit  RET show commit  C-c C-c rebase  C-c C-k abort"), style_dim()),
    );
    assert(hints@ =~= todo_hints());
    push_child(&mut root, hints);
    assert(root@.body =~= seq![header_bar(*t, title@)]);
    assert(root@.children =~= want + seq![todo_hints()]);
    root
}

/// What `UnicodeWidthStr::width` gives for a string: the columns it takes
/// in a terminal, which depends on the string alone.
pub uninterp spec fn display_width(s: Seq<char>) -> usize;

/// Trusted: `unicode_width::UnicodeWidthStr::width` for `str`; the
/// contract only names the result as a function of the string.
#[verifier::external_body]
fn str_width(s: &str) -> (r: usize)
    ensures
        r == display_width(s@),
{
    unicode_width::UnicodeWidthStr::width(s)
}

pub open spec fn spaces(n: nat) -> Seq<char> {
    Seq::new(n, |i: int| ' ')
}

/// `s` padded with spaces to `cols` display columns, after (`at_end`) or
/// before it; unchanged when already as wide.
pub open spec fn pad_cols(s: Seq<char>, cols: int, at_end: bool) -> Seq<char> {
    let w = display_width(s);
    if w >= cols {
        s
    } else if at_end {
        s + spaces((cols - w) as nat)
    } else {
        spaces((cols - w) as nat) + s
    }
}

fn pad_columns(s: &str, cols: usize, at_end: bool) -> (r: String)
    ensures
        r@ == pad_cols(s@, cols as int, at_end),
{
    let w = str_width(s);
    if w >= cols {
        return owned(s);
    }
    let mut fill = String::new();
    let mut k: usize = 0;
    while k < cols - w
        invariant
            k <= cols - w,
            fill@ == spaces(k as nat),
        decreases cols - w - k,
    {
        push_char(&mut fill, ' ');
        k += 1;
        assert(fill@ =~= spaces(k as nat));
    }
    if at_end {
        let mut r = owned(s);
        push_str(&mut r, fill.as_str());
        r
    } else {
        push_str(&mut fill, s);
        fill
    }
}

/// The widest of the widths, 0 for none.
pub open spec fn widest(ws: Seq<usize>) -> usize
    decreases ws.len(),
{
    if ws.len() == 0 {
        0
    } else {
        let r = widest(ws.drop_last());
        if ws.last() > r {
            ws.last()
        } else {
            r
        }
    }
}

pub open spec fn span_views(v: Seq<Span>) -> LineView {
    v.map_values(|s: Span| (s.text@, s.style))
}

/// The log's right margin: the author left-aligned and the date
/// right-aligned in their columns; none when both are empty.
pub open spec fn margin_spec(t: Theme, author: Seq<char>, ac: int, date: Seq<char>, dc: int) -> Option<LineView> {
    if author.len() == 0 && date.len() == 0 {
        None
    } else {
        Some(
            seq![
                (pad_cols(author, ac, true), fg(t.log_author)),
                ("  "@, plain()),
                (pad_cols(date, dc, false), fg(t.log_date)),
            ],
        )
    }
}

proof fn lemma_find_bound(s: Seq<char>, p: Seq<char>)
    ensures
        find(s, p) >= -1,
        find(s, p) >= 0 ==> find(s, p) + p.len() <= s.len(),
    decreases s.len(),
{
    if starts_with(s, p) {
    } else if s.len() == 0 {
    } else {
        lemma_find_bound(s.drop_first(), p);
    }
}

/// `str::split` on a separator: the pieces between its occurrences.
pub open spec fn split_on(s: Seq<char>, p: Seq<char>) -> Seq<Seq<char>>
    decreases s.len(),
{
    match split_once(s, p) {
        Some((a, b)) => if b.len() < s.len() {
            seq![a] + split_on(b, p)
        } else {
            seq![s]
        },
        None => seq![s],
    }
}

/// One decoration of `%D`: the current branch ("HEAD -> x") and tags bold,
/// remote branches in their role; the bare `HEAD` and symbolic `*/HEAD`
/// refs are not shown.
pub open spec fn ref_token(t: Theme, raw0: Seq<char>) -> Seq<(Seq<char>, Style)> {
    let raw = trim(raw0);
    if raw.len() == 0 || raw == "HEAD"@ || ends_with(raw, "/HEAD"@) {
        Seq::empty()
    } else {
        let first = match strip_prefix(raw, "HEAD -> "@) {
            Some(b) => (b, bold_fg(t.branch)),
            None => match strip_prefix(raw, "tag: "@) {
                Some(tag) => (tag, bold_fg(t.tag)),
                None => if contains(raw, "/"@) {
                    (raw, fg(t.branch_remote))
                } else {
                    (raw, fg(t.branch))
                },
            },
        };
        seq![first, (" "@, plain())]
    }
}

pub open spec fn ref_tokens(t: Theme, toks: Seq<Seq<char>>) -> Seq<(Seq<char>, Style)>
    decreases toks.len(),
{
    if toks.len() == 0 {
        Seq::empty()
    } else {
        ref_token(t, toks[0]) + ref_tokens(t, toks.drop_first())
    }
}

/// The decorations of a commit as colored tokens, each followed by a space.
pub open spec fn ref_spans_spec(t: Theme, refs: Seq<char>) -> Seq<(Seq<char>, Style)> {
    ref_tokens(t, split_on(refs, ", "@))
}

fn push_spans(out: &mut Vec<Span>, more: Vec<Span>)
    ensures
        span_views(final(out)@) == span_views(old(out)@) + span_views(more@),
{
    let ghost a = span_views(out@);
    let ghost b = span_views(more@);
    let mut more = more;
    out.append(&mut more);
    assert(span_views(out@) =~= a + b);
}

fn ref_token_spans(t: &Theme, raw0: &Vec<char>) -> (r: Vec<Span>)
    ensures
        span_views(r@) == ref_token(*t, raw0@),
{
    let raw = trim_exec(raw0);
    let mut out: Vec<Span> = Vec::new();
    let head = chars_of("HEAD");
    let sym = chars_of("/HEAD");
    if raw.len() == 0 || crate::text::eq_chars(&raw, &head) || has_suffix(&raw, &sym) {
        assert(span_views(out@) =~= Seq::<(Seq<char>, Style)>::empty());
        return out;
    }
    let first = match strip_prefix_str(&raw, "HEAD -> ") {
        Some(b) => span(string_of(&b), style_bold_fg(t.branch)),
        None => match strip_prefix_str(&raw, "tag: ") {
            Some(tag) => span(string_of(&tag), style_bold_fg(t.tag)),
            None => {
                let slash = chars_of("/");
                if find_exec(&raw, &slash).is_some() {
                    span(string_of(&raw), style_fg(t.branch_remote))
                } else {
                    span(string_of(&raw), style_fg(t.branch))
                }
            },
        },
    };
    out.push(first);
    out.push(span(owned(" "), style_plain()));
    assert(span_views(out@) =~= ref_token(*t, raw0@));
    out
}

fn ref_spans(t: &Theme, refs: &str) -> (r: Vec<Span>)
    ensures
        span_views(r@) == ref_spans_spec(*t, refs@),
{
    let mut rest = chars_of(refs);
    let mut out: Vec<Span> = Vec::new();
    let ghost whole = ref_spans_spec(*t, refs@);
    loop
        invariant
            whole == ref_spans_spec(*t, refs@),
            span_views(out@) + ref_tokens(*t, split_on(rest@, ", "@)) == whole,
        decreases rest@.len(),
    {
        let ghost r0 = rest@;
        match split_once_str(&rest, ", ") {
            Some((a, b)) => {
                proof {
                    lemma_find_bound(r0, ", "@);
                    reveal_strlit(", ");
                }
                assert(b@.len() < r0.len());
                assert(split_on(r0, ", "@) =~= seq![a@] + split_on(b@, ", "@));
                assert((seq![a@] + split_on(b@, ", "@)).drop_first() =~= split_on(b@, ", "@));
                let ghost before = span_views(out@);
                push_spans(&mut out, ref_token_spans(t, &a));
                assert(before + ref_tokens(*t, split_on(r0, ", "@)) =~= span_views(out@) + ref_tokens(*t, split_on(b@, ", "@)));
                rest = b;
            },
            None => {
                assert(split_on(r0, ", "@) =~= seq![r0]);
                assert(seq![r0].drop_first() =~= Seq::<Seq<char>>::empty());
                assert(ref_tokens(*t, seq![r0]) =~= ref_token(*t, r0) + ref_tokens(*t, Seq::<Seq<char>>::empty()));
                assert(ref_tokens(*t, seq![r0]) =~= ref_token(*t, r0));
                let ghost before = span_views(out@);
                push_spans(&mut out, ref_token_spans(t, &rest));
                assert(span_views(out@) =~= before + ref_token(*t, r0));
                assert(span_views(out@) =~= whole);
                return out;
            },
        }
    }
}

/// One commit of the log: hash, decorations and subject, with the author
/// and date in the margin.
pub open spec fn log_row_spec(t: Theme, e: LogEntry, ac: int, dc: int) -> SectionView {
    SectionView {
        margin: margin_spec(t, e.author@, ac, e.date@, dc),
        ..leaf(
            0,
            "commit:"@ + e.hash@,
            SectionValue::Commit { hash: e.hash },
            seq![(e.hash@, fg(t.hash)), (" "@, plain())] + ref_spans_spec(t, e.refs@) + seq![(e.subject@, plain())],
        )
    }
}

pub open spec fn author_widths(es: Seq<LogEntry>) -> Seq<usize> {
    es.map_values(|e: LogEntry| display_width(e.author@))
}

pub open spec fn date_widths(es: Seq<LogEntry>) -> Seq<usize> {
    es.map_values(|e: LogEntry| display_width(e.date@))
}

/// The log buffer: a header bar naming what is logged, then one commit
/// per line in a tight list, the margin columns as wide as the widest
/// author and date; "No commits." when there are none.
pub open spec fn log_spec(t: Theme, title: Seq<char>, es: Seq<LogEntry>) -> SectionView {
    let ac = widest(author_widths(es)) as int;
    let dc = widest(date_widths(es)) as int;
    SectionView {
        compact: true,
        body_fill: Some(t.header_bg),
        body: if es.len() == 0 {
            seq![header_bar(t, title), seq![("No commits."@, dim())]]
        } else {
            seq![header_bar(t, title)]
        },
        children: es.map_values(|e: LogEntry| log_row_spec(t, e, ac, dc)),
        ..empty_root()
    }
}

fn widest_of(es: &Vec<LogEntry>, authors: bool) -> (r: usize)
    ensures
        r == widest(if authors { author_widths(es@) } else { date_widths(es@) }),
{
    let ghost ws = if authors { author_widths(es@) } else { date_widths(es@) };
    let mut m: usize = 0;
    let mut i: usize = 0;
    assert(ws.take(0) =~= Seq::<usize>::empty());
    while i < es.len()
        invariant
            i <= es@.len(),
            ws == (if authors { author_widths(es@) } else { date_widths(es@) }),
            m == widest(ws.take(i as int)),
        decreases es.len() - i,
    {
        let w = if authors { str_width(es[i].author.as_str()) } else { str_width(es[i].date.as_str()) };
        assert(ws.take(i + 1).drop_last() =~= ws.take(i as int));
        assert(ws.take(i + 1).last() == w);
        if w > m {
            m = w;
        }
        i += 1;
    }
    assert(ws.take(i as int) =~= ws);
    m
}

fn log_row(t: &Theme, e: &LogEntry, ac: usize, dc: usize) -> (r: Section)
    ensures
        r@ == log_row_spec(*t, *e, ac as int, dc as int),
{
    let mut spans: Vec<Span> = Vec::new();
    spans.push(span(e.hash.clone(), style_fg(t.hash)));
    spans.push(span(owned(" "), style_plain()));
    let ghost lead = seq![(e.hash@, fg(t.hash)), (" "@, plain())];
    assert(span_views(spans@) =~= lead);
    push_spans(&mut spans, ref_spans(t, e.refs.as_str()));
    let ghost before = span_views(spans@);
    spans.push(span(e.subject.clone(), style_plain()));
    assert(span_views(spans@) =~= before.push((e.subject@, plain())));
    assert(span_views(spans@) =~= lead + ref_spans_spec(*t, e.refs@) + seq![(e.subject@, plain())]);
    let heading = Line { spans };
    let key = cat("commit:", e.hash.as_str());
    let mut sec = Section::new(0, key.as_str(), SectionValue::Commit { hash: e.hash.clone() }, heading);
    if e.author.as_str().is_empty() && e.date.as_str().is_empty() {
        return sec;
    }
    let mut m: Vec<Span> = Vec::new();
    m.push(span(pad_columns(e.author.as_str(), ac, true), style_fg(t.log_author)));
    m.push(span(owned("  "), style_plain()));
    m.push(span(pad_columns(e.date.as_str(), dc, false), style_fg(t.log_date)));
    let ml = Line { spans: m };
    assert(Some(ml@) == margin_spec(*t, e.author@, ac as int, e.date@, dc as int));
    sec.margin = Some(ml);
    assert(sec@.body =~= Seq::<LineView>::empty());
    assert(sec@.children =~= Seq::<SectionView>::empty());
    sec
}

pub fn build_log(t: &Theme, title: &str, entries: &Vec<LogEntry>) -> (r: Section)
    ensures
        r@ == log_spec(*t, title@, entries@),
{
    let mut root = Section::root();
    root.compact = true;
    root.body_fill = Some(t.header_bg);
    push_line(&mut root, header_line(t, title));
    if entries.len() == 0 {
        push_line(&mut root, line1(owned("No commits."), style_dim()));
        assert(root@.body =~= seq![header_bar(*t, title@), seq![("No commits."@, dim())]]);
        assert(root@.children =~= entries@.map_values(|e: LogEntry| log_row_spec(*t, e, 0, 0)));
        return root;
    }
    let ac = widest_of(entries, true);
    let dc = widest_of(entries, false);
    let ghost base = root@;
    let ghost want = entries@.map_values(|e: LogEntry| log_row_spec(*t, e, ac as int, dc as int));
    let mut i: usize = 0;
    assert(want.take(0) =~= Seq::<SectionView>::empty());
    assert(base.children =~= Seq::<SectionView>::empty());
    while i < entries.len()
        invariant
            i <= entries@.len(),
            want == entries@.map_values(|e: LogEntry| log_row_spec(*t, e, ac as int, dc as int)),
            root@ == (SectionView { children: want.take(i as int), ..base }),
        decreases entries.len() - i,
    {
        let c = log_row(t, &entries[i], ac, dc);
        push_child(&mut root, c);
        assert(want.take(i + 1) =~= want.take(i as int).push(want[i as int]));
        i += 1;
    }
    assert(want.take(i as int) =~= want);
    assert(root@.body =~= seq![header_bar(*t, title@)]);
    root
}

} // verus!
