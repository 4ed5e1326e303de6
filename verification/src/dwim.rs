//! Do-what-I-mean commands that act on the section under the cursor: `s`
//! stages a file, a hunk or a single diff line depending on where point
//! is; `u` unstages, `x` discards (after a confirmation), RET visits. Each
//! decides what to run; running it is the application's job.

use vstd::prelude::*;

use crate::git::patch::{hunk_patch, hunk_patch_spec, line_patch, line_patch_spec, LineOp};
use crate::git::types::{DiffArea, FileDiff, FileDiffView, StatusSnapshot};
use crate::session::{svec, Confirm, PendingAction};
use crate::text::{decimal, push_decimal, push_str};
use crate::ui::pane::Pane;
use crate::ui::section::{at_path_spec, Group, SectionValue};

verus! {

/// What a DWIM command does.
#[derive(Debug)]
pub enum DwimAction {
    Nothing,
    /// Show this message.
    Say(String),
    /// Run git in the background.
    Run { desc: String, args: Vec<String>, stdin: Option<String> },
    /// Ask for confirmation first.
    Ask(Confirm),
}

pub open spec fn strings(v: Seq<String>) -> Seq<Seq<char>> {
    v.map_values(|s: String| s@)
}

pub open spec fn opt_str(o: Option<String>) -> Option<Seq<char>> {
    match o {
        Some(s) => Some(s@),
        None => None,
    }
}

/// A DWIM action as values.
pub enum PlanView {
    Nothing,
    Say(Seq<char>),
    Run(Seq<char>, Seq<Seq<char>>, Option<Seq<char>>),
    /// Ask with this prompt, then run git.
    AskGit(Seq<char>, Seq<char>, Seq<Seq<char>>, Option<Seq<char>>),
    /// Ask with this prompt, then run these git commands in order.
    AskSeq(Seq<char>, Seq<char>, Seq<Seq<Seq<char>>>),
    /// Ask with this prompt, then delete these paths.
    AskDelete(Seq<char>, Seq<Seq<char>>),
}

impl View for DwimAction {
    type V = PlanView;

    open spec fn view(&self) -> PlanView {
        match self {
            DwimAction::Nothing => PlanView::Nothing,
            DwimAction::Say(m) => PlanView::Say(m@),
            DwimAction::Run { desc, args, stdin } => PlanView::Run(desc@, strings(args@), opt_str(*stdin)),
            DwimAction::Ask(c) => match c.action {
                PendingAction::Git { desc, args, stdin } => PlanView::AskGit(c.prompt@, desc@, strings(args@), opt_str(stdin)),
                PendingAction::GitSeq { desc, cmds } => PlanView::AskSeq(
                    c.prompt@,
                    desc@,
                    cmds@.map_values(|v: Vec<String>| strings(v@)),
                ),
                PendingAction::DeletePaths(paths) => PlanView::AskDelete(c.prompt@, strings(paths@)),
            },
        }
    }
}

/// The value of the section under the cursor.
pub open spec fn value_at(p: &Pane) -> SectionValue {
    if p.cursor < p.flat@.len() {
        match at_path_spec(p.root, p.flat@[p.cursor as int].path@) {
            Some(s) => s.value,
            None => SectionValue::Root,
        }
    } else {
        SectionValue::Root
    }
}

/// `i` is the first diff of `path`.
pub open spec fn first_file(ds: Seq<FileDiff>, path: Seq<char>, i: int) -> bool {
    0 <= i < ds.len() && ds[i].path@ == path && forall|j: int| 0 <= j < i ==> ds[j].path@ != path
}

/// The patch for the hunk at point: a single line when the cursor is on a
/// changed body line, the whole hunk otherwise; `None` without the diff.
pub open spec fn patch_at(p: &Pane, area: DiffArea, path: Seq<char>, hunk_idx: usize, op: LineOp) -> Option<Seq<char>> {
    let ds = p.diffs_of(area);
    if area != DiffArea::Untracked && exists|i: int| first_file(ds, path, i) && p.cursor < p.flat@.len() {
        let fd = ds[choose|i: int| first_file(ds, path, i)];
        if hunk_idx < fd.hunks@.len() {
            let h = fd.hunks@[hunk_idx as int];
            let cur = p.flat@[p.cursor as int];
            if cur.body_idx is Some && !cur.is_heading && h.lines@.len() <= u32::MAX && line_patch_spec(
                fd@,
                h@,
                cur.body_idx->0 as int,
                op,
            ) is Some {
                line_patch_spec(fd@, h@, cur.body_idx->0 as int, op)
            } else {
                Some(hunk_patch_spec(fd@, h@))
            }
        } else {
            None
        }
    } else {
        None
    }
}

fn owned(s: &str) -> (r: String)
    ensures
        r@ == s@,
{
    let mut o = String::new();
    push_str(&mut o, s);
    assert(o@ =~= s@);
    o
}

fn joined(a: &str, b: &str) -> (r: String)
    ensures
        r@ == a@ + b@,
{
    let mut o = String::new();
    push_str(&mut o, a);
    push_str(&mut o, b);
    assert(o@ =~= a@ + b@);
    o
}

fn with_path(args: &[&str], path: &String) -> (r: Vec<String>)
    ensures
        strings(r@) == crate::session::str_views(args@).push(path@),
{
    let mut v = svec(args);
    v.push(path.clone());
    assert(strings(v@) =~= crate::session::str_views(args@).push(path@));
    v
}

/// Where the first diff of `path` is, in `ds`.
fn find_first(ds: &Vec<FileDiff>, path: &String) -> (r: Option<usize>)
    ensures
        match r {
            Some(i) => first_file(ds@, path@, i as int),
            None => !exists|i: int| first_file(ds@, path@, i),
        },
{
    let want = crate::text::chars_of(path.as_str());
    let mut i: usize = 0;
    while i < ds.len()
        invariant
            i <= ds@.len(),
            want@ == path@,
            forall|j: int| 0 <= j < i ==> ds@[j].path@ != path@,
        decreases ds.len() - i,
    {
        let have = crate::text::chars_of(ds[i].path.as_str());
        if crate::text::eq_chars(&have, &want) {
            return Some(i);
        }
        i += 1;
    }
    proof {
        if exists|k: int| first_file(ds@, path@, k) {
            let k = choose|k: int| first_file(ds@, path@, k);
            assert(ds@[k].path@ != path@);
        }
    }
    None
}

/// The patch for the hunk at point.
pub fn patch_at_point(p: &Pane, area: DiffArea, path: &String, hunk_idx: usize, op: LineOp) -> (r: Option<String>)
    ensures
        opt_str(r) == patch_at(p, area, path@, hunk_idx, op),
{
    let list = match area {
        DiffArea::Unstaged => &p.unstaged,
        DiffArea::Staged => &p.staged,
        DiffArea::Committed => &p.committed,
        DiffArea::Untracked => {
            return None;
        },
    };
    let fi = match find_first(list, path) {
        Some(i) => i,
        None => {
            return None;
        },
    };
    if p.cursor >= p.flat.len() {
        return None;
    }
    proof {
        let k = choose|k: int| first_file(p.diffs_of(area), path@, k);
        assert(k == fi as int) by {
            if k < fi {
                assert(list@[k].path@ != path@);
            }
            if k > fi {
                assert(p.diffs_of(area)[fi as int].path@ != path@);
            }
        }
    }
    let fd = &list[fi];
    if hunk_idx >= fd.hunks.len() {
        return None;
    }
    let hunk = &fd.hunks[hunk_idx];
    let cur = &p.flat[p.cursor];
    match cur.body_idx {
        Some(l) => {
            if !cur.is_heading && hunk.lines.len() <= 0xffff_ffff {
                match line_patch(fd, hunk, l, op) {
                    Some(patch) => {
                        return Some(patch);
                    },
                    None => {},
                }
            }
        },
        None => {},
    }
    Some(hunk_patch(fd, hunk))
}

/// Whether HEAD exists: the snapshot's branch has a commit (assumed when
/// no snapshot was read yet).
pub open spec fn head_exists_spec(s: Option<&StatusSnapshot>) -> bool {
    match s {
        Some(x) => x.branch.oid is Some,
        None => true,
    }
}

pub fn head_exists(s: Option<&StatusSnapshot>) -> (r: bool)
    ensures
        r == head_exists_spec(s),
{
    match s {
        Some(x) => x.branch.oid.is_some(),
        None => true,
    }
}

/// Every path with staged changes, each followed by its pre-rename path,
/// so that a `restore` reverts renames cleanly.
pub open spec fn staged_paths_spec(ds: Seq<FileDiff>) -> Seq<Seq<char>>
    decreases ds.len(),
{
    if ds.len() == 0 {
        Seq::empty()
    } else {
        let rest = staged_paths_spec(ds.drop_last());
        let fd = ds.last();
        match fd.old_path {
            Some(o) => rest.push(fd.path@).push(o@),
            None => rest.push(fd.path@),
        }
    }
}

pub fn staged_paths(ds: &Vec<FileDiff>) -> (r: Vec<String>)
    ensures
        strings(r@) == staged_paths_spec(ds@),
{
    let mut out: Vec<String> = Vec::new();
    let mut i: usize = 0;
    assert(ds@.take(0) =~= Seq::<FileDiff>::empty());
    while i < ds.len()
        invariant
            i <= ds@.len(),
            strings(out@) == staged_paths_spec(ds@.take(i as int)),
        decreases ds.len() - i,
    {
        let ghost before = strings(out@);
        let fd = &ds[i];
        out.push(fd.path.clone());
        match &fd.old_path {
            Some(o) => {
                out.push(o.clone());
                assert(strings(out@) =~= before.push(fd.path@).push(o@));
            },
            None => {
                assert(strings(out@) =~= before.push(fd.path@));
            },
        }
        assert(ds@.take(i + 1).drop_last() =~= ds@.take(i as int));
        assert(ds@.take(i + 1).last() == fd);
        i += 1;
    }
    assert(ds@.take(i as int) =~= ds@);
    out
}

/// What `s` does on a section value, given the patch at point (for a hunk)
/// and the untracked files.
pub open spec fn stage_spec(v: SectionValue, patch: Option<Seq<char>>, untracked: Seq<Seq<char>>) -> PlanView {
    match v {
        SectionValue::File { area: DiffArea::Untracked, path } => PlanView::Run(
            "stage "@ + path@,
            seq!["add"@, "--"@, path@],
            None,
        ),
        SectionValue::File { area: DiffArea::Unstaged, path } => PlanView::Run(
            "stage "@ + path@,
            seq!["add"@, "--"@, path@],
            None,
        ),
        SectionValue::Hunk { area: DiffArea::Unstaged, path, .. } => match patch {
            Some(p) => PlanView::Run(
                "stage hunk in "@ + path@,
                seq!["apply"@, "--cached"@, "--recount"@, "--whitespace=nowarn"@],
                Some(p),
            ),
            None => PlanView::Nothing,
        },
        SectionValue::Group(Group::Untracked) => PlanView::Run(
            "stage untracked files"@,
            seq!["add"@, "--"@] + untracked,
            None,
        ),
        SectionValue::Group(Group::Unstaged) => PlanView::Run("stage all tracked"@, seq!["add"@, "-u"@], None),
        SectionValue::File { area: DiffArea::Staged, .. } => PlanView::Say("already staged"@),
        SectionValue::Hunk { area: DiffArea::Staged, .. } => PlanView::Say("already staged"@),
        SectionValue::Group(Group::Staged) => PlanView::Say("already staged"@),
        _ => PlanView::Say("nothing to stage here"@),
    }
}

/// `s`: stage the thing at point (file, hunk or line).
pub fn stage_at_point(p: &Pane, snapshot: Option<&StatusSnapshot>) -> (r: DwimAction)
    ensures
        r@ == stage_spec(
            value_at(p),
            match value_at(p) {
                SectionValue::Hunk { area, path, hunk_idx } => patch_at(p, area, path@, hunk_idx, LineOp::Stage),
                _ => None,
            },
            match snapshot {
                Some(s) => strings(s.untracked@),
                None => Seq::empty(),
            },
        ),
{
    let v = p.value_at_cursor();
    match v {
        SectionValue::File { area: DiffArea::Untracked, path } | SectionValue::File { area: DiffArea::Unstaged, path } => {
            let a = ["add", "--"];
            assert(crate::session::str_views(a@) =~= seq!["add"@, "--"@]);
            let args = with_path(&a, &path);
            assert(strings(args@) =~= seq!["add"@, "--"@, path@]);
            DwimAction::Run { desc: joined("stage ", path.as_str()), args, stdin: None }
        },
        SectionValue::Hunk { area: DiffArea::Unstaged, path, hunk_idx } => {
            match patch_at_point(p, DiffArea::Unstaged, &path, hunk_idx, LineOp::Stage) {
                Some(patch) => {
                    let a = ["apply", "--cached", "--recount", "--whitespace=nowarn"];
                    let args = svec(&a);
                    assert(strings(args@) =~= seq!["apply"@, "--cached"@, "--recount"@, "--whitespace=nowarn"@]);
                    DwimAction::Run { desc: joined("stage hunk in ", path.as_str()), args, stdin: Some(patch) }
                },
                None => DwimAction::Nothing,
            }
        },
        SectionValue::Group(Group::Untracked) => {
            let a = ["add", "--"];
            let mut args = svec(&a);
            assert(strings(args@) =~= seq!["add"@, "--"@]);
            match snapshot {
                Some(s) => {
                    let mut i: usize = 0;
                    let ghost base = strings(args@);
                    while i < s.untracked.len()
                        invariant
                            i <= s.untracked@.len(),
                            strings(args@) == base + strings(s.untracked@).take(i as int),
                        decreases s.untracked.len() - i,
                    {
                        let ghost before = strings(args@);
                        args.push(s.untracked[i].clone());
                        assert(strings(args@) =~= before.push(s.untracked@[i as int]@));
                        assert(strings(s.untracked@).take(i + 1) =~= strings(s.untracked@).take(i as int).push(
                            s.untracked@[i as int]@,
                        ));
                        i += 1;
                    }
                    assert(strings(s.untracked@).take(i as int) =~= strings(s.untracked@));
                },
                None => {
                    assert(strings(args@) =~= seq!["add"@, "--"@] + Seq::<Seq<char>>::empty());
                },
            }
            DwimAction::Run { desc: owned("stage untracked files"), args, stdin: None }
        },
        SectionValue::Group(Group::Unstaged) => {
            let a = ["add", "-u"];
            let args = svec(&a);
            assert(strings(args@) =~= seq!["add"@, "-u"@]);
            DwimAction::Run { desc: owned("stage all tracked"), args, stdin: None }
        },
        SectionValue::File { area: DiffArea::Staged, .. } | SectionValue::Hunk { area: DiffArea::Staged, .. }
        | SectionValue::Group(Group::Staged) => DwimAction::Say(owned("already staged")),
        _ => DwimAction::Say(owned("nothing to stage here")),
    }
}


/// What `u` does on a section value, given the patch at point (for a hunk)
/// and whether HEAD exists (without it, `rm --cached` stands in for
/// `restore --staged`).
pub open spec fn unstage_spec(v: SectionValue, patch: Option<Seq<char>>, head: bool) -> PlanView {
    match v {
        SectionValue::File { area: DiffArea::Staged, path } => PlanView::Run(
            "unstage "@ + path@,
            if head {
                seq!["restore"@, "--staged"@, "--"@, path@]
            } else {
                seq!["rm"@, "--cached"@, "-r"@, "-q"@, "--"@, path@]
            },
            None,
        ),
        SectionValue::Hunk { area: DiffArea::Staged, path, .. } => match patch {
            Some(p) => PlanView::Run(
                "unstage hunk in "@ + path@,
                seq!["apply"@, "-R"@, "--cached"@, "--recount"@, "--whitespace=nowarn"@],
                Some(p),
            ),
            None => PlanView::Nothing,
        },
        SectionValue::Group(Group::Staged) => unstage_all_spec(head),
        SectionValue::File { area: DiffArea::Untracked, .. } => PlanView::Say("not staged"@),
        SectionValue::File { area: DiffArea::Unstaged, .. } => PlanView::Say("not staged"@),
        SectionValue::Hunk { area: DiffArea::Unstaged, .. } => PlanView::Say("not staged"@),
        _ => PlanView::Say("nothing to unstage here"@),
    }
}

/// `U`: unstage everything.
pub open spec fn unstage_all_spec(head: bool) -> PlanView {
    PlanView::Run(
        "unstage all"@,
        if head {
            seq!["restore"@, "--staged"@, "--"@, "."@]
        } else {
            seq!["rm"@, "--cached"@, "-r"@, "-q"@, "--"@, "."@]
        },
        None,
    )
}

pub fn unstage_all(snapshot: Option<&StatusSnapshot>) -> (r: DwimAction)
    ensures
        r@ == unstage_all_spec(head_exists_spec(snapshot)),
{
    let args = if head_exists(snapshot) {
        let a = ["restore", "--staged", "--", "."];
        let v = svec(&a);
        assert(strings(v@) =~= seq!["restore"@, "--staged"@, "--"@, "."@]);
        v
    } else {
        let a = ["rm", "--cached", "-r", "-q", "--", "."];
        let v = svec(&a);
        assert(strings(v@) =~= seq!["rm"@, "--cached"@, "-r"@, "-q"@, "--"@, "."@]);
        v
    };
    DwimAction::Run { desc: owned("unstage all"), args, stdin: None }
}

/// `u`: unstage the thing at point.
pub fn unstage_at_point(p: &Pane, snapshot: Option<&StatusSnapshot>) -> (r: DwimAction)
    ensures
        r@ == unstage_spec(
            value_at(p),
            match value_at(p) {
                SectionValue::Hunk { area, path, hunk_idx } => patch_at(p, area, path@, hunk_idx, LineOp::Unstage),
                _ => None,
            },
            head_exists_spec(snapshot),
        ),
{
    let v = p.value_at_cursor();
    match v {
        SectionValue::File { area: DiffArea::Staged, path } => {
            let args = if head_exists(snapshot) {
                let a = ["restore", "--staged", "--"];
                let v = with_path(&a, &path);
                assert(strings(v@) =~= seq!["restore"@, "--staged"@, "--"@, path@]);
                v
            } else {
                let a = ["rm", "--cached", "-r", "-q", "--"];
                let v = with_path(&a, &path);
                assert(strings(v@) =~= seq!["rm"@, "--cached"@, "-r"@, "-q"@, "--"@, path@]);
                v
            };
            DwimAction::Run { desc: joined("unstage ", path.as_str()), args, stdin: None }
        },
        SectionValue::Hunk { area: DiffArea::Staged, path, hunk_idx } => {
            match patch_at_point(p, DiffArea::Staged, &path, hunk_idx, LineOp::Unstage) {
                Some(patch) => {
                    let a = ["apply", "-R", "--cached", "--recount", "--whitespace=nowarn"];
                    let args = svec(&a);
                    assert(strings(args@) =~= seq!["apply"@, "-R"@, "--cached"@, "--recount"@, "--whitespace=nowarn"@]);
                    DwimAction::Run { desc: joined("unstage hunk in ", path.as_str()), args, stdin: Some(patch) }
                },
                None => DwimAction::Nothing,
            }
        },
        SectionValue::Group(Group::Staged) => unstage_all(snapshot),
        SectionValue::File { area: DiffArea::Untracked, .. } | SectionValue::File { area: DiffArea::Unstaged, .. }
        | SectionValue::Hunk { area: DiffArea::Unstaged, .. } => DwimAction::Say(owned("not staged")),
        _ => DwimAction::Say(owned("nothing to unstage here")),
    }
}

/// The patch of a whole hunk of the file's first unstaged diff.
pub open spec fn hunk_at(p: &Pane, path: Seq<char>, hunk_idx: usize) -> Option<Seq<char>> {
    let ds = p.unstaged@;
    if exists|i: int| first_file(ds, path, i) {
        let fd = ds[choose|i: int| first_file(ds, path, i)];
        if hunk_idx < fd.hunks@.len() {
            Some(hunk_patch_spec(fd@, fd.hunks@[hunk_idx as int]@))
        } else {
            None
        }
    } else {
        None
    }
}

/// What `x` does on a section value: everything destructive asks first.
pub open spec fn discard_spec(
    v: SectionValue,
    hunk: Option<Seq<char>>,
    untracked: Seq<Seq<char>>,
    head: bool,
    staged: Seq<Seq<char>>,
) -> PlanView {
    match v {
        SectionValue::File { area: DiffArea::Untracked, path } => PlanView::AskDelete(
            "Delete untracked "@ + path@ + "?"@,
            seq![path@],
        ),
        SectionValue::File { area: DiffArea::Unstaged, path } => PlanView::AskGit(
            "Discard changes to "@ + path@ + "?"@,
            "discard "@ + path@,
            seq!["restore"@, "--"@, path@],
            None,
        ),
        SectionValue::Hunk { area: DiffArea::Unstaged, path, .. } => match hunk {
            Some(patch) => PlanView::AskGit(
                "Discard this hunk in "@ + path@ + "?"@,
                "discard hunk in "@ + path@,
                seq!["apply"@, "-R"@, "--recount"@, "--whitespace=nowarn"@],
                Some(patch),
            ),
            None => PlanView::Nothing,
        },
        SectionValue::Group(Group::Untracked) => if untracked.len() == 0 {
            PlanView::Say("nothing to discard here"@)
        } else {
            PlanView::AskDelete("Delete "@ + decimal(untracked.len()) + " untracked file(s)?"@, untracked)
        },
        SectionValue::Group(Group::Unstaged) => PlanView::AskGit(
            "Discard all unstaged changes?"@,
            "discard all unstaged"@,
            seq!["restore"@, "--"@, "."@],
            None,
        ),
        SectionValue::Group(Group::Staged) => if !head {
            PlanView::Say("nothing committed yet"@)
        } else if staged.len() == 0 {
            PlanView::Say("nothing to discard here"@)
        } else {
            PlanView::AskGit(
                "Discard all staged changes?"@,
                "discard all staged"@,
                seq!["restore"@, "--staged"@, "--worktree"@, "--"@] + staged,
                None,
            )
        },
        SectionValue::File { area: DiffArea::Staged, .. } => PlanView::Say("unstage first, then discard"@),
        SectionValue::Hunk { area: DiffArea::Staged, .. } => PlanView::Say("unstage first, then discard"@),
        _ => PlanView::Say("nothing to discard here"@),
    }
}

fn ask_git(prompt: String, desc: String, args: Vec<String>, stdin: Option<String>) -> (r: DwimAction)
    ensures
        r@ == PlanView::AskGit(prompt@, desc@, strings(args@), opt_str(stdin)),
{
    DwimAction::Ask(Confirm { prompt, action: PendingAction::Git { desc, args, stdin } })
}

fn three(a: &str, b: &str, c: &str) -> (r: String)
    ensures
        r@ == a@ + b@ + c@,
{
    let mut o = String::new();
    push_str(&mut o, a);
    push_str(&mut o, b);
    push_str(&mut o, c);
    assert(o@ =~= a@ + b@ + c@);
    o
}

fn copy_strings(v: &Vec<String>) -> (r: Vec<String>)
    ensures
        strings(r@) == strings(v@),
{
    let mut out: Vec<String> = Vec::new();
    let mut i: usize = 0;
    while i < v.len()
        invariant
            i <= v@.len(),
            strings(out@) == strings(v@).take(i as int),
        decreases v.len() - i,
    {
        let ghost before = strings(out@);
        out.push(v[i].clone());
        assert(strings(out@) =~= before.push(v@[i as int]@));
        assert(strings(v@).take(i + 1) =~= strings(v@).take(i as int).push(v@[i as int]@));
        i += 1;
    }
    assert(strings(v@).take(i as int) =~= strings(v@));
    out
}

/// `x`: discard the change at point, after a confirmation.
pub fn discard_at_point(p: &Pane, snapshot: Option<&StatusSnapshot>) -> (r: DwimAction)
    ensures
        r@ == discard_spec(
            value_at(p),
            match value_at(p) {
                SectionValue::Hunk { path, hunk_idx, .. } => hunk_at(p, path@, hunk_idx),
                _ => None,
            },
            match snapshot {
                Some(s) => strings(s.untracked@),
                None => Seq::empty(),
            },
            head_exists_spec(snapshot),
            match snapshot {
                Some(s) => staged_paths_spec(s.staged@),
                None => Seq::empty(),
            },
        ),
{
    let v = p.value_at_cursor();
    match v {
        SectionValue::File { area: DiffArea::Untracked, path } => {
            let prompt = three("Delete untracked ", path.as_str(), "?");
            let mut paths: Vec<String> = Vec::new();
            paths.push(path);
            assert(strings(paths@) =~= seq![paths@[0]@]);
            DwimAction::Ask(Confirm { prompt, action: PendingAction::DeletePaths(paths) })
        },
        SectionValue::File { area: DiffArea::Unstaged, path } => {
            let a = ["restore", "--"];
            let args = with_path(&a, &path);
            assert(strings(args@) =~= seq!["restore"@, "--"@, path@]);
            ask_git(three("Discard changes to ", path.as_str(), "?"), joined("discard ", path.as_str()), args, None)
        },
        SectionValue::Hunk { area: DiffArea::Unstaged, path, hunk_idx } => {
            let fi = match find_first(&p.unstaged, &path) {
                Some(i) => i,
                None => {
                    return DwimAction::Nothing;
                },
            };
            proof {
                let k = choose|k: int| first_file(p.unstaged@, path@, k);
                assert(k == fi as int) by {
                    if k < fi {
                        assert(p.unstaged@[k].path@ != path@);
                    }
                    if k > fi {
                        assert(p.unstaged@[fi as int].path@ != path@);
                    }
                }
            }
            let fd = &p.unstaged[fi];
            if hunk_idx >= fd.hunks.len() {
                return DwimAction::Nothing;
            }
            let patch = hunk_patch(fd, &fd.hunks[hunk_idx]);
            let a = ["apply", "-R", "--recount", "--whitespace=nowarn"];
            let args = svec(&a);
            assert(strings(args@) =~= seq!["apply"@, "-R"@, "--recount"@, "--whitespace=nowarn"@]);
            ask_git(
                three("Discard this hunk in ", path.as_str(), "?"),
                joined("discard hunk in ", path.as_str()),
                args,
                Some(patch),
            )
        },
        SectionValue::Group(Group::Untracked) => {
            let paths = match snapshot {
                Some(s) => copy_strings(&s.untracked),
                None => {
                    let e: Vec<String> = Vec::new();
                    assert(strings(e@) =~= Seq::<Seq<char>>::empty());
                    e
                },
            };
            if paths.len() == 0 {
                return DwimAction::Say(owned("nothing to discard here"));
            }
            let mut prompt = owned("Delete ");
            push_decimal(&mut prompt, paths.len() as u64);
            push_str(&mut prompt, " untracked file(s)?");
            DwimAction::Ask(Confirm { prompt, action: PendingAction::DeletePaths(paths) })
        },
        SectionValue::Group(Group::Unstaged) => {
            let a = ["restore", "--", "."];
            let args = svec(&a);
            assert(strings(args@) =~= seq!["restore"@, "--"@, "."@]);
            ask_git(owned("Discard all unstaged changes?"), owned("discard all unstaged"), args, None)
        },
        SectionValue::Group(Group::Staged) => {
            if !head_exists(snapshot) {
                return DwimAction::Say(owned("nothing committed yet"));
            }
            let paths = match snapshot {
                Some(s) => staged_paths(&s.staged),
                None => {
                    let e: Vec<String> = Vec::new();
                    assert(strings(e@) =~= Seq::<Seq<char>>::empty());
                    e
                },
            };
            if paths.len() == 0 {
                return DwimAction::Say(owned("nothing to discard here"));
            }
            let a = ["restore", "--staged", "--worktree", "--"];
            let mut args = svec(&a);
            let ghost base = strings(args@);
            assert(base =~= seq!["restore"@, "--staged"@, "--worktree"@, "--"@]);
            let mut i: usize = 0;
            while i < paths.len()
                invariant
                    i <= paths@.len(),
                    strings(args@) == base + strings(paths@).take(i as int),
                decreases paths.len() - i,
            {
                let ghost before = strings(args@);
                args.push(paths[i].clone());
                assert(strings(args@) =~= before.push(paths@[i as int]@));
                assert(strings(paths@).take(i + 1) =~= strings(paths@).take(i as int).push(paths@[i as int]@));
                i += 1;
            }
            assert(strings(paths@).take(i as int) =~= strings(paths@));
            ask_git(owned("Discard all staged changes?"), owned("discard all staged"), args, None)
        },
        SectionValue::File { area: DiffArea::Staged, .. } | SectionValue::Hunk { area: DiffArea::Staged, .. } => {
            DwimAction::Say(owned("unstage first, then discard"))
        },
        _ => DwimAction::Say(owned("nothing to discard here")),
    }
}

/// The revision RET shows for a section value: a commit's hash or a
/// stash's `stash@{n}`.
pub open spec fn visit_spec(v: SectionValue) -> Option<Seq<char>> {
    match v {
        SectionValue::Commit { hash } => Some(hash@),
        SectionValue::Stash { index } => Some("stash@{"@ + decimal(index as nat) + "}"@),
        _ => None,
    }
}

/// RET: the revision to show (`None`: nothing to visit here).
pub fn visit_at_point(p: &Pane) -> (r: Option<String>)
    ensures
        opt_str(r) == visit_spec(value_at(p)),
{
    match p.value_at_cursor() {
        SectionValue::Commit { hash } => Some(hash),
        SectionValue::Stash { index } => {
            let mut s = owned("stash@{");
            push_decimal(&mut s, index as u64);
            push_str(&mut s, "}");
            Some(s)
        },
        _ => None,
    }
}


/// What `y s` copies for a section value: a commit's hash, a stash's
/// `stash@{n}`, a file's path (also from one of its hunks).
pub open spec fn copy_spec(v: SectionValue) -> Option<Seq<char>> {
    match v {
        SectionValue::File { path, .. } => Some(path@),
        SectionValue::Hunk { path, .. } => Some(path@),
        _ => visit_spec(v),
    }
}

/// `y s`: the text to put on the clipboard (`None`: nothing to copy here).
pub fn copy_at_point(p: &Pane) -> (r: Option<String>)
    ensures
        opt_str(r) == copy_spec(value_at(p)),
{
    match p.value_at_cursor() {
        SectionValue::File { path, .. } => Some(path),
        SectionValue::Hunk { path, .. } => Some(path),
        _ => visit_at_point(p),
    }
}

} // verus!
