use rugit::dwim::{
    discard_at_point, head_exists, stage_at_point, staged_paths, unstage_all, unstage_at_point, visit_at_point,
    DwimAction,
};
use rugit::git::types::{BranchInfo, DiffArea, FileDiff, Hunk, StatusSnapshot};
use rugit::keymap::PaneKind;
use rugit::session::PendingAction;
use rugit::ui::pane::Pane;
use rugit::ui::section::{Group, Line, Section, SectionValue};

fn hunk(lines: &[&str]) -> Hunk {
    Hunk {
        old_start: 1,
        old_count: 2,
        new_start: 1,
        new_count: 2,
        header: "@@ -1,2 +1,2 @@".into(),
        lines: lines.iter().map(|s| s.to_string()).collect(),
    }
}

fn fd(path: &str, h: Hunk) -> FileDiff {
    FileDiff {
        path: path.into(),
        hunks: vec![h],
        ..Default::default()
    }
}

/// A status tree with one group holding one file holding one hunk:
/// flat lines are group (0), file (1), hunk heading (2), hunk body (3..).
fn pane(group: Group, area: DiffArea, path: &str, h: &Hunk) -> Pane {
    let mut root = Section::root();
    let mut g = Section::new(0, "group", SectionValue::Group(group), Line::raw("Changes"));
    let mut f = Section::new(g.id, path, SectionValue::File { area, path: path.into() }, Line::raw(path));
    let mut hs = Section::new(
        f.id,
        "hunk",
        SectionValue::Hunk { area, path: path.into(), hunk_idx: 0 },
        Line::raw(&h.header),
    );
    for l in &h.lines {
        hs.push_body(Line::raw(l));
    }
    f.children.push(hs);
    g.children.push(f);
    root.children.push(g);
    Pane::new(PaneKind::Status, "status".into(), root)
}

fn snapshot(oid: Option<&str>, untracked: &[&str], staged: Vec<FileDiff>) -> StatusSnapshot {
    let mut branch = BranchInfo::default();
    branch.oid = oid.map(|s| s.to_string());
    StatusSnapshot {
        branch,
        head_summary: None,
        state: None,
        untracked: untracked.iter().map(|s| s.to_string()).collect(),
        unmerged: vec![],
        unstaged: vec![],
        staged,
        stashes: vec![],
        recent: vec![],
    }
}

fn run(a: DwimAction) -> (String, Vec<String>, Option<String>) {
    match a {
        DwimAction::Run { desc, args, stdin } => (desc, args, stdin),
        other => panic!("expected a git run, got {:?}", other),
    }
}

fn say(a: DwimAction) -> String {
    match a {
        DwimAction::Say(m) => m,
        other => panic!("expected a message, got {:?}", other),
    }
}

#[test]
fn stage_on_an_unstaged_file_adds_it() {
    let h = hunk(&[" a", "+b"]);
    let mut p = pane(Group::Unstaged, DiffArea::Unstaged, "src/x.rs", &h);
    p.cursor = 1;
    let (desc, args, stdin) = run(stage_at_point(&p, None));
    assert_eq!(desc, "stage src/x.rs");
    assert_eq!(args, vec!["add", "--", "src/x.rs"]);
    assert!(stdin.is_none());
}

#[test]
fn stage_on_a_hunk_heading_applies_the_whole_hunk() {
    let h = hunk(&[" a", "+b"]);
    let mut p = pane(Group::Unstaged, DiffArea::Unstaged, "f", &h);
    p.unstaged = vec![fd("f", h.clone())];
    p.cursor = 2;
    let (desc, args, stdin) = run(stage_at_point(&p, None));
    assert_eq!(desc, "stage hunk in f");
    assert_eq!(args, vec!["apply", "--cached", "--recount", "--whitespace=nowarn"]);
    assert_eq!(stdin.unwrap(), "--- a/f\n+++ b/f\n@@ -1,2 +1,2 @@\n a\n+b\n");
}

#[test]
fn stage_on_a_changed_line_applies_only_that_line() {
    let h = hunk(&[" a", "+one", "+two"]);
    let mut p = pane(Group::Unstaged, DiffArea::Unstaged, "f", &h);
    p.unstaged = vec![fd("f", h.clone())];
    p.cursor = 5;
    let (_, _, stdin) = run(stage_at_point(&p, None));
    assert_eq!(stdin.unwrap(), "--- a/f\n+++ b/f\n@@ -1,1 +1,2 @@\n a\n+two\n");
}

#[test]
fn stage_on_a_hunk_without_its_diff_does_nothing() {
    let h = hunk(&[" a", "+b"]);
    let mut p = pane(Group::Unstaged, DiffArea::Unstaged, "f", &h);
    p.cursor = 2;
    assert!(matches!(stage_at_point(&p, None), DwimAction::Nothing));
}

#[test]
fn stage_on_the_untracked_group_adds_every_untracked_file() {
    let h = hunk(&[]);
    let p = pane(Group::Untracked, DiffArea::Untracked, "n", &h);
    let s = snapshot(Some("abc"), &["n", "m"], vec![]);
    let (desc, args, _) = run(stage_at_point(&p, Some(&s)));
    assert_eq!(desc, "stage untracked files");
    assert_eq!(args, vec!["add", "--", "n", "m"]);
}

#[test]
fn stage_on_the_unstaged_group_stages_all_tracked() {
    let h = hunk(&[]);
    let p = pane(Group::Unstaged, DiffArea::Unstaged, "f", &h);
    let (desc, args, _) = run(stage_at_point(&p, None));
    assert_eq!(desc, "stage all tracked");
    assert_eq!(args, vec!["add", "-u"]);
}

#[test]
fn stage_on_staged_things_says_so() {
    let h = hunk(&[" a"]);
    let mut p = pane(Group::Staged, DiffArea::Staged, "f", &h);
    p.cursor = 1;
    assert_eq!(say(stage_at_point(&p, None)), "already staged");
}

#[test]
fn unstage_uses_restore_or_rm_cached_on_an_unborn_branch() {
    let h = hunk(&[" a"]);
    let mut p = pane(Group::Staged, DiffArea::Staged, "f", &h);
    p.cursor = 1;
    let born = snapshot(Some("abc"), &[], vec![]);
    let (desc, args, _) = run(unstage_at_point(&p, Some(&born)));
    assert_eq!(desc, "unstage f");
    assert_eq!(args, vec!["restore", "--staged", "--", "f"]);
    let unborn = snapshot(None, &[], vec![]);
    let (_, args, _) = run(unstage_at_point(&p, Some(&unborn)));
    assert_eq!(args, vec!["rm", "--cached", "-r", "-q", "--", "f"]);
}

#[test]
fn unstage_a_staged_hunk_reverses_it_in_the_index() {
    let h = hunk(&[" a", "+b"]);
    let mut p = pane(Group::Staged, DiffArea::Staged, "f", &h);
    p.staged = vec![fd("f", h.clone())];
    p.cursor = 2;
    let (desc, args, stdin) = run(unstage_at_point(&p, None));
    assert_eq!(desc, "unstage hunk in f");
    assert_eq!(args, vec!["apply", "-R", "--cached", "--recount", "--whitespace=nowarn"]);
    assert_eq!(stdin.unwrap(), "--- a/f\n+++ b/f\n@@ -1,2 +1,2 @@\n a\n+b\n");
}

#[test]
fn unstage_on_unstaged_things_says_not_staged() {
    let h = hunk(&[" a"]);
    let mut p = pane(Group::Unstaged, DiffArea::Unstaged, "f", &h);
    p.cursor = 1;
    assert_eq!(say(unstage_at_point(&p, None)), "not staged");
}

#[test]
fn unstage_all_depends_on_head() {
    let (desc, args, _) = run(unstage_all(None));
    assert_eq!(desc, "unstage all");
    assert_eq!(args, vec!["restore", "--staged", "--", "."]);
    let unborn = snapshot(None, &[], vec![]);
    let (_, args, _) = run(unstage_all(Some(&unborn)));
    assert_eq!(args, vec!["rm", "--cached", "-r", "-q", "--", "."]);
}

#[test]
fn head_exists_without_a_snapshot() {
    assert!(head_exists(None));
    assert!(!head_exists(Some(&snapshot(None, &[], vec![]))));
    assert!(head_exists(Some(&snapshot(Some("abc"), &[], vec![]))));
}

#[test]
fn staged_paths_list_renames_with_their_old_path() {
    let mut renamed = fd("new.rs", hunk(&[]));
    renamed.old_path = Some("old.rs".into());
    let plain = fd("a.rs", hunk(&[]));
    assert_eq!(staged_paths(&vec![plain, renamed]), vec!["a.rs", "new.rs", "old.rs"]);
}

#[test]
fn discard_an_unstaged_file_asks_first() {
    let h = hunk(&[" a"]);
    let mut p = pane(Group::Unstaged, DiffArea::Unstaged, "f", &h);
    p.cursor = 1;
    match discard_at_point(&p, None) {
        DwimAction::Ask(c) => {
            assert_eq!(c.prompt, "Discard changes to f?");
            match c.action {
                PendingAction::Git { desc, args, stdin } => {
                    assert_eq!(desc, "discard f");
                    assert_eq!(args, vec!["restore", "--", "f"]);
                    assert!(stdin.is_none());
                },
                other => panic!("unexpected {:?}", other),
            }
        },
        other => panic!("unexpected {:?}", other),
    }
}

#[test]
fn discard_an_untracked_file_asks_to_delete_it() {
    let h = hunk(&[]);
    let mut p = pane(Group::Untracked, DiffArea::Untracked, "junk", &h);
    p.cursor = 1;
    match discard_at_point(&p, None) {
        DwimAction::Ask(c) => {
            assert_eq!(c.prompt, "Delete untracked junk?");
            assert!(matches!(c.action, PendingAction::DeletePaths(ref v) if v == &vec!["junk".to_string()]));
        },
        other => panic!("unexpected {:?}", other),
    }
}

#[test]
fn discard_the_untracked_group_counts_the_files() {
    let h = hunk(&[]);
    let p = pane(Group::Untracked, DiffArea::Untracked, "a", &h);
    let s = snapshot(Some("abc"), &["a", "b", "c"], vec![]);
    match discard_at_point(&p, Some(&s)) {
        DwimAction::Ask(c) => assert_eq!(c.prompt, "Delete 3 untracked file(s)?"),
        other => panic!("unexpected {:?}", other),
    }
    let empty = snapshot(Some("abc"), &[], vec![]);
    assert_eq!(say(discard_at_point(&p, Some(&empty))), "nothing to discard here");
}

#[test]
fn discard_the_staged_group_restores_every_staged_path() {
    let h = hunk(&[]);
    let p = pane(Group::Staged, DiffArea::Staged, "a", &h);
    let s = snapshot(Some("abc"), &[], vec![fd("a", hunk(&[])), fd("b", hunk(&[]))]);
    match discard_at_point(&p, Some(&s)) {
        DwimAction::Ask(c) => match c.action {
            PendingAction::Git { args, .. } => {
                assert_eq!(args, vec!["restore", "--staged", "--worktree", "--", "a", "b"])
            },
            other => panic!("unexpected {:?}", other),
        },
        other => panic!("unexpected {:?}", other),
    }
    let unborn = snapshot(None, &[], vec![fd("a", hunk(&[]))]);
    assert_eq!(say(discard_at_point(&p, Some(&unborn))), "nothing committed yet");
}

#[test]
fn discard_a_staged_file_asks_to_unstage_first() {
    let h = hunk(&[" a"]);
    let mut p = pane(Group::Staged, DiffArea::Staged, "f", &h);
    p.cursor = 1;
    assert_eq!(say(discard_at_point(&p, None)), "unstage first, then discard");
}

#[test]
fn discard_an_unstaged_hunk_reverses_the_whole_hunk() {
    let h = hunk(&[" a", "+b"]);
    let mut p = pane(Group::Unstaged, DiffArea::Unstaged, "f", &h);
    p.unstaged = vec![fd("f", h.clone())];
    p.cursor = 4;
    match discard_at_point(&p, None) {
        DwimAction::Ask(c) => {
            assert_eq!(c.prompt, "Discard this hunk in f?");
            match c.action {
                PendingAction::Git { args, stdin, .. } => {
                    assert_eq!(args, vec!["apply", "-R", "--recount", "--whitespace=nowarn"]);
                    assert_eq!(stdin.unwrap(), "--- a/f\n+++ b/f\n@@ -1,2 +1,2 @@\n a\n+b\n");
                },
                other => panic!("unexpected {:?}", other),
            }
        },
        other => panic!("unexpected {:?}", other),
    }
}

#[test]
fn visit_shows_commits_and_stashes() {
    let mut root = Section::root();
    root.children.push(Section::new(0, "c", SectionValue::Commit { hash: "abc123".into() }, Line::raw("abc123 x")));
    root.children.push(Section::new(0, "s", SectionValue::Stash { index: 2 }, Line::raw("stash")));
    root.children.push(Section::new(0, "t", SectionValue::Text, Line::raw("text")));
    let mut p = Pane::new(PaneKind::Status, "t".into(), root);
    assert_eq!(visit_at_point(&p).unwrap(), "abc123");
    p.cursor = 2;
    assert_eq!(visit_at_point(&p).unwrap(), "stash@{2}");
    p.cursor = 4;
    assert!(visit_at_point(&p).is_none());
}
