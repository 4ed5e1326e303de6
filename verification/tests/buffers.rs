use rugit::command::Command;
use rugit::git::client::ProcessEntry;
use rugit::git::todo::{TodoAction, TodoEntry};
use rugit::git::types::{BranchInfo, FileDiff, Hunk, LogEntry, StashInfo, StatusSnapshot};
use rugit::keymap::{default_keymaps, KeyCode, KeyModifiers, KeyPress, PaneKind};
use rugit::route::{confirms, help_key, key_target, keymap_key, KeyTarget, KeymapOutcome};
use rugit::theme::Theme;
use rugit::ui::buffers::{build_log, build_process_log, build_rebase_todo, build_revision, build_status, file_section};
use rugit::ui::help::{help_frame, help_lines};
use rugit::ui::section::{flatten, SectionValue};
use rugit::git::types::DiffArea;

fn empty_snapshot() -> StatusSnapshot {
    StatusSnapshot {
        branch: BranchInfo::default(),
        head_summary: None,
        state: None,
        untracked: vec![],
        unmerged: vec![],
        unstaged: vec![],
        staged: vec![],
        stashes: vec![],
        recent: vec![],
    }
}

fn texts(root: &rugit::ui::section::Section) -> Vec<String> {
    flatten(root).iter().map(|f| f.line.text()).collect()
}

#[test]
fn a_clean_tree_says_so() {
    let t = Theme::default();
    let mut s = empty_snapshot();
    s.branch.head = Some("main".into());
    s.head_summary = Some("abc fix".into());
    let root = build_status(&t, &s);
    assert_eq!(
        texts(&root),
        vec!["Head:     main abc fix", "", "Nothing to see here \u{2014} working tree clean."]
    );
}

#[test]
fn the_status_header_shows_upstream_counts_and_state() {
    let t = Theme::default();
    let mut s = empty_snapshot();
    s.branch.upstream = Some("origin/main".into());
    s.branch.ahead = 2;
    s.branch.behind = -1;
    s.branch.detached = true;
    s.state = Some("rebasing".into());
    let root = build_status(&t, &s);
    let lines: Vec<String> = root.body.iter().map(|l| l.text()).collect();
    assert_eq!(lines[0], "Head:     (detached) (no commits yet)");
    assert_eq!(lines[1], "Merge:    origin/main (ahead 2, behind -1)");
    assert_eq!(lines[2], "State:    rebasing");
}

#[test]
fn status_groups_appear_in_order_with_counts() {
    let t = Theme::default();
    let mut s = empty_snapshot();
    s.untracked = vec!["new.txt".into()];
    s.staged = vec![FileDiff { path: "a.rs".into(), ..Default::default() }];
    s.stashes = vec![StashInfo { index: 0, message: "WIP".into() }];
    let root = build_status(&t, &s);
    let heads: Vec<String> = root.children.iter().map(|c| c.heading.text()).collect();
    assert_eq!(heads, vec!["Untracked files (1)", "Staged changes (1)", "Stashes (1)"]);
    assert_eq!(root.children[0].children[0].heading.text(), "new.txt");
    assert!(matches!(root.children[2].children[0].value, SectionValue::Stash { index: 0 }));
    assert_eq!(root.children[2].children[0].heading.text(), "stash@{0} WIP");
}

#[test]
fn file_sections_name_renames_and_hold_hunks() {
    let t = Theme::default();
    let fd = FileDiff {
        path: "new.rs".into(),
        old_path: Some("old.rs".into()),
        hunks: vec![Hunk {
            old_start: 3,
            old_count: 1,
            new_start: 3,
            new_count: 1,
            header: "@@ -3 +3 @@".into(),
            lines: vec!["-a".into(), "+b".into()],
        }],
        ..Default::default()
    };
    let sec = file_section(&t, 0, DiffArea::Staged, &fd);
    assert!(sec.heading.text().ends_with("old.rs -> new.rs"));
    assert_eq!(sec.children.len(), 1);
    assert_eq!(sec.children[0].body.len(), 2);
    assert_eq!(sec.children[0].body[1].spans[0].style.fg, Some(t.diff_add));
}

#[test]
fn a_revision_lists_header_lines_then_files() {
    let t = Theme::default();
    let root = build_revision(&t, "commit abc\nAuthor: ada", &vec![FileDiff { path: "x".into(), ..Default::default() }]);
    assert_eq!(root.body.len(), 2);
    assert_eq!(root.children.len(), 1);
}

#[test]
fn the_process_log_shows_status_command_and_output() {
    let t = Theme::default();
    assert_eq!(texts(&build_process_log(&t, &vec![])), vec!["No git commands run yet."]);
    let e = ProcessEntry { cmd: "git push".into(), status: 1, output: "rejected\nhint".into() };
    let root = build_process_log(&t, &vec![e]);
    assert_eq!(texts(&root), vec!["[1] git push", "rejected", "hint"]);
    assert_eq!(root.children[0].heading.spans[0].style.fg, Some(t.error));
}

#[test]
fn the_todo_buffer_strikes_dropped_commits() {
    let t = Theme::default();
    let es = vec![
        TodoEntry { action: TodoAction::Pick, hash: "a1".into(), subject: "one".into() },
        TodoEntry { action: TodoAction::Drop, hash: "b2".into(), subject: "two".into() },
    ];
    let root = build_rebase_todo(&t, "Interactive rebase onto main", &es);
    assert!(root.compact);
    assert_eq!(root.children[0].heading.text(), "pick   a1 one");
    assert!(root.children[1].heading.spans[0].style.crossed_out);
    assert_eq!(root.children[2].body.len(), 2);
}

#[test]
fn the_log_aligns_margins_and_colors_decorations() {
    let t = Theme::default();
    let es = vec![
        LogEntry {
            hash: "a1".into(),
            refs: "HEAD -> main, origin/main, tag: v1, origin/HEAD".into(),
            subject: "s".into(),
            author: "Ada".into(),
            date: "2 days ago".into(),
        },
        LogEntry { hash: "b2".into(), refs: "".into(), subject: "t".into(), author: "Grace Hopper".into(), date: "now".into() },
    ];
    let root = build_log(&t, "Commits in main", &es);
    assert_eq!(root.children[0].heading.text(), "a1 main origin/main v1 s");
    assert_eq!(root.children[0].heading.spans[2].style.fg, Some(t.branch));
    assert!(root.children[0].heading.spans[2].style.bold);
    let m0 = root.children[0].margin.as_ref().unwrap().text();
    let m1 = root.children[1].margin.as_ref().unwrap().text();
    assert_eq!(m0, "Ada           2 days ago");
    assert_eq!(m1, "Grace Hopper         now");
    assert_eq!(texts(&build_log(&t, "x", &vec![])), vec!["x", "No commits."]);
}

fn key(c: char) -> KeyPress {
    KeyPress { code: KeyCode::Char(c), mods: KeyModifiers { ctrl: false, alt: false, shift: false } }
}

#[test]
fn keys_go_to_the_topmost_overlay() {
    assert_eq!(key_target(true, true, true, true), KeyTarget::Confirm);
    assert_eq!(key_target(false, true, true, true), KeyTarget::Input);
    assert_eq!(key_target(false, false, true, true), KeyTarget::Help);
    assert_eq!(key_target(false, false, false, true), KeyTarget::Transient);
    assert_eq!(key_target(false, false, false, false), KeyTarget::Keymap);
    assert!(confirms(&key('y')));
    assert!(!confirms(&key('n')));
}

#[test]
fn help_keys_scroll_and_close() {
    assert_eq!(help_key(&key('j'), 3), Some(4));
    assert_eq!(help_key(&key('k'), 0), Some(0));
    assert_eq!(help_key(&KeyPress { code: KeyCode::Char('d'), mods: KeyModifiers { ctrl: true, alt: false, shift: false } }, 1), Some(11));
    assert_eq!(help_key(&key('d'), 1), Some(1));
    assert_eq!(help_key(&key('G'), 1), Some(usize::MAX));
    assert_eq!(help_key(&key('q'), 1), None);
}

#[test]
fn keymap_keys_resolve_wait_or_report_undefined_sequences() {
    let km = default_keymaps();
    let mut pending = Vec::new();
    match keymap_key(&km, PaneKind::Status, &mut pending, false, key('s')) {
        KeymapOutcome::Dispatch(Command::Stage) => {},
        other => panic!("unexpected {:?}", other),
    }
    assert!(pending.is_empty());
    match keymap_key(&km, PaneKind::Status, &mut pending, false, key('#')) {
        KeymapOutcome::Undefined(None) => {},
        other => panic!("unexpected {:?}", other),
    }
    assert!(matches!(keymap_key(&km, PaneKind::Status, &mut pending, false, key('z')), KeymapOutcome::Wait));
    assert_eq!(pending.len(), 1);
    match keymap_key(&km, PaneKind::Status, &mut pending, false, key('z')) {
        KeymapOutcome::Undefined(Some(m)) => assert_eq!(m, "z z is undefined"),
        other => panic!("unexpected {:?}", other),
    }
    assert!(pending.is_empty());
    let esc = KeyPress { code: KeyCode::Esc, mods: KeyModifiers { ctrl: false, alt: false, shift: false } };
    assert!(matches!(keymap_key(&km, PaneKind::Status, &mut pending, true, esc), KeymapOutcome::ClearedSearch));
}

#[test]
fn help_lists_buffer_and_global_keys() {
    let km = default_keymaps();
    let t = Theme::default();
    let lines: Vec<String> = help_lines(&km, PaneKind::Status, &t).iter().map(|l| l.text()).collect();
    assert!(lines.iter().any(|l| l == "Global keys"));
    assert_eq!(lines.last().unwrap(), "j/k scroll \u{b7} q or ESC to close");
}

#[test]
fn the_help_frame_centres_and_clamps_the_scroll() {
    let f = help_frame(100, 20, 40, 99);
    assert_eq!(f.width, 72);
    assert_eq!(f.height, 18);
    assert_eq!(f.dx, 14);
    assert_eq!(f.scroll, 24);
    assert_eq!(f.title, " Help (25-40/40) ");
    let small = help_frame(30, 50, 5, 3);
    assert_eq!(small.width, 24);
    assert_eq!(small.height, 7);
    assert_eq!(small.scroll, 0);
    assert_eq!(small.title, " Help ");
}

fn entry(hash: &str, refs: &str, subject: &str) -> LogEntry {
    LogEntry {
        hash: hash.into(),
        refs: refs.into(),
        subject: subject.into(),
        author: "Ada".into(),
        date: "2 days ago".into(),
    }
}

#[test]
fn log_decorations_drop_head_and_drop_parentheses() {
    let t = Theme::default();
    let root = build_log(
        &t,
        "Commits in HEAD",
        &vec![entry("abc123", "HEAD -> main, origin/main, origin/HEAD, tag: v1.0", "fix: thing")],
    );
    let heading = root.children[0].heading.text();
    assert_eq!(heading, "abc123 main origin/main v1.0 fix: thing");
}

#[test]
fn log_ref_tokens_carry_type_colors() {
    let t = Theme::default();
    let root = build_log(&t, "Log HEAD", &vec![entry("abc", "origin/main, tag: v1", "s")]);
    let fgs: Vec<_> = root.children[0].heading.spans.iter().map(|s| (s.text.clone(), s.style.fg)).collect();
    assert!(fgs.contains(&("origin/main".to_string(), Some(t.branch_remote))));
    assert!(fgs.contains(&("v1".to_string(), Some(t.tag))));
}

#[test]
fn log_author_and_date_are_colored_columns_in_the_margin() {
    let t = Theme::default();
    let root = build_log(&t, "Log HEAD", &vec![entry("abc", "", "subject")]);
    let sec = &root.children[0];
    assert_eq!(sec.heading.text(), "abc subject");
    let margin = sec.margin.as_ref().unwrap();
    assert_eq!(margin.text(), "Ada  2 days ago");
    let fgs: Vec<_> = margin.spans.iter().map(|s| s.style.fg).collect();
    assert!(fgs.contains(&Some(t.log_author)));
    assert!(fgs.contains(&Some(t.log_date)));
}

#[test]
fn log_header_names_the_range_magit_style() {
    let t = Theme::default();
    let root = build_log(&t, "Commits in HEAD", &vec![entry("a", "", "s1"), entry("b", "", "s2")]);
    assert_eq!(root.body[0].text(), "Commits in HEAD");
    assert_eq!(root.children.len(), 2);
}

#[test]
fn log_header_is_a_colored_full_width_bar() {
    let t = Theme::default();
    let root = build_log(&t, "Commits in HEAD", &vec![entry("a", "", "s")]);
    let style = root.body[0].spans[0].style;
    assert_eq!(style.fg, Some(t.header_fg));
    assert_eq!(style.bg, Some(t.header_bg));
    assert_eq!(root.body_fill, Some(t.header_bg));
}

#[test]
fn log_has_no_blank_line_under_the_header() {
    let t = Theme::default();
    let root = build_log(&t, "Commits in HEAD", &vec![entry("a", "", "s1")]);
    let texts: Vec<String> = flatten(&root).iter().map(|f| f.line.text()).collect();
    assert_eq!(texts, vec!["Commits in HEAD", "a s1"]);
}

#[test]
fn rebase_todo_rows_are_commit_sections_with_action_words() {
    let t = Theme::default();
    let entries = vec![
        TodoEntry { action: TodoAction::Pick, hash: "abc".into(), subject: "one".into() },
        TodoEntry { action: TodoAction::Drop, hash: "def".into(), subject: "two".into() },
    ];
    let root = build_rebase_todo(&t, "Interactive rebase onto main", &entries);
    assert_eq!(root.body[0].text(), "Interactive rebase onto main");
    assert_eq!(root.children[0].heading.text(), "pick   abc one");
    assert_eq!(root.children[0].value, SectionValue::Commit { hash: "abc".into() });
    let drop_span = &root.children[1].heading.spans[0];
    assert_eq!(drop_span.style.fg, Some(t.error));
    assert!(drop_span.style.crossed_out);
    assert_eq!(root.children.last().unwrap().value, SectionValue::Text);
}

#[test]
fn log_root_is_compact() {
    let t = Theme::default();
    let root = build_log(&t, "Log HEAD", &vec![entry("abc", "", "subject")]);
    assert!(root.compact);
}

#[test]
fn log_margin_columns_are_measured_in_display_columns() {
    let t = Theme::default();
    let es = vec![
        LogEntry { hash: "a1".into(), refs: "".into(), subject: "s".into(), author: "山田".into(), date: "now".into() },
        LogEntry { hash: "b2".into(), refs: "".into(), subject: "t".into(), author: "Ada".into(), date: "now".into() },
    ];
    let root = build_log(&t, "Commits in main", &es);
    // "山田" takes four columns, so "Ada" is padded to four as well.
    assert_eq!(root.children[0].margin.as_ref().unwrap().text(), "山田  now");
    assert_eq!(root.children[1].margin.as_ref().unwrap().text(), "Ada   now");
}
