use rugit::git::patch::{file_header, hunk_patch, line_patch, LineOp};
use rugit::git::todo::{autosquash, parse_todo, serialize_todo, TodoAction, TodoEntry};
use rugit::git::types::{FileDiff, Hunk};

fn hunk(lines: &[&str]) -> Hunk {
    Hunk {
        old_start: 10,
        old_count: 0,
        new_start: 12,
        new_count: 0,
        header: "@@ -10,3 +12,4 @@".into(),
        lines: lines.iter().map(|s| s.to_string()).collect(),
    }
}

fn fd(path: &str) -> FileDiff {
    FileDiff {
        path: path.into(),
        ..Default::default()
    }
}

#[test]
fn full_hunk_patch() {
    let p = hunk_patch(&fd("a.rs"), &hunk(&[" ctx", "+add", "-del"]));
    assert_eq!(p, "--- a/a.rs\n+++ b/a.rs\n@@ -10,3 +12,4 @@\n ctx\n+add\n-del\n");
}

#[test]
fn stage_single_added_line() {
    let h = hunk(&[" a", "+one", "+two", "-gone", " b"]);
    let p = line_patch(&fd("f"), &h, 2, LineOp::Stage).unwrap();
    assert_eq!(p, "--- a/f\n+++ b/f\n@@ -10,3 +12,4 @@\n a\n+two\n gone\n b\n");
}

#[test]
fn unstage_single_added_line() {
    let h = hunk(&[" a", "+one", "+two", "-gone", " b"]);
    let p = line_patch(&fd("f"), &h, 1, LineOp::Unstage).unwrap();
    assert_eq!(p, "--- a/f\n+++ b/f\n@@ -10,3 +12,4 @@\n a\n+one\n two\n b\n");
}

#[test]
fn stage_single_removed_line() {
    let h = hunk(&["-x", "-y", " z"]);
    let p = line_patch(&fd("f"), &h, 1, LineOp::Stage).unwrap();
    assert_eq!(p, "--- a/f\n+++ b/f\n@@ -10,3 +12,2 @@\n x\n-y\n z\n");
}

#[test]
fn context_line_returns_none() {
    let h = hunk(&[" a", "+b"]);
    assert!(line_patch(&fd("f"), &h, 0, LineOp::Stage).is_none());
}

#[test]
fn no_newline_marker_follows_kept_line() {
    let h = hunk(&["-old", "+new", "\\ No newline at end of file"]);
    let p = line_patch(&fd("f"), &h, 0, LineOp::Stage).unwrap();
    assert_eq!(p, "--- a/f\n+++ b/f\n@@ -10,1 +12,0 @@\n-old\n");
}

#[test]
fn new_file_header_uses_dev_null() {
    let mut f = fd("n.txt");
    f.is_new = true;
    assert_eq!(file_header(&f), "--- /dev/null\n+++ b/n.txt\n");
}

#[test]
fn deleted_file_header_uses_dev_null_on_the_new_side() {
    let mut f = fd("gone.txt");
    f.is_deleted = true;
    assert_eq!(file_header(&f), "--- a/gone.txt\n+++ /dev/null\n");
}

#[test]
fn out_of_range_line_returns_none() {
    let h = hunk(&[" a", "+b"]);
    assert!(line_patch(&fd("f"), &h, 5, LineOp::Stage).is_none());
}

fn e(action: TodoAction, hash: &str, subject: &str) -> TodoEntry {
    TodoEntry {
        action,
        hash: hash.into(),
        subject: subject.into(),
    }
}

#[test]
fn parse_accepts_long_and_abbreviated_actions_and_skips_comments() {
    let text = "# comment\npick abc123 first\nf def456 fixup! first\n\ndrop 789abc gone\n";
    let entries = parse_todo(text).unwrap();
    assert_eq!(
        entries,
        vec![
            e(TodoAction::Pick, "abc123", "first"),
            e(TodoAction::Fixup, "def456", "fixup! first"),
            e(TodoAction::Drop, "789abc", "gone"),
        ]
    );
}

#[test]
fn parse_rejects_unsupported_instructions() {
    assert!(parse_todo("exec make test\n").is_err());
    assert!(parse_todo("break\n").is_err());
}

#[test]
fn serialize_roundtrips_through_parse() {
    let entries = vec![
        e(TodoAction::Reword, "abc123", "first"),
        e(TodoAction::Drop, "def456", "second"),
    ];
    let text = serialize_todo(&entries);
    assert_eq!(text, "reword abc123 first\ndrop def456 second\n");
    assert_eq!(parse_todo(&text).unwrap(), entries);
}

#[test]
fn autosquash_moves_markers_after_their_target() {
    let entries = vec![
        e(TodoAction::Pick, "a", "feature"),
        e(TodoAction::Pick, "b", "other work"),
        e(TodoAction::Pick, "c", "fixup! feature"),
        e(TodoAction::Pick, "d", "squash! other work"),
    ];
    let out = autosquash(entries);
    let plan: Vec<(&str, TodoAction)> = out.iter().map(|x| (x.hash.as_str(), x.action)).collect();
    assert_eq!(
        plan,
        vec![
            ("a", TodoAction::Pick),
            ("c", TodoAction::Fixup),
            ("b", TodoAction::Pick),
            ("d", TodoAction::Squash),
        ]
    );
}

#[test]
fn autosquash_leaves_unmatched_markers_in_place() {
    let entries = vec![
        e(TodoAction::Pick, "a", "feature"),
        e(TodoAction::Pick, "b", "fixup! no such subject"),
    ];
    assert_eq!(autosquash(entries.clone()), entries);
}

#[test]
fn autosquash_stacks_multiple_fixups_in_order() {
    let entries = vec![
        e(TodoAction::Pick, "a", "feature"),
        e(TodoAction::Pick, "b", "fixup! feature"),
        e(TodoAction::Pick, "c", "fixup! feature"),
    ];
    let out = autosquash(entries);
    let hashes: Vec<&str> = out.iter().map(|x| x.hash.as_str()).collect();
    assert_eq!(hashes, vec!["a", "b", "c"]);
    assert!(out[1..].iter().all(|x| x.action == TodoAction::Fixup));
}

#[test]
fn autosquash_without_markers_keeps_the_plan() {
    let entries = vec![e(TodoAction::Pick, "a", "one"), e(TodoAction::Edit, "b", "two")];
    assert_eq!(autosquash(entries.clone()), entries);
}

#[test]
fn parse_reports_a_missing_hash() {
    assert!(parse_todo("pick\n").is_err());
}

#[test]
fn parse_reports_the_first_refused_line() {
    let err = parse_todo("p a1 one\n# note\nexec make\nbreak\n").unwrap_err();
    assert_eq!(err, "unsupported todo instruction \"exec\"");
    let err = parse_todo("pick a1 one\nfixup\n").unwrap_err();
    assert_eq!(err, "malformed todo line \"fixup\"");
    let ok = parse_todo("\n  d a1 one  \n#x\nf b2\n").unwrap();
    assert_eq!(ok, vec![e(TodoAction::Drop, "a1", "one"), e(TodoAction::Fixup, "b2", "")]);
}

#[test]
fn autosquash_keeps_every_entry_but_the_moved_markers_in_order() {
    let entries = vec![
        e(TodoAction::Pick, "a1", "base one"),
        e(TodoAction::Pick, "b2", "fixup! base two"),
        e(TodoAction::Pick, "c3", "other"),
        e(TodoAction::Pick, "d4", "fixup! base one"),
        e(TodoAction::Pick, "e5", "base two"),
    ];
    let out = autosquash(entries);
    let hashes: Vec<&str> = out.iter().map(|x| x.hash.as_str()).collect();
    assert_eq!(hashes, vec!["a1", "d4", "c3", "e5", "b2"]);
    let kept: Vec<&str> = hashes.iter().copied().filter(|h| *h != "d4" && *h != "b2").collect();
    assert_eq!(kept, vec!["a1", "c3", "e5"]);
}

#[test]
fn unstaging_one_removed_line_keeps_the_new_side() {
    let h = hunk(&[" a", "-b", "+c", "-d"]);
    let p = line_patch(&fd("f"), &h, 3, LineOp::Unstage).unwrap();
    assert_eq!(p, "--- a/f\n+++ b/f\n@@ -10,3 +12,2 @@\n a\n c\n-d\n");
}

#[test]
fn autosquash_twice_is_autosquash_once() {
    let entries = vec![
        e(TodoAction::Pick, "a1", "base one"),
        e(TodoAction::Pick, "b2", "squash! base two"),
        e(TodoAction::Pick, "c3", "fixup! nothing matches"),
        e(TodoAction::Pick, "d4", "fixup! base one"),
        e(TodoAction::Pick, "e5", "base two"),
    ];
    let once = autosquash(entries);
    assert_eq!(autosquash(once.clone()), once);
    assert_eq!(once.len(), 5);
    assert_eq!(once[1].action, TodoAction::Fixup);
    assert_eq!(once[4].action, TodoAction::Squash);
}

#[test]
fn written_plans_read_back() {
    let entries = vec![
        e(TodoAction::Reword, "a1", "  spaced subject"),
        e(TodoAction::Drop, "b2", ""),
        e(TodoAction::Edit, "c3", "last"),
    ];
    assert_eq!(parse_todo(&serialize_todo(&entries)).unwrap(), entries);
}
