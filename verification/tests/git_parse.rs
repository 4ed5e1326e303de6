use rugit::git::parse::{
    parse_diff, parse_hunk_header, parse_log_entries, parse_stash_list, parse_status_v2,
};
use rugit::git::types::StashInfo;

#[test]
fn status_v2_branch_and_untracked() {
    let raw = "# branch.oid 1234abcd\0# branch.head main\0# branch.upstream origin/main\0# branch.ab +2 -1\x001 .M N... 100644 100644 100644 aaa bbb src/main.rs\0? newfile.txt\0";
    let st = parse_status_v2(raw);
    assert_eq!(st.branch.head.as_deref(), Some("main"));
    assert_eq!(st.branch.oid.as_deref(), Some("1234abcd"));
    assert_eq!(st.branch.upstream.as_deref(), Some("origin/main"));
    assert_eq!((st.branch.ahead, st.branch.behind), (2, 1));
    assert_eq!(st.untracked, vec!["newfile.txt"]);
}

#[test]
fn status_v2_initial_and_rename() {
    let raw = "# branch.oid (initial)\0# branch.head main\x002 R. N... 100644 100644 100644 aaa bbb R100 new.rs\0old.rs\0? x\0";
    let st = parse_status_v2(raw);
    assert_eq!(st.branch.oid, None);
    // The rename's second token must not be mistaken for an entry.
    assert_eq!(st.untracked, vec!["x"]);
}

#[test]
fn status_v2_detached_and_unmerged() {
    let raw = "# branch.head (detached)\0u UU N... 100644 100644 100644 100644 a b c conflict.rs\0";
    let st = parse_status_v2(raw);
    assert!(st.branch.detached);
    assert_eq!(st.branch.head, None);
    assert_eq!(st.unmerged, vec!["conflict.rs"]);
}

#[test]
fn status_v2_bad_ahead_count_reads_as_zero() {
    let st = parse_status_v2("# branch.ab +x -3\0");
    assert_eq!((st.branch.ahead, st.branch.behind), (0, 3));
}

#[test]
fn diff_two_files_with_hunks() {
    let raw = "\
diff --git a/src/a.rs b/src/a.rs
index 111..222 100644
--- a/src/a.rs
+++ b/src/a.rs
@@ -1,3 +1,4 @@ fn main
 line1
+added
 line2
 line3
@@ -10,2 +11,2 @@
-old
+new
 ctx
diff --git a/b.txt b/b.txt
new file mode 100644
--- /dev/null
+++ b/b.txt
@@ -0,0 +1 @@
+hello
";
    let files = parse_diff(raw);
    assert_eq!(files.len(), 2);
    assert_eq!(files[0].path, "src/a.rs");
    assert_eq!(files[0].hunks.len(), 2);
    assert_eq!(files[0].hunks[0].old_start, 1);
    assert_eq!(files[0].hunks[0].new_count, 4);
    assert_eq!(files[0].hunks[0].lines.len(), 4);
    assert_eq!(files[0].hunks[1].lines, vec!["-old", "+new", " ctx"]);
    assert!(files[1].is_new);
    assert_eq!(files[1].path, "b.txt");
    assert_eq!(files[1].hunks[0].lines, vec!["+hello"]);
}

#[test]
fn diff_rename_and_binary() {
    let raw = "\
diff --git a/old.rs b/new.rs
similarity index 90%
rename from old.rs
rename to new.rs
diff --git a/img.png b/img.png
index 111..222 100644
Binary files a/img.png and b/img.png differ
";
    let files = parse_diff(raw);
    assert_eq!(files[0].old_path.as_deref(), Some("old.rs"));
    assert_eq!(files[0].path, "new.rs");
    assert!(files[1].is_binary);
}

#[test]
fn diff_quoted_paths_are_unquoted() {
    let raw = "diff --git \"a/sp ace\" \"b/sp ace\"\n+++ b/\"tab\\there\"\n";
    let files = parse_diff(raw);
    assert_eq!(files[0].path, "tab\there");
}

#[test]
fn diff_lines_before_any_file_are_ignored() {
    assert!(parse_diff("@@ -1 +1 @@\n+x\n").is_empty());
}

#[test]
fn hunk_header_without_counts() {
    let h = parse_hunk_header("@@ -5 +7 @@").unwrap();
    assert_eq!(
        (h.old_start, h.old_count, h.new_start, h.new_count),
        (5, 1, 7, 1)
    );
}

#[test]
fn hunk_header_rejects_garbage() {
    assert!(parse_hunk_header("@@ -x +7 @@").is_none());
    assert!(parse_hunk_header("not a header").is_none());
}

#[test]
fn stash_list() {
    assert_eq!(
        parse_stash_list("stash@{0}\x1fWIP on main\n"),
        vec![StashInfo {
            index: 0,
            message: "WIP on main".into()
        }]
    );
}

#[test]
fn stash_list_skips_malformed_lines() {
    assert!(parse_stash_list("stash@{x}\x1fmsg\nno separator\n").is_empty());
}

#[test]
fn log_entries_with_and_without_decorations() {
    let raw = "abc123\x1fHEAD -> main, origin/main\x1ffix: thing\x1fAda\x1f2 days ago\n\
               def456\x1f\x1fplain commit\x1fGrace\x1f3 weeks ago\n";
    let entries = parse_log_entries(raw);
    assert_eq!(entries.len(), 2);
    assert_eq!(entries[0].hash, "abc123");
    assert_eq!(entries[0].refs, "HEAD -> main, origin/main");
    assert_eq!(entries[0].subject, "fix: thing");
    assert_eq!(entries[0].author, "Ada");
    assert_eq!(entries[0].date, "2 days ago");
    assert_eq!(entries[1].refs, "");
    assert_eq!(entries[1].subject, "plain commit");
}

#[test]
fn log_entries_short_format_leaves_author_and_date_empty() {
    let entries = parse_log_entries("abc\x1fsubject only\n\n");
    assert_eq!(entries.len(), 1);
    assert_eq!(entries[0].refs, "subject only");
    assert_eq!(entries[0].author, "");
}
