use rugit::git::client::{display_cmd, GitClient, GitOutput, RepoMarkers, SnapshotReads};
use rugit::session::{shell_quote, svec, EditorRequest, SearchState};
use rugit::ui::section::section_id;

fn out(status: i32, stdout: &str, stderr: &str) -> GitOutput {
    GitOutput { status, stdout: stdout.into(), stderr: stderr.into() }
}

fn no_markers() -> RepoMarkers {
    RepoMarkers {
        rebase_merge: false,
        rebase_apply: false,
        merge_head: false,
        cherry_pick_head: false,
        revert_head: false,
        bisect_log: false,
    }
}

#[test]
fn ids_are_stable_and_hierarchical() {
    let a = section_id(0, "file:src/a.rs");
    let b = section_id(0, "file:src/a.rs");
    assert_eq!(a, b);
    assert_ne!(section_id(a, "hunk:1"), section_id(b, "hunk:2"));
}

#[test]
fn editor_request_starts_without_extra_environment() {
    let r = EditorRequest::new("commit".into(), svec(&["commit", "-v"]));
    assert_eq!(r.args, vec!["commit", "-v"]);
    assert!(r.envs.is_empty());
}

#[test]
fn shell_quote_escapes_single_quotes() {
    assert_eq!(shell_quote("/tmp/plan"), "'/tmp/plan'");
    assert_eq!(shell_quote("it's"), "'it'\\''s'");
}

#[test]
fn search_preview_and_navigation_wrap() {
    let s = SearchState { query: Some("x".into()), origin: 5 };
    assert_eq!(s.preview_target(&[1, 4, 7, 9]), 7);
    assert_eq!(s.preview_target(&[1, 2]), 1);
    assert_eq!(s.preview_target(&[]), 5);
    assert_eq!(SearchState::step(&[1, 4, 7], 4, true), Some((7, false)));
    assert_eq!(SearchState::step(&[1, 4, 7], 7, true), Some((1, true)));
    assert_eq!(SearchState::step(&[1, 4, 7], 4, false), Some((1, false)));
    assert_eq!(SearchState::step(&[1, 4, 7], 1, false), Some((7, true)));
    assert_eq!(SearchState::step(&[], 1, false), None);
    assert_eq!(s.restored_cursor(3), 2);
    assert_eq!(s.restored_cursor(10), 5);
}

#[test]
fn display_cmd_quotes_arguments_with_spaces() {
    assert_eq!(display_cmd(&svec(&["commit", "-m", "two words"])), "git commit -m 'two words'");
}

#[test]
fn discover_reports_the_failed_command() {
    let e = GitClient::discover(&out(128, "", "fatal: not a git repository\n"), &out(0, "", ""));
    match e {
        Err(rugit::git::client::GitError::Failed { cmd, code, stderr }) => {
            assert_eq!(cmd, "rev-parse --show-toplevel");
            assert_eq!(code, 128);
            assert_eq!(stderr, "fatal: not a git repository");
        }
        other => panic!("unexpected: {other:?}"),
    }
    let c = GitClient::discover(&out(0, "/repo\n", ""), &out(0, "/repo/.git\n", "")).unwrap();
    assert_eq!(c.repo_root, "/repo");
    assert_eq!(c.git_dir, "/repo/.git");
}

#[test]
fn run_builds_a_quiet_git_invocation() {
    let c = GitClient { repo_root: "/repo".into(), git_dir: "/repo/.git".into() };
    let inv = c.run_with_input(&["apply", "--cached"], "patch");
    assert_eq!(inv.dir, "/repo");
    assert_eq!(inv.args, vec!["--no-pager", "--no-optional-locks", "apply", "--cached"]);
    assert_eq!(
        inv.envs,
        vec![
            ("GIT_TERMINAL_PROMPT".to_string(), "0".to_string()),
            ("LC_ALL".to_string(), "C".to_string())
        ]
    );
    assert_eq!(inv.stdin.as_deref(), Some("patch"));
    assert!(c.run(&["status"]).stdin.is_none());
}

#[test]
fn snapshot_of_an_unborn_branch_skips_head_reads() {
    let c = GitClient { repo_root: "/r".into(), git_dir: "/r/.git".into() };
    let reads = SnapshotReads {
        status: out(0, "# branch.oid (initial)\0# branch.head main\0? new.txt\0", ""),
        unstaged: out(0, "", ""),
        staged: out(0, "", ""),
        head: None,
        stashes: out(0, "", ""),
        markers: no_markers(),
    };
    let snap = c.read_snapshot(reads).unwrap();
    assert_eq!(snap.branch.head.as_deref(), Some("main"));
    assert_eq!(snap.untracked, vec!["new.txt"]);
    assert_eq!(snap.head_summary, None);
    assert_eq!(snap.state, None);
}

#[test]
fn snapshot_reports_the_first_failed_read() {
    let c = GitClient { repo_root: "/r".into(), git_dir: "/r/.git".into() };
    let mut markers = no_markers();
    markers.merge_head = true;
    let reads = SnapshotReads {
        status: out(0, "# branch.oid (initial)\0# branch.head main\0", ""),
        unstaged: out(0, "", ""),
        staged: out(128, "", " bad revision \n"),
        head: None,
        stashes: out(0, "", ""),
        markers,
    };
    match c.read_snapshot(reads) {
        Err(rugit::git::client::GitError::Failed { cmd, code, stderr }) => {
            assert_eq!(cmd, "diff --no-ext-diff --cached 4b825dc642cb6eb9a060e54bf8d69288fbee4904");
            assert_eq!(code, 128);
            assert_eq!(stderr, "bad revision");
        }
        other => panic!("unexpected: {other:?}"),
    }
}

#[test]
fn snapshot_with_head_reads_summary_and_state() {
    let c = GitClient { repo_root: "/r".into(), git_dir: "/r/.git".into() };
    let mut markers = no_markers();
    markers.rebase_apply = true;
    let reads = SnapshotReads {
        status: out(0, "# branch.oid abc\0# branch.head main\0", ""),
        unstaged: out(0, "", ""),
        staged: out(0, "", ""),
        head: Some((out(0, "abc first\n", ""), out(0, "abc\x1ffirst\n", ""))),
        stashes: out(0, "stash@{0}\x1fWIP\n", ""),
        markers,
    };
    let snap = c.read_snapshot(reads).unwrap();
    assert_eq!(snap.head_summary.as_deref(), Some("abc first"));
    assert_eq!(snap.state.as_deref(), Some("rebasing"));
    assert_eq!(snap.stashes.len(), 1);
}
