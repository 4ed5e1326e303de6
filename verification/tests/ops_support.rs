use rugit::activity::{
    deleted_message, editor_done_message, git_done_message, run_entry, ProcessLog, RefreshState, SeqRun,
};
use rugit::git::client::{GitOutput, ProcessEntry};
use rugit::git::todo::{TodoAction, TodoEntry};
use rugit::git::types::StashInfo;
use rugit::ops::candidates::{
    current_remote, list_branches, list_linked_worktrees, list_names, list_submodules, remote_config_key,
    revs_at_point, stash_candidates,
};
use rugit::ops::rebase_todo::{edit_todo, todo_plan, RebaseTodoState};

fn v(xs: &[&str]) -> Vec<String> {
    xs.iter().map(|s| s.to_string()).collect()
}

fn out(status: i32, stdout: &str, stderr: &str) -> GitOutput {
    GitOutput { status, stdout: stdout.into(), stderr: stderr.into() }
}

#[test]
fn branches_are_trimmed_deduplicated_and_skip_symbolic_heads() {
    let listed = "main\n  dev\norigin/HEAD\norigin/main\n(HEAD detached at abc)\nmain\n\n";
    assert_eq!(list_branches(listed), v(&["main", "dev", "origin/main"]));
}

#[test]
fn names_skip_blank_lines() {
    assert_eq!(list_names("origin\n\n upstream \n"), v(&["origin", "upstream"]));
}

#[test]
fn submodule_paths_come_after_the_key() {
    let cfg = "submodule.a.path lib/a\nsubmodule.b.path  \nnokey\n";
    assert_eq!(list_submodules(cfg), v(&["lib/a"]));
}

#[test]
fn linked_worktrees_exclude_the_main_one() {
    let porcelain = "worktree /repo\nHEAD abc\nbranch refs/heads/main\n\nworktree /wt/a\nHEAD def\n";
    assert_eq!(list_linked_worktrees(porcelain), v(&["/wt/a"]));
    assert!(list_linked_worktrees("").is_empty());
}

#[test]
fn the_commit_at_point_leads_the_revisions() {
    let b = v(&["main", "abc", "dev"]);
    let at = "abc".to_string();
    assert_eq!(revs_at_point(&b, Some(&at)), v(&["abc", "main", "dev"]));
    assert_eq!(revs_at_point(&b, None), b);
}

#[test]
fn the_stash_at_point_leads_the_stash_list() {
    let s = vec![
        StashInfo { index: 0, message: "WIP a".into() },
        StashInfo { index: 1, message: "WIP b".into() },
    ];
    assert_eq!(stash_candidates(&s, None), v(&["stash@{0}: WIP a", "stash@{1}: WIP b"]));
    assert_eq!(stash_candidates(&s, Some(1)), v(&["stash@{1}: WIP b", "stash@{0}: WIP a"]));
    assert_eq!(stash_candidates(&s, Some(7)), v(&["stash@{0}: WIP a", "stash@{1}: WIP b"]));
}

#[test]
fn the_remote_menu_scopes_to_the_configured_or_only_remote() {
    assert_eq!(remote_config_key("main"), "branch.main.remote");
    let one = v(&["origin"]);
    let two = v(&["origin", "fork"]);
    assert_eq!(current_remote(Some("fork\n"), &two), Some("fork".to_string()));
    assert_eq!(current_remote(Some(".\n"), &one), Some("origin".to_string()));
    assert_eq!(current_remote(None, &two), None);
}

#[test]
fn the_todo_plan_lists_picks_and_applies_autosquash() {
    let log = "a1\u{1f}add parser\nb2\u{1f}fixup! add parser\nc3\u{1f}docs\n";
    let st = todo_plan("main", &v(&["--interactive", "--autosquash", "-x"]), &out(0, log, "")).unwrap();
    let hashes: Vec<&str> = st.entries.iter().map(|e| e.hash.as_str()).collect();
    assert_eq!(hashes, vec!["a1", "b2", "c3"]);
    assert_eq!(st.entries[1].action, TodoAction::Fixup);
    assert_eq!(st.flags, v(&["-x"]));
    assert_eq!(st.base.as_deref(), Some("main"));
}

#[test]
fn the_todo_plan_reports_failures_and_empty_ranges() {
    let e = todo_plan("nope", &vec![], &out(128, "", "fatal: bad revision\nmore")).unwrap_err();
    assert_eq!(e, "rebase onto nope failed: fatal: bad revision");
    let e = todo_plan("main", &vec![], &out(0, "", "")).unwrap_err();
    assert_eq!(e, "no commits in main..HEAD");
}

fn entry(a: TodoAction, h: &str) -> TodoEntry {
    TodoEntry { action: a, hash: h.into(), subject: "s".into() }
}

#[test]
fn editing_the_plan_sets_actions_and_moves_entries() {
    let mut st = RebaseTodoState {
        entries: vec![entry(TodoAction::Pick, "a"), entry(TodoAction::Pick, "b")],
        flags: vec![],
        base: Some("main".into()),
    };
    assert_eq!(st.index_of(&"b".to_string()), Some(1));
    assert_eq!(st.set_action(0, TodoAction::Squash).unwrap_err(), "cannot meld into the commit before the rebase");
    st.set_action(1, TodoAction::Fixup).unwrap();
    assert_eq!(st.entries[1].action, TodoAction::Fixup);
    assert!(st.move_entry(1, false));
    assert_eq!(st.entries[0].hash, "b");
    assert!(!st.move_entry(0, false));
    assert!(st.move_entry(0, true));
    assert_eq!(st.entries[0].hash, "a");
}

#[test]
fn confirming_runs_the_interactive_rebase_with_the_plan_copied_in() {
    let st = RebaseTodoState { entries: vec![entry(TodoAction::Pick, "a")], flags: v(&["-x"]), base: Some("main".into()) };
    let req = st.confirm("/repo/.git/it's todo").unwrap();
    assert_eq!(req.desc, "interactive rebase onto main");
    assert_eq!(req.args, v(&["rebase", "--interactive", "-x", "main"]));
    assert_eq!(req.envs, vec![("GIT_SEQUENCE_EDITOR".to_string(), "cp '/repo/.git/it'\\''s todo'".to_string())]);
    let dropped = RebaseTodoState { entries: vec![entry(TodoAction::Drop, "a")], flags: vec![], base: None };
    assert!(dropped.confirm("/p").is_err());
}

#[test]
fn editing_a_running_rebase_falls_back_to_the_editor() {
    let st = edit_todo(Some("pick a1 one\n# comment\n")).unwrap();
    assert_eq!(st.entries.len(), 1);
    assert!(st.base.is_none());
    let req = edit_todo(Some("exec make\n")).unwrap_err();
    assert_eq!(req.args, v(&["rebase", "--edit-todo"]));
    assert!(edit_todo(None).is_err());
}

fn pe(n: usize) -> ProcessEntry {
    ProcessEntry { cmd: format!("git {n}"), status: 0, output: String::new() }
}

#[test]
fn the_process_log_keeps_the_latest_entries() {
    let mut log = ProcessLog::new();
    for i in 0..205 {
        log.push(pe(i));
    }
    assert_eq!(log.entries.len(), 200);
    assert_eq!(log.dropped, 5);
    assert_eq!(log.entries[0].cmd, "git 5");
    assert_eq!(log.entries[199].cmd, "git 204");
}

#[test]
fn finished_runs_leave_messages() {
    let ok = ProcessEntry { cmd: "git x".into(), status: 0, output: "fine".into() };
    assert_eq!(git_done_message("push", &ok), "push done");
    let bad = ProcessEntry { cmd: "git x".into(), status: 1, output: "error: rejected\nhint".into() };
    assert_eq!(git_done_message("push", &bad), "push failed: error: rejected");
    assert_eq!(editor_done_message("commit", 0), "commit done");
    assert_eq!(editor_done_message("commit", -1), "commit exited with -1");
    assert_eq!(deleted_message(1, None, &v(&["junk"])), "deleted junk");
    assert_eq!(deleted_message(3, None, &v(&["a", "b", "c"])), "deleted 3 untracked file(s)");
    assert_eq!(deleted_message(1, Some("denied"), &v(&["a", "b"])), "deleted 1, delete failed: denied");
}

#[test]
fn a_run_entry_records_command_status_and_output() {
    let e = run_entry(&v(&["push"]), &Ok(out(0, "out\n", "err\n")));
    assert_eq!(e.status, 0);
    assert_eq!(e.output, "out\nerr\n");
    let e = run_entry(&v(&["push"]), &Err("spawn failed".into()));
    assert_eq!(e.status, -1);
    assert_eq!(e.output, "spawn failed");
}

#[test]
fn a_command_sequence_stops_at_the_first_failure() {
    let mut seq = SeqRun::new();
    assert!(seq.record(&v(&["merge", "x"]), &Ok(out(0, "merged\n", ""))));
    assert!(!seq.record(&v(&["branch", "-d", "x"]), &Ok(out(1, "", "not merged\n"))));
    let e = seq.entry();
    assert!(e.cmd.contains(" && "));
    assert_eq!(e.status, 1);
    assert_eq!(e.output, "merged\nnot merged\n");
}

#[test]
fn refreshes_are_single_flight() {
    let mut r = RefreshState::new();
    assert_eq!(r.request(), Some(1));
    assert_eq!(r.request(), None);
    assert_eq!(r.request(), None);
    assert_eq!(r.finished(1), (true, true));
    assert_eq!(r.request(), Some(2));
    assert_eq!(r.finished(2), (true, false));
}

#[test]
fn a_picked_stash_candidate_names_its_stash() {
    let s = vec![StashInfo { index: 12, message: "WIP on main: abc fix: typo".into() }];
    let c = stash_candidates(&s, None);
    assert_eq!(rugit::ops::menus::stash_ref_of(&c[0]), "stash@{12}");
}
