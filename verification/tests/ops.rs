use rugit::command::Menu;
use rugit::git::types::{BranchInfo, StatusSnapshot};
use rugit::ops::invoke::{invoke_transient, open_transient};
use rugit::ops::menus::stash_ref_of;
use rugit::ops::{Source, Step};
use rugit::ui::transient::TransientAction;

fn v(xs: &[&str]) -> Vec<String> {
    xs.iter().map(|s| s.to_string()).collect()
}

fn snap(state: Option<&str>, head: Option<&str>, upstream: Option<&str>) -> StatusSnapshot {
    let mut branch = BranchInfo::default();
    branch.head = head.map(|s| s.to_string());
    branch.upstream = upstream.map(|s| s.to_string());
    branch.oid = Some("abc".into());
    StatusSnapshot {
        branch,
        head_summary: None,
        state: state.map(|s| s.to_string()),
        untracked: vec![],
        unmerged: vec![],
        unstaged: vec![],
        staged: vec![],
        stashes: vec![],
        recent: vec![],
    }
}

fn step(a: TransientAction, args: &[&str], answers: &[&str], s: Option<&StatusSnapshot>) -> Step {
    invoke_transient(a, &v(args), &v(answers), s).expect("a flow handles this action")
}

fn run(st: Step) -> (String, Vec<String>) {
    match st {
        Step::Run { desc, args } => (desc, args),
        other => panic!("expected a background run, got {:?}", other),
    }
}

#[test]
fn commit_hands_the_terminal_to_the_editor_and_extend_runs_headless() {
    match step(TransientAction::Commit, &["--all"], &[], None) {
        Step::Editor { desc, args } => {
            assert_eq!(desc, "commit");
            assert_eq!(args, v(&["commit", "--all"]));
        },
        other => panic!("unexpected {:?}", other),
    }
    let (desc, args) = run(step(TransientAction::CommitExtend, &[], &[], None));
    assert_eq!(desc, "extend commit");
    assert_eq!(args, v(&["commit", "--amend", "--no-edit"]));
}

#[test]
fn merge_asks_for_a_revision_then_merges_with_the_flags() {
    match step(TransientAction::Merge, &["--ff-only"], &[], None) {
        Step::Pick { prompt, source } => {
            assert_eq!(prompt, "Merge");
            assert_eq!(source, Source::RevsAtPoint);
        },
        other => panic!("unexpected {:?}", other),
    }
    let (desc, args) = run(step(TransientAction::Merge, &["--ff-only"], &["feature"], None));
    assert_eq!(desc, "merge feature");
    assert_eq!(args, v(&["merge", "--no-edit", "--ff-only", "feature"]));
    let (_, args) = run(step(TransientAction::MergeNoCommit, &[], &["f"], None));
    assert_eq!(args, v(&["merge", "--no-commit", "--no-ff", "f"]));
}

#[test]
fn merge_absorb_merges_then_deletes_the_branch() {
    match step(TransientAction::MergeAbsorb, &[], &["topic"], None) {
        Step::RunSeq { desc, cmds } => {
            assert_eq!(desc, "absorb topic");
            assert_eq!(cmds, vec![v(&["merge", "--no-edit", "topic"]), v(&["branch", "-d", "topic"])]);
        },
        other => panic!("unexpected {:?}", other),
    }
}

#[test]
fn merge_into_needs_a_current_branch() {
    let detached = snap(None, None, None);
    match step(TransientAction::MergeInto, &[], &["main"], Some(&detached)) {
        Step::Say(m) => assert_eq!(m, "cannot merge into: not on a branch"),
        other => panic!("unexpected {:?}", other),
    }
    let on_topic = snap(None, Some("topic"), None);
    match step(TransientAction::MergeInto, &[], &["main"], Some(&on_topic)) {
        Step::RunSeq { desc, cmds } => {
            assert_eq!(desc, "merge topic into main");
            assert_eq!(
                cmds,
                vec![v(&["checkout", "main"]), v(&["merge", "--no-edit", "topic"]), v(&["branch", "-d", "topic"])]
            );
        },
        other => panic!("unexpected {:?}", other),
    }
}

#[test]
fn aborting_needs_an_operation_in_progress_and_confirms() {
    match step(TransientAction::MergeAbort, &[], &[], None) {
        Step::Say(m) => assert_eq!(m, "no merge in progress"),
        other => panic!("unexpected {:?}", other),
    }
    let merging = snap(Some("merging"), Some("main"), None);
    match step(TransientAction::MergeAbort, &[], &[], Some(&merging)) {
        Step::Confirm { prompt, desc, args } => {
            assert_eq!(prompt, "Abort the merge in progress?");
            assert_eq!(desc, "abort merge");
            assert_eq!(args, v(&["merge", "--abort"]));
        },
        other => panic!("unexpected {:?}", other),
    }
    match step(TransientAction::RebaseSkip, &[], &[], Some(&merging)) {
        Step::Say(m) => assert_eq!(m, "no rebase in progress"),
        other => panic!("unexpected {:?}", other),
    }
    let picking = snap(Some("cherry-picking"), Some("main"), None);
    let (desc, args) = run(step(TransientAction::CherryPickSkip, &[], &[], Some(&picking)));
    assert_eq!(desc, "cherry-pick skip");
    assert_eq!(args, v(&["cherry-pick", "--skip"]));
}

#[test]
fn rebase_onto_upstream_or_into_the_todo_editor() {
    let none = snap(None, Some("main"), None);
    match step(TransientAction::RebaseUpstream, &[], &[], Some(&none)) {
        Step::Say(m) => assert_eq!(m, "no upstream configured"),
        other => panic!("unexpected {:?}", other),
    }
    let upstream_set = snap(None, Some("main"), Some("origin/main"));
    let (desc, args) = run(step(TransientAction::RebaseUpstream, &["--autostash"], &[], Some(&upstream_set)));
    assert_eq!(desc, "rebase onto origin/main");
    assert_eq!(args, v(&["rebase", "--autostash", "origin/main"]));
    match step(TransientAction::RebaseElsewhere, &["--interactive"], &["dev"], None) {
        Step::TodoEditor { base, flags } => {
            assert_eq!(base, "dev");
            assert_eq!(flags, v(&["--interactive"]));
        },
        other => panic!("unexpected {:?}", other),
    }
}

#[test]
fn cherry_pick_apply_drops_fast_forward_and_edit_stops_in_the_editor() {
    let (_, args) = run(step(TransientAction::CherryPickApply, &["--ff", "-x"], &["abc"], None));
    assert_eq!(args, v(&["cherry-pick", "--no-commit", "-x", "abc"]));
    match step(TransientAction::CherryPick, &["--edit"], &["abc"], None) {
        Step::Editor { desc, args } => {
            assert_eq!(desc, "cherry-pick abc");
            assert_eq!(args, v(&["cherry-pick", "--edit", "abc"]));
        },
        other => panic!("unexpected {:?}", other),
    }
}

#[test]
fn revert_runs_headless_unless_asked_to_edit() {
    let (desc, args) = run(step(TransientAction::Revert, &[], &["abc"], None));
    assert_eq!(desc, "revert abc");
    assert_eq!(args, v(&["revert", "--no-edit", "abc"]));
    match step(TransientAction::Revert, &["--edit"], &["abc"], None) {
        Step::Editor { args, .. } => assert_eq!(args, v(&["revert", "--edit", "abc"])),
        other => panic!("unexpected {:?}", other),
    }
    let (_, args) = run(step(TransientAction::RevertNoCommit, &["--edit"], &["abc"], None));
    assert_eq!(args, v(&["revert", "--no-commit", "abc"]));
}

#[test]
fn reset_variants_and_the_destructive_ones_confirm() {
    match step(TransientAction::ResetSoft, &[], &[], None) {
        Step::Pick { prompt, .. } => assert_eq!(prompt, "Reset (soft) to"),
        other => panic!("unexpected {:?}", other),
    }
    let (desc, args) = run(step(TransientAction::ResetIndex, &[], &["HEAD~1"], None));
    assert_eq!(desc, "reset index to HEAD~1");
    assert_eq!(args, v(&["reset", "HEAD~1", "--", ":/"]));
    match step(TransientAction::ResetHard, &[], &["v1"], None) {
        Step::Confirm { prompt, desc, args } => {
            assert_eq!(prompt, "Discard uncommitted changes and hard-reset to v1?");
            assert_eq!(desc, "hard reset to v1");
            assert_eq!(args, v(&["reset", "--hard", "v1"]));
        },
        other => panic!("unexpected {:?}", other),
    }
    match step(TransientAction::ResetWorktree, &[], &["v1"], None) {
        Step::Confirm { args, .. } => {
            assert_eq!(args, v(&["restore", "--source", "v1", "--worktree", "--", ":/"]))
        },
        other => panic!("unexpected {:?}", other),
    }
}

#[test]
fn tag_creation_asks_name_then_revision() {
    match step(TransientAction::TagCreate, &[], &[], None) {
        Step::Input { prompt } => assert_eq!(prompt, "Tag name"),
        other => panic!("unexpected {:?}", other),
    }
    let (desc, args) = run(step(TransientAction::TagCreate, &["--force"], &["v1", "abc"], None));
    assert_eq!(desc, "tag v1 at abc");
    assert_eq!(args, v(&["tag", "--force", "v1", "abc"]));
    match step(TransientAction::TagCreate, &["--local-user=me"], &["v1", "abc"], None) {
        Step::Editor { .. } => {},
        other => panic!("unexpected {:?}", other),
    }
}

#[test]
fn stash_index_drops_untracked_switches() {
    let (desc, args) = run(step(TransientAction::StashIndex, &["--include-untracked", "--all", "-q"], &[], None));
    assert_eq!(desc, "stash index");
    assert_eq!(args, v(&["stash", "push", "--staged", "-q"]));
    let (desc, args) = run(step(TransientAction::StashPop, &[], &["stash@{1}: WIP on main"], None));
    assert_eq!(desc, "pop stash@{1}");
    assert_eq!(args, v(&["stash", "pop", "stash@{1}"]));
    match step(TransientAction::StashDrop, &[], &["stash@{0}: x"], None) {
        Step::Confirm { prompt, .. } => assert_eq!(prompt, "Drop stash@{0}?"),
        other => panic!("unexpected {:?}", other),
    }
}

#[test]
fn stash_ref_keeps_free_text_as_is() {
    assert_eq!(stash_ref_of("stash@{2}: msg: with colon"), "stash@{2}");
    assert_eq!(stash_ref_of("abc: def"), "abc: def");
    assert_eq!(stash_ref_of("plain"), "plain");
}

#[test]
fn remote_menu_chains_inputs() {
    match step(TransientAction::RemoteRename, &[], &["origin"], None) {
        Step::Input { prompt } => assert_eq!(prompt, "Rename origin to"),
        other => panic!("unexpected {:?}", other),
    }
    let (desc, args) = run(step(TransientAction::RemoteAdd, &["-f"], &["up", "https://x"], None));
    assert_eq!(desc, "add remote up");
    assert_eq!(args, v(&["remote", "add", "-f", "up", "https://x"]));
    match step(TransientAction::RemotePrune, &[], &[], None) {
        Step::StrictPick { empty, source, .. } => {
            assert_eq!(empty, "no remotes");
            assert_eq!(source, Source::Remotes);
        },
        other => panic!("unexpected {:?}", other),
    }
}

#[test]
fn log_appends_the_revision_selector() {
    let on_main = snap(None, Some("main"), None);
    match step(TransientAction::LogCurrent, &["--no-merges"], &[], Some(&on_main)) {
        Step::Log { title, args } => {
            assert_eq!(title, "Commits in main");
            assert_eq!(args, v(&["--no-merges", "HEAD"]));
        },
        other => panic!("unexpected {:?}", other),
    }
    match step(TransientAction::LogCurrent, &[], &[], None) {
        Step::Log { title, .. } => assert_eq!(title, "Commits in HEAD"),
        other => panic!("unexpected {:?}", other),
    }
}

#[test]
fn worktree_and_submodule_flows() {
    let (desc, args) = run(step(TransientAction::WorktreeBranch, &["--force"], &["topic", "main", "../wt"], None));
    assert_eq!(desc, "worktree ../wt new branch topic");
    assert_eq!(args, v(&["worktree", "add", "--force", "-b", "topic", "../wt", "main"]));
    let (_, args) = run(step(TransientAction::SubmoduleAdd, &[], &["https://x", ""], None));
    assert_eq!(args, v(&["submodule", "add", "https://x"]));
    let (_, args) = run(step(TransientAction::SubmoduleUpdate, &["--force", "--recursive"], &[], None));
    assert_eq!(args, v(&["submodule", "update", "--recursive", "--force"]));
    match step(TransientAction::SubmoduleRemove, &[], &["lib/x"], None) {
        Step::ConfirmSeq { prompt, cmds, .. } => {
            assert_eq!(prompt, "Remove submodule lib/x and its working tree?");
            assert_eq!(cmds, vec![v(&["submodule", "deinit", "--force", "lib/x"]), v(&["rm", "--force", "lib/x"])]);
        },
        other => panic!("unexpected {:?}", other),
    }
}

#[test]
fn actions_without_a_flow_do_nothing() {
    assert!(invoke_transient(TransientAction::BranchSpinout, &vec![], &vec![], None).is_none());
    assert!(invoke_transient(TransientAction::BranchConfigure, &vec![], &vec![], None).is_none());
}

#[test]
fn the_merge_menu_switches_while_a_merge_is_stopped() {
    let merging = snap(Some("merging"), Some("main"), None);
    let normal = open_transient(Menu::Merge, None);
    let stopped = open_transient(Menu::Merge, Some(&merging));
    assert!(normal.def.groups.len() > 0);
    assert_ne!(normal.def.title, stopped.def.title);
    assert_eq!(open_transient(Menu::Worktree, None).def.title, "Worktree");
}

#[test]
fn push_pull_and_fetch_run_with_the_menu_switches() {
    let (desc, args) = run(step(TransientAction::PushToUpstream, &["--force-with-lease"], &[], None));
    assert_eq!(desc, "push");
    assert_eq!(args, v(&["push", "--force-with-lease"]));
    let (desc, args) = run(step(TransientAction::PushToPushRemote, &["--dry-run"], &[], None));
    assert_eq!(desc, "push (set upstream)");
    assert_eq!(args, v(&["push", "-u", "origin", "HEAD", "--dry-run"]));
    let (_, args) = run(step(TransientAction::PullFromUpstream, &["--rebase"], &[], None));
    assert_eq!(args, v(&["pull", "--rebase"]));
    let (_, args) = run(step(TransientAction::FetchFromUpstream, &["--prune"], &[], None));
    assert_eq!(args, v(&["fetch", "--prune"]));
    let (_, args) = run(step(TransientAction::FetchAll, &[], &[], None));
    assert_eq!(args, v(&["fetch", "--all"]));
}

#[test]
fn push_elsewhere_asks_for_the_remote_and_target() {
    match step(TransientAction::PushTag, &[], &[], None) {
        Step::Pick { prompt, source } => {
            assert_eq!(prompt, "Push tag");
            assert_eq!(source, Source::Tags);
        },
        other => panic!("unexpected {:?}", other),
    }
    match step(TransientAction::PushTag, &[], &["v1"], None) {
        Step::Pick { prompt, source } => {
            assert_eq!(prompt, "Push v1 to");
            assert_eq!(source, Source::Remotes);
        },
        other => panic!("unexpected {:?}", other),
    }
    let (desc, args) = run(step(TransientAction::PushTag, &["-f"], &["v1", "upstream"], None));
    assert_eq!(desc, "push v1 to upstream");
    assert_eq!(args, v(&["push", "-f", "upstream", "v1"]));
    let (_, args) = run(step(TransientAction::PushElsewhere, &[], &["fork"], None));
    assert_eq!(args, v(&["push", "fork", "HEAD"]));
    let (desc, args) = run(step(TransientAction::FetchBranch, &[], &["origin", "topic"], None));
    assert_eq!(desc, "fetch origin topic");
    assert_eq!(args, v(&["fetch", "origin", "topic"]));
    let (_, args) = run(step(TransientAction::PushTags, &[], &["origin"], None));
    assert_eq!(args, v(&["push", "origin", "--tags"]));
}

#[test]
fn branch_rename_reset_delete_and_spinoff() {
    let (desc, args) = run(step(TransientAction::BranchRename, &[], &["old", "new"], None));
    assert_eq!(desc, "rename branch old to new");
    assert_eq!(args, v(&["branch", "-m", "old", "new"]));
    let (_, args) = run(step(TransientAction::BranchReset, &[], &["topic", "v1"], None));
    assert_eq!(args, v(&["branch", "-f", "topic", "v1"]));
    let (_, args) = run(step(TransientAction::BranchDelete, &[], &["topic"], None));
    assert_eq!(args, v(&["branch", "-d", "topic"]));
    let (_, args) = run(step(TransientAction::CheckoutLocal, &[], &["main"], None));
    assert_eq!(args, v(&["checkout", "main"]));
    match step(TransientAction::CheckoutLocal, &[], &[], None) {
        Step::StrictPick { source, .. } => assert_eq!(source, Source::LocalBranches),
        other => panic!("unexpected {:?}", other),
    }
    let on_main = snap(None, Some("main"), Some("origin/main"));
    match step(TransientAction::BranchSpinoff, &[], &["feature"], Some(&on_main)) {
        Step::RunSeq { desc, cmds } => {
            assert_eq!(desc, "spin off feature");
            assert_eq!(cmds, vec![v(&["checkout", "-b", "feature"]), v(&["branch", "-f", "main", "origin/main"])]);
        },
        other => panic!("unexpected {:?}", other),
    }
    match step(TransientAction::BranchSpinoff, &[], &[], None) {
        Step::Say(m) => assert_eq!(m, "cannot spin off: not on a branch"),
        other => panic!("unexpected {:?}", other),
    }
}
