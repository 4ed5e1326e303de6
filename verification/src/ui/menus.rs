//! The transient menus the app opens: each a definition of groups of
//! switches, value arguments, variables and actions. Every builder is
//! tied to a spec-level copy of its definition, which `menu_def` and the
//! transient contracts speak of.

use vstd::prelude::*;

use crate::command::Menu;
use crate::ui::transient::{DefView, GroupDef, GroupView, Item, TransientAction, TransientDef};

verus! {

pub open spec fn commit_view() -> DefView {
    DefView {
        title: "Commit",
        groups: seq![
            GroupView {
                    title: "Arguments",
                    items: seq![
                        Item::Switch { key: "-a", flag: "--all", desc: "Stage all modified and deleted files" },
                        Item::Switch { key: "-e", flag: "--allow-empty", desc: "Allow empty commit" },
                        Item::Switch { key: "-n", flag: "--no-verify", desc: "Disable hooks" },
                        Item::Switch { key: "-s", flag: "--signoff", desc: "Add Signed-off-by line" },
                    ],
                },
            GroupView {
                    title: "Actions",
                    items: seq![
                        Item::Action { key: "c", desc: "Commit", action: TransientAction::Commit },
                        Item::Action { key: "a", desc: "Amend", action: TransientAction::CommitAmend },
                        Item::Action { key: "e", desc: "Extend (amend, keep message)", action: TransientAction::CommitExtend },
                    ],
                },
        ],
        defaults: seq![],
        incompatible: seq![],
    }
}

pub fn commit() -> (r: TransientDef)
    ensures
        r@ == commit_view(),
{
    let mut groups: Vec<GroupDef> = Vec::new();
    let mut items: Vec<Item> = Vec::new();
    items.push(Item::Switch { key: "-a", flag: "--all", desc: "Stage all modified and deleted files" });
    items.push(Item::Switch { key: "-e", flag: "--allow-empty", desc: "Allow empty commit" });
    items.push(Item::Switch { key: "-n", flag: "--no-verify", desc: "Disable hooks" });
    items.push(Item::Switch { key: "-s", flag: "--signoff", desc: "Add Signed-off-by line" });
    groups.push(GroupDef { title: "Arguments", items });
    let mut items: Vec<Item> = Vec::new();
    items.push(Item::Action { key: "c", desc: "Commit", action: TransientAction::Commit });
    items.push(Item::Action { key: "a", desc: "Amend", action: TransientAction::CommitAmend });
    items.push(Item::Action { key: "e", desc: "Extend (amend, keep message)", action: TransientAction::CommitExtend });
    groups.push(GroupDef { title: "Actions", items });
    let mut defaults: Vec<&'static str> = Vec::new();
    let mut incompatible: Vec<Vec<&'static str>> = Vec::new();
    let r = TransientDef { title: "Commit", groups, defaults, incompatible };
    assert(r@.groups =~~= commit_view().groups);
    assert(r@.defaults =~= commit_view().defaults);
    assert(r@.incompatible =~~= commit_view().incompatible);
    r
}

/// Push the current branch to its push-remote/upstream or elsewhere, plus
/// other branches, explicit refspecs, matching branches and tags.
pub open spec fn push_view() -> DefView {
    DefView {
        title: "Push",
        groups: seq![
            GroupView {
                    title: "Arguments",
                    items: seq![
                        Item::Switch { key: "-f", flag: "--force-with-lease", desc: "Force with lease" },
                        Item::Switch { key: "-F", flag: "--force", desc: "Force" },
                        Item::Switch { key: "-h", flag: "--no-verify", desc: "Disable hooks" },
                        Item::Switch { key: "-n", flag: "--dry-run", desc: "Dry run" },
                        Item::Switch { key: "-T", flag: "--tags", desc: "Include all tags" },
                        Item::Switch { key: "-t", flag: "--follow-tags", desc: "Include related annotated tags" },
                    ],
                },
            GroupView {
                    title: "Push current branch to",
                    items: seq![
                        Item::Action { key: "p", desc: "push-remote", action: TransientAction::PushToPushRemote },
                        Item::Action { key: "u", desc: "upstream", action: TransientAction::PushToUpstream },
                        Item::Action { key: "e", desc: "elsewhere", action: TransientAction::PushElsewhere },
                    ],
                },
            GroupView {
                    title: "Push",
                    items: seq![
                        Item::Action { key: "o", desc: "another branch", action: TransientAction::PushOther },
                        Item::Action { key: "r", desc: "explicit refspecs", action: TransientAction::PushRefspecs },
                        Item::Action { key: "m", desc: "matching branches", action: TransientAction::PushMatching },
                        Item::Action { key: "T", desc: "a tag", action: TransientAction::PushTag },
                        Item::Action { key: "t", desc: "all tags", action: TransientAction::PushTags },
                    ],
                },
            GroupView {
                    title: "Configure",
                    items: seq![
                        Item::Action { key: "C", desc: "Set variables...", action: TransientAction::BranchConfigure },
                    ],
                },
        ],
        defaults: seq![],
        incompatible: seq![],
    }
}

/// Push the current branch to its push-remote/upstream or elsewhere, plus
/// other branches, explicit refspecs, matching branches and tags.
pub fn push() -> (r: TransientDef)
    ensures
        r@ == push_view(),
{
    let mut groups: Vec<GroupDef> = Vec::new();
    let mut items: Vec<Item> = Vec::new();
    items.push(Item::Switch { key: "-f", flag: "--force-with-lease", desc: "Force with lease" });
    items.push(Item::Switch { key: "-F", flag: "--force", desc: "Force" });
    items.push(Item::Switch { key: "-h", flag: "--no-verify", desc: "Disable hooks" });
    items.push(Item::Switch { key: "-n", flag: "--dry-run", desc: "Dry run" });
    items.push(Item::Switch { key: "-T", flag: "--tags", desc: "Include all tags" });
    items.push(Item::Switch { key: "-t", flag: "--follow-tags", desc: "Include related annotated tags" });
    groups.push(GroupDef { title: "Arguments", items });
    let mut items: Vec<Item> = Vec::new();
    items.push(Item::Action { key: "p", desc: "push-remote", action: TransientAction::PushToPushRemote });
    items.push(Item::Action { key: "u", desc: "upstream", action: TransientAction::PushToUpstream });
    items.push(Item::Action { key: "e", desc: "elsewhere", action: TransientAction::PushElsewhere });
    groups.push(GroupDef { title: "Push current branch to", items });
    let mut items: Vec<Item> = Vec::new();
    items.push(Item::Action { key: "o", desc: "another branch", action: TransientAction::PushOther });
    items.push(Item::Action { key: "r", desc: "explicit refspecs", action: TransientAction::PushRefspecs });
    items.push(Item::Action { key: "m", desc: "matching branches", action: TransientAction::PushMatching });
    items.push(Item::Action { key: "T", desc: "a tag", action: TransientAction::PushTag });
    items.push(Item::Action { key: "t", desc: "all tags", action: TransientAction::PushTags });
    groups.push(GroupDef { title: "Push", items });
    let mut items: Vec<Item> = Vec::new();
    items.push(Item::Action { key: "C", desc: "Set variables...", action: TransientAction::BranchConfigure });
    groups.push(GroupDef { title: "Configure", items });
    let mut defaults: Vec<&'static str> = Vec::new();
    let mut incompatible: Vec<Vec<&'static str>> = Vec::new();
    let r = TransientDef { title: "Push", groups, defaults, incompatible };
    assert(r@.groups =~~= push_view().groups);
    assert(r@.defaults =~= push_view().defaults);
    assert(r@.incompatible =~~= push_view().incompatible);
    r
}

/// The per-branch variables, scoped to
/// the current branch in the branch menu and to a picked one in the
/// configure menu. `branch.{}.upstream` is a pseudo-variable standing for
/// `.merge`/`.remote` together.
pub open spec fn branch_variables_view() -> GroupView {
    GroupView {
        title: "Configure branch",
        items: seq![
            Item::Variable { key: "d", var: "branch.{}.description" },
            Item::Variable { key: "u", var: "branch.{}.upstream" },
            Item::Variable { key: "r", var: "branch.{}.rebase" },
            Item::Variable { key: "p", var: "branch.{}.pushRemote" },
        ],
    }
}

/// The per-branch variables, scoped to
/// the current branch in the branch menu and to a picked one in the
/// configure menu. `branch.{}.upstream` is a pseudo-variable standing for
/// `.merge`/`.remote` together.
pub fn branch_variables() -> (r: GroupDef)
    ensures
        r@ == branch_variables_view(),
{
    let mut items: Vec<Item> = Vec::new();
    items.push(Item::Variable { key: "d", var: "branch.{}.description" });
    items.push(Item::Variable { key: "u", var: "branch.{}.upstream" });
    items.push(Item::Variable { key: "r", var: "branch.{}.rebase" });
    items.push(Item::Variable { key: "p", var: "branch.{}.pushRemote" });
    let r = GroupDef { title: "Configure branch", items };
    assert(r@ =~= branch_variables_view());
    r
}

/// Checkout, creation (including spin-off/spin-out), rename, reset and
/// delete, plus per-branch and repository-default configuration.
pub open spec fn branch_view() -> DefView {
    DefView {
        title: "Branch",
        groups: seq![
            branch_variables_view(),
            GroupView {
                    title: "Configure repository defaults",
                    items: seq![
                        Item::Variable { key: "R", var: "pull.rebase" },
                        Item::Variable { key: "P", var: "remote.pushDefault" },
                    ],
                },
            GroupView {
                    title: "Checkout",
                    items: seq![
                        Item::Action { key: "b", desc: "branch/revision", action: TransientAction::Checkout },
                        Item::Action { key: "l", desc: "local branch", action: TransientAction::CheckoutLocal },
                        Item::Action { key: "c", desc: "new branch", action: TransientAction::CreateCheckoutBranch },
                        Item::Action { key: "s", desc: "new spin-off", action: TransientAction::BranchSpinoff },
                    ],
                },
            GroupView {
                    title: "Create",
                    items: seq![
                        Item::Action { key: "n", desc: "new branch", action: TransientAction::CreateBranch },
                        Item::Action { key: "S", desc: "new spin-out", action: TransientAction::BranchSpinout },
                    ],
                },
            GroupView {
                    title: "Do",
                    items: seq![
                        Item::Action { key: "C", desc: "configure...", action: TransientAction::BranchConfigure },
                        Item::Action { key: "m", desc: "rename", action: TransientAction::BranchRename },
                        Item::Action { key: "x", desc: "reset", action: TransientAction::BranchReset },
                        Item::Action { key: "k", desc: "delete", action: TransientAction::BranchDelete },
                    ],
                },
        ],
        defaults: seq![],
        incompatible: seq![],
    }
}

/// Checkout, creation (including spin-off/spin-out), rename, reset and
/// delete, plus per-branch and repository-default configuration.
pub fn branch() -> (r: TransientDef)
    ensures
        r@ == branch_view(),
{
    let mut groups: Vec<GroupDef> = Vec::new();
    groups.push(branch_variables());
    let mut items: Vec<Item> = Vec::new();
    items.push(Item::Variable { key: "R", var: "pull.rebase" });
    items.push(Item::Variable { key: "P", var: "remote.pushDefault" });
    groups.push(GroupDef { title: "Configure repository defaults", items });
    let mut items: Vec<Item> = Vec::new();
    items.push(Item::Action { key: "b", desc: "branch/revision", action: TransientAction::Checkout });
    items.push(Item::Action { key: "l", desc: "local branch", action: TransientAction::CheckoutLocal });
    items.push(Item::Action { key: "c", desc: "new branch", action: TransientAction::CreateCheckoutBranch });
    items.push(Item::Action { key: "s", desc: "new spin-off", action: TransientAction::BranchSpinoff });
    groups.push(GroupDef { title: "Checkout", items });
    let mut items: Vec<Item> = Vec::new();
    items.push(Item::Action { key: "n", desc: "new branch", action: TransientAction::CreateBranch });
    items.push(Item::Action { key: "S", desc: "new spin-out", action: TransientAction::BranchSpinout });
    groups.push(GroupDef { title: "Create", items });
    let mut items: Vec<Item> = Vec::new();
    items.push(Item::Action { key: "C", desc: "configure...", action: TransientAction::BranchConfigure });
    items.push(Item::Action { key: "m", desc: "rename", action: TransientAction::BranchRename });
    items.push(Item::Action { key: "x", desc: "reset", action: TransientAction::BranchReset });
    items.push(Item::Action { key: "k", desc: "delete", action: TransientAction::BranchDelete });
    groups.push(GroupDef { title: "Do", items });
    let mut defaults: Vec<&'static str> = Vec::new();
    let mut incompatible: Vec<Vec<&'static str>> = Vec::new();
    let r = TransientDef { title: "Branch", groups, defaults, incompatible };
    assert(r@.groups =~~= branch_view().groups);
    assert(r@.defaults =~= branch_view().defaults);
    assert(r@.incompatible =~~= branch_view().incompatible);
    r
}

/// Variables menu for an explicitly picked branch.
pub open spec fn branch_configure_view() -> DefView {
    DefView {
        title: "Configure branch",
        groups: seq![
            branch_variables_view(),
        ],
        defaults: seq![],
        incompatible: seq![],
    }
}

/// Variables menu for an explicitly picked branch.
pub fn branch_configure() -> (r: TransientDef)
    ensures
        r@ == branch_configure_view(),
{
    let mut groups: Vec<GroupDef> = Vec::new();
    groups.push(branch_variables());
    let mut defaults: Vec<&'static str> = Vec::new();
    let mut incompatible: Vec<Vec<&'static str>> = Vec::new();
    let r = TransientDef { title: "Configure branch", groups, defaults, incompatible };
    assert(r@.groups =~~= branch_configure_view().groups);
    assert(r@.defaults =~= branch_configure_view().defaults);
    assert(r@.incompatible =~~= branch_configure_view().incompatible);
    r
}

/// Arguments and actions mirror `magit-merge` (default levels), including
/// the `--ff-only`/`--no-ff` incompatible pair.
pub open spec fn merge_view() -> DefView {
    DefView {
        title: "Merge",
        groups: seq![
            GroupView {
                    title: "Arguments",
                    items: seq![
                        Item::Switch { key: "-f", flag: "--ff-only", desc: "Fast-forward only" },
                        Item::Switch { key: "-n", flag: "--no-ff", desc: "No fast-forward" },
                        Item::Arg { key: "-A", flag: "-Xdiff-algorithm=", desc: "Diff algorithm" },
                        Item::Arg { key: "-S", flag: "--gpg-sign=", desc: "Sign using gpg" },
                    ],
                },
            GroupView {
                    title: "Actions",
                    items: seq![
                        Item::Action { key: "m", desc: "Merge", action: TransientAction::Merge },
                        Item::Action { key: "e", desc: "Merge and edit message", action: TransientAction::MergeEdit },
                        Item::Action { key: "n", desc: "Merge but don't commit", action: TransientAction::MergeNoCommit },
                        Item::Action { key: "a", desc: "Absorb", action: TransientAction::MergeAbsorb },
                        Item::Action { key: "p", desc: "Preview merge", action: TransientAction::MergePreview },
                        Item::Action { key: "s", desc: "Squash merge", action: TransientAction::MergeSquash },
                        Item::Action { key: "i", desc: "Merge into", action: TransientAction::MergeInto },
                    ],
                },
        ],
        defaults: seq![],
        incompatible: seq![seq!["--ff-only", "--no-ff"]],
    }
}

/// Arguments and actions mirror `magit-merge` (default levels), including
/// the `--ff-only`/`--no-ff` incompatible pair.
pub fn merge() -> (r: TransientDef)
    ensures
        r@ == merge_view(),
{
    let mut groups: Vec<GroupDef> = Vec::new();
    let mut items: Vec<Item> = Vec::new();
    items.push(Item::Switch { key: "-f", flag: "--ff-only", desc: "Fast-forward only" });
    items.push(Item::Switch { key: "-n", flag: "--no-ff", desc: "No fast-forward" });
    items.push(Item::Arg { key: "-A", flag: "-Xdiff-algorithm=", desc: "Diff algorithm" });
    items.push(Item::Arg { key: "-S", flag: "--gpg-sign=", desc: "Sign using gpg" });
    groups.push(GroupDef { title: "Arguments", items });
    let mut items: Vec<Item> = Vec::new();
    items.push(Item::Action { key: "m", desc: "Merge", action: TransientAction::Merge });
    items.push(Item::Action { key: "e", desc: "Merge and edit message", action: TransientAction::MergeEdit });
    items.push(Item::Action { key: "n", desc: "Merge but don't commit", action: TransientAction::MergeNoCommit });
    items.push(Item::Action { key: "a", desc: "Absorb", action: TransientAction::MergeAbsorb });
    items.push(Item::Action { key: "p", desc: "Preview merge", action: TransientAction::MergePreview });
    items.push(Item::Action { key: "s", desc: "Squash merge", action: TransientAction::MergeSquash });
    items.push(Item::Action { key: "i", desc: "Merge into", action: TransientAction::MergeInto });
    groups.push(GroupDef { title: "Actions", items });
    let mut defaults: Vec<&'static str> = Vec::new();
    let mut incompatible: Vec<Vec<&'static str>> = Vec::new();
    let mut set: Vec<&'static str> = Vec::new();
    set.push("--ff-only");
    set.push("--no-ff");
    incompatible.push(set);
    let r = TransientDef { title: "Merge", groups, defaults, incompatible };
    assert(r@.groups =~~= merge_view().groups);
    assert(r@.defaults =~= merge_view().defaults);
    assert(r@.incompatible =~~= merge_view().incompatible);
    r
}

/// Shown instead of `MERGE` while a merge is in progress (MERGE_HEAD
/// exists), mirroring Magit: starting another merge is impossible, so the
/// only sensible actions are finishing or aborting the current one.
pub open spec fn merge_in_progress_view() -> DefView {
    DefView {
        title: "Merge (in progress)",
        groups: seq![
            GroupView {
                    title: "Actions",
                    items: seq![
                        Item::Action { key: "m", desc: "Commit merge", action: TransientAction::Commit },
                        Item::Action { key: "a", desc: "Abort merge", action: TransientAction::MergeAbort },
                    ],
                },
        ],
        defaults: seq![],
        incompatible: seq![],
    }
}

/// Shown instead of `MERGE` while a merge is in progress (MERGE_HEAD
/// exists), mirroring Magit: starting another merge is impossible, so the
/// only sensible actions are finishing or aborting the current one.
pub fn merge_in_progress() -> (r: TransientDef)
    ensures
        r@ == merge_in_progress_view(),
{
    let mut groups: Vec<GroupDef> = Vec::new();
    let mut items: Vec<Item> = Vec::new();
    items.push(Item::Action { key: "m", desc: "Commit merge", action: TransientAction::Commit });
    items.push(Item::Action { key: "a", desc: "Abort merge", action: TransientAction::MergeAbort });
    groups.push(GroupDef { title: "Actions", items });
    let mut defaults: Vec<&'static str> = Vec::new();
    let mut incompatible: Vec<Vec<&'static str>> = Vec::new();
    let r = TransientDef { title: "Merge (in progress)", groups, defaults, incompatible };
    assert(r@.groups =~~= merge_in_progress_view().groups);
    assert(r@.defaults =~= merge_in_progress_view().defaults);
    assert(r@.incompatible =~~= merge_in_progress_view().incompatible);
    r
}

/// Arguments mirror `magit-rebase` (default levels), including `--autostash`
/// being on by default. `--interactive` is a real switch: enabling it makes
/// the onto-upstream/elsewhere actions open the todo editor.
pub open spec fn rebase_view() -> DefView {
    DefView {
        title: "Rebase",
        groups: seq![
            GroupView {
                    title: "Arguments",
                    items: seq![
                        Item::Switch { key: "-k", flag: "--keep-empty", desc: "Keep empty commits" },
                        Item::Switch { key: "-d", flag: "--committer-date-is-author-date", desc: "Use author date as committer date" },
                        Item::Switch { key: "-t", flag: "--ignore-date", desc: "Use current time as author date" },
                        Item::Switch { key: "-a", flag: "--autosquash", desc: "Autosquash fixup and squash commits" },
                        Item::Switch { key: "-A", flag: "--autostash", desc: "Autostash" },
                        Item::Switch { key: "-i", flag: "--interactive", desc: "Interactive" },
                        Item::Switch { key: "-h", flag: "--no-verify", desc: "Disable hooks" },
                    ],
                },
            GroupView {
                    title: "Actions",
                    items: seq![
                        Item::Action { key: "u", desc: "Rebase onto upstream", action: TransientAction::RebaseUpstream },
                        Item::Action { key: "e", desc: "Rebase onto elsewhere", action: TransientAction::RebaseElsewhere },
                        Item::Action { key: "i", desc: "Rebase interactively", action: TransientAction::RebaseInteractive },
                    ],
                },
        ],
        defaults: seq!["--autostash"],
        incompatible: seq![],
    }
}

/// Arguments mirror `magit-rebase` (default levels), including `--autostash`
/// being on by default. `--interactive` is a real switch: enabling it makes
/// the onto-upstream/elsewhere actions open the todo editor.
pub fn rebase() -> (r: TransientDef)
    ensures
        r@ == rebase_view(),
{
    let mut groups: Vec<GroupDef> = Vec::new();
    let mut items: Vec<Item> = Vec::new();
    items.push(Item::Switch { key: "-k", flag: "--keep-empty", desc: "Keep empty commits" });
    items.push(Item::Switch { key: "-d", flag: "--committer-date-is-author-date", desc: "Use author date as committer date" });
    items.push(Item::Switch { key: "-t", flag: "--ignore-date", desc: "Use current time as author date" });
    items.push(Item::Switch { key: "-a", flag: "--autosquash", desc: "Autosquash fixup and squash commits" });
    items.push(Item::Switch { key: "-A", flag: "--autostash", desc: "Autostash" });
    items.push(Item::Switch { key: "-i", flag: "--interactive", desc: "Interactive" });
    items.push(Item::Switch { key: "-h", flag: "--no-verify", desc: "Disable hooks" });
    groups.push(GroupDef { title: "Arguments", items });
    let mut items: Vec<Item> = Vec::new();
    items.push(Item::Action { key: "u", desc: "Rebase onto upstream", action: TransientAction::RebaseUpstream });
    items.push(Item::Action { key: "e", desc: "Rebase onto elsewhere", action: TransientAction::RebaseElsewhere });
    items.push(Item::Action { key: "i", desc: "Rebase interactively", action: TransientAction::RebaseInteractive });
    groups.push(GroupDef { title: "Actions", items });
    let mut defaults: Vec<&'static str> = Vec::new();
    defaults.push("--autostash");
    let mut incompatible: Vec<Vec<&'static str>> = Vec::new();
    let r = TransientDef { title: "Rebase", groups, defaults, incompatible };
    assert(r@.groups =~~= rebase_view().groups);
    assert(r@.defaults =~= rebase_view().defaults);
    assert(r@.incompatible =~~= rebase_view().incompatible);
    r
}

/// Shown instead of `REBASE` while a rebase is in progress (rebase-merge or
/// rebase-apply exists), mirroring Magit: starting another rebase is
/// impossible, so the only sensible actions manage the current one.
pub open spec fn rebase_in_progress_view() -> DefView {
    DefView {
        title: "Rebase (in progress)",
        groups: seq![
            GroupView {
                    title: "Actions",
                    items: seq![
                        Item::Action { key: "r", desc: "Continue", action: TransientAction::RebaseContinue },
                        Item::Action { key: "s", desc: "Skip this commit", action: TransientAction::RebaseSkip },
                        Item::Action { key: "e", desc: "Edit the todo list", action: TransientAction::RebaseEditTodo },
                        Item::Action { key: "a", desc: "Abort rebase", action: TransientAction::RebaseAbort },
                    ],
                },
        ],
        defaults: seq![],
        incompatible: seq![],
    }
}

/// Shown instead of `REBASE` while a rebase is in progress (rebase-merge or
/// rebase-apply exists), mirroring Magit: starting another rebase is
/// impossible, so the only sensible actions manage the current one.
pub fn rebase_in_progress() -> (r: TransientDef)
    ensures
        r@ == rebase_in_progress_view(),
{
    let mut groups: Vec<GroupDef> = Vec::new();
    let mut items: Vec<Item> = Vec::new();
    items.push(Item::Action { key: "r", desc: "Continue", action: TransientAction::RebaseContinue });
    items.push(Item::Action { key: "s", desc: "Skip this commit", action: TransientAction::RebaseSkip });
    items.push(Item::Action { key: "e", desc: "Edit the todo list", action: TransientAction::RebaseEditTodo });
    items.push(Item::Action { key: "a", desc: "Abort rebase", action: TransientAction::RebaseAbort });
    groups.push(GroupDef { title: "Actions", items });
    let mut defaults: Vec<&'static str> = Vec::new();
    let mut incompatible: Vec<Vec<&'static str>> = Vec::new();
    let r = TransientDef { title: "Rebase (in progress)", groups, defaults, incompatible };
    assert(r@.groups =~~= rebase_in_progress_view().groups);
    assert(r@.defaults =~= rebase_in_progress_view().defaults);
    assert(r@.incompatible =~~= rebase_in_progress_view().incompatible);
    r
}

/// Pick or apply commits onto HEAD. `--ff` starts enabled and is
/// incompatible with `-x`: a fast-forward reuses the commit unchanged, so
/// there is no new message to reference the cherry in.
pub open spec fn cherry_pick_view() -> DefView {
    DefView {
        title: "Cherry-pick",
        groups: seq![
            GroupView {
                    title: "Arguments",
                    items: seq![
                        Item::Arg { key: "-m", flag: "--mainline=", desc: "Replay merge relative to parent" },
                        Item::Arg { key: "=s", flag: "--strategy=", desc: "Strategy" },
                        Item::Switch { key: "-F", flag: "--ff", desc: "Attempt fast-forward" },
                        Item::Switch { key: "-x", flag: "-x", desc: "Reference cherry in commit message" },
                        Item::Switch { key: "-e", flag: "--edit", desc: "Edit commit messages" },
                    ],
                },
            GroupView {
                    title: "Actions",
                    items: seq![
                        Item::Action { key: "A", desc: "Pick", action: TransientAction::CherryPick },
                        Item::Action { key: "a", desc: "Apply", action: TransientAction::CherryPickApply },
                    ],
                },
        ],
        defaults: seq!["--ff"],
        incompatible: seq![seq!["--ff", "-x"]],
    }
}

/// Pick or apply commits onto HEAD. `--ff` starts enabled and is
/// incompatible with `-x`: a fast-forward reuses the commit unchanged, so
/// there is no new message to reference the cherry in.
pub fn cherry_pick() -> (r: TransientDef)
    ensures
        r@ == cherry_pick_view(),
{
    let mut groups: Vec<GroupDef> = Vec::new();
    let mut items: Vec<Item> = Vec::new();
    items.push(Item::Arg { key: "-m", flag: "--mainline=", desc: "Replay merge relative to parent" });
    items.push(Item::Arg { key: "=s", flag: "--strategy=", desc: "Strategy" });
    items.push(Item::Switch { key: "-F", flag: "--ff", desc: "Attempt fast-forward" });
    items.push(Item::Switch { key: "-x", flag: "-x", desc: "Reference cherry in commit message" });
    items.push(Item::Switch { key: "-e", flag: "--edit", desc: "Edit commit messages" });
    groups.push(GroupDef { title: "Arguments", items });
    let mut items: Vec<Item> = Vec::new();
    items.push(Item::Action { key: "A", desc: "Pick", action: TransientAction::CherryPick });
    items.push(Item::Action { key: "a", desc: "Apply", action: TransientAction::CherryPickApply });
    groups.push(GroupDef { title: "Actions", items });
    let mut defaults: Vec<&'static str> = Vec::new();
    defaults.push("--ff");
    let mut incompatible: Vec<Vec<&'static str>> = Vec::new();
    let mut set: Vec<&'static str> = Vec::new();
    set.push("--ff");
    set.push("-x");
    incompatible.push(set);
    let r = TransientDef { title: "Cherry-pick", groups, defaults, incompatible };
    assert(r@.groups =~~= cherry_pick_view().groups);
    assert(r@.defaults =~= cherry_pick_view().defaults);
    assert(r@.incompatible =~~= cherry_pick_view().incompatible);
    r
}

/// Shown instead of `CHERRY_PICK` while a cherry-pick is stopped
/// (CHERRY_PICK_HEAD exists): the sequencer can only continue, skip or
/// abort.
pub open spec fn cherry_pick_in_progress_view() -> DefView {
    DefView {
        title: "Cherry-pick (in progress)",
        groups: seq![
            GroupView {
                    title: "Actions",
                    items: seq![
                        Item::Action { key: "A", desc: "Continue", action: TransientAction::CherryPickContinue },
                        Item::Action { key: "s", desc: "Skip this commit", action: TransientAction::CherryPickSkip },
                        Item::Action { key: "a", desc: "Abort cherry-pick", action: TransientAction::CherryPickAbort },
                    ],
                },
        ],
        defaults: seq![],
        incompatible: seq![],
    }
}

/// Shown instead of `CHERRY_PICK` while a cherry-pick is stopped
/// (CHERRY_PICK_HEAD exists): the sequencer can only continue, skip or
/// abort.
pub fn cherry_pick_in_progress() -> (r: TransientDef)
    ensures
        r@ == cherry_pick_in_progress_view(),
{
    let mut groups: Vec<GroupDef> = Vec::new();
    let mut items: Vec<Item> = Vec::new();
    items.push(Item::Action { key: "A", desc: "Continue", action: TransientAction::CherryPickContinue });
    items.push(Item::Action { key: "s", desc: "Skip this commit", action: TransientAction::CherryPickSkip });
    items.push(Item::Action { key: "a", desc: "Abort cherry-pick", action: TransientAction::CherryPickAbort });
    groups.push(GroupDef { title: "Actions", items });
    let mut defaults: Vec<&'static str> = Vec::new();
    let mut incompatible: Vec<Vec<&'static str>> = Vec::new();
    let r = TransientDef { title: "Cherry-pick (in progress)", groups, defaults, incompatible };
    assert(r@.groups =~~= cherry_pick_in_progress_view().groups);
    assert(r@.defaults =~= cherry_pick_in_progress_view().defaults);
    assert(r@.incompatible =~~= cherry_pick_in_progress_view().incompatible);
    r
}

/// Revert commits with a new commit or onto the worktree/index only;
/// `--edit` starts enabled.
pub open spec fn revert_view() -> DefView {
    DefView {
        title: "Revert",
        groups: seq![
            GroupView {
                    title: "Arguments",
                    items: seq![
                        Item::Arg { key: "-m", flag: "--mainline=", desc: "Replay merge relative to parent" },
                        Item::Switch { key: "-e", flag: "--edit", desc: "Edit commit message" },
                        Item::Switch { key: "-E", flag: "--no-edit", desc: "Don't edit commit message" },
                        Item::Arg { key: "=s", flag: "--strategy=", desc: "Strategy" },
                    ],
                },
            GroupView {
                    title: "Actions",
                    items: seq![
                        Item::Action { key: "V", desc: "Revert commit", action: TransientAction::Revert },
                        Item::Action { key: "v", desc: "Revert changes", action: TransientAction::RevertNoCommit },
                    ],
                },
        ],
        defaults: seq!["--edit"],
        incompatible: seq![],
    }
}

/// Revert commits with a new commit or onto the worktree/index only;
/// `--edit` starts enabled.
pub fn revert() -> (r: TransientDef)
    ensures
        r@ == revert_view(),
{
    let mut groups: Vec<GroupDef> = Vec::new();
    let mut items: Vec<Item> = Vec::new();
    items.push(Item::Arg { key: "-m", flag: "--mainline=", desc: "Replay merge relative to parent" });
    items.push(Item::Switch { key: "-e", flag: "--edit", desc: "Edit commit message" });
    items.push(Item::Switch { key: "-E", flag: "--no-edit", desc: "Don't edit commit message" });
    items.push(Item::Arg { key: "=s", flag: "--strategy=", desc: "Strategy" });
    groups.push(GroupDef { title: "Arguments", items });
    let mut items: Vec<Item> = Vec::new();
    items.push(Item::Action { key: "V", desc: "Revert commit", action: TransientAction::Revert });
    items.push(Item::Action { key: "v", desc: "Revert changes", action: TransientAction::RevertNoCommit });
    groups.push(GroupDef { title: "Actions", items });
    let mut defaults: Vec<&'static str> = Vec::new();
    defaults.push("--edit");
    let mut incompatible: Vec<Vec<&'static str>> = Vec::new();
    let r = TransientDef { title: "Revert", groups, defaults, incompatible };
    assert(r@.groups =~~= revert_view().groups);
    assert(r@.defaults =~= revert_view().defaults);
    assert(r@.incompatible =~~= revert_view().incompatible);
    r
}

/// Shown instead of `REVERT` while a revert is stopped (REVERT_HEAD
/// exists): the sequencer can only continue, skip or abort.
pub open spec fn revert_in_progress_view() -> DefView {
    DefView {
        title: "Revert (in progress)",
        groups: seq![
            GroupView {
                    title: "Actions",
                    items: seq![
                        Item::Action { key: "V", desc: "Continue", action: TransientAction::RevertContinue },
                        Item::Action { key: "s", desc: "Skip this commit", action: TransientAction::RevertSkip },
                        Item::Action { key: "a", desc: "Abort revert", action: TransientAction::RevertAbort },
                    ],
                },
        ],
        defaults: seq![],
        incompatible: seq![],
    }
}

/// Shown instead of `REVERT` while a revert is stopped (REVERT_HEAD
/// exists): the sequencer can only continue, skip or abort.
pub fn revert_in_progress() -> (r: TransientDef)
    ensures
        r@ == revert_in_progress_view(),
{
    let mut groups: Vec<GroupDef> = Vec::new();
    let mut items: Vec<Item> = Vec::new();
    items.push(Item::Action { key: "V", desc: "Continue", action: TransientAction::RevertContinue });
    items.push(Item::Action { key: "s", desc: "Skip this commit", action: TransientAction::RevertSkip });
    items.push(Item::Action { key: "a", desc: "Abort revert", action: TransientAction::RevertAbort });
    groups.push(GroupDef { title: "Actions", items });
    let mut defaults: Vec<&'static str> = Vec::new();
    let mut incompatible: Vec<Vec<&'static str>> = Vec::new();
    let r = TransientDef { title: "Revert (in progress)", groups, defaults, incompatible };
    assert(r@.groups =~~= revert_in_progress_view().groups);
    assert(r@.defaults =~= revert_in_progress_view().defaults);
    assert(r@.incompatible =~~= revert_in_progress_view().incompatible);
    r
}

/// Move HEAD, the index and/or the worktree to a picked revision.
pub open spec fn reset_view() -> DefView {
    DefView {
        title: "Reset",
        groups: seq![
            GroupView {
                    title: "Reset",
                    items: seq![
                        Item::Action { key: "m", desc: "mixed    (HEAD and index)", action: TransientAction::ResetMixed },
                        Item::Action { key: "s", desc: "soft     (HEAD only)", action: TransientAction::ResetSoft },
                        Item::Action { key: "h", desc: "hard     (HEAD, index and worktree)", action: TransientAction::ResetHard },
                        Item::Action { key: "k", desc: "keep     (HEAD and index, keeping uncommitted)", action: TransientAction::ResetKeep },
                        Item::Action { key: "i", desc: "index    (only)", action: TransientAction::ResetIndex },
                        Item::Action { key: "w", desc: "worktree (only)", action: TransientAction::ResetWorktree },
                    ],
                },
        ],
        defaults: seq![],
        incompatible: seq![],
    }
}

/// Move HEAD, the index and/or the worktree to a picked revision.
pub fn reset() -> (r: TransientDef)
    ensures
        r@ == reset_view(),
{
    let mut groups: Vec<GroupDef> = Vec::new();
    let mut items: Vec<Item> = Vec::new();
    items.push(Item::Action { key: "m", desc: "mixed    (HEAD and index)", action: TransientAction::ResetMixed });
    items.push(Item::Action { key: "s", desc: "soft     (HEAD only)", action: TransientAction::ResetSoft });
    items.push(Item::Action { key: "h", desc: "hard     (HEAD, index and worktree)", action: TransientAction::ResetHard });
    items.push(Item::Action { key: "k", desc: "keep     (HEAD and index, keeping uncommitted)", action: TransientAction::ResetKeep });
    items.push(Item::Action { key: "i", desc: "index    (only)", action: TransientAction::ResetIndex });
    items.push(Item::Action { key: "w", desc: "worktree (only)", action: TransientAction::ResetWorktree });
    groups.push(GroupDef { title: "Reset", items });
    let mut defaults: Vec<&'static str> = Vec::new();
    let mut incompatible: Vec<Vec<&'static str>> = Vec::new();
    let r = TransientDef { title: "Reset", groups, defaults, incompatible };
    assert(r@.groups =~~= reset_view().groups);
    assert(r@.defaults =~= reset_view().defaults);
    assert(r@.incompatible =~~= reset_view().incompatible);
    r
}

/// Stash away index/worktree changes and apply/pop/drop existing stashes.
pub open spec fn stash_view() -> DefView {
    DefView {
        title: "Stash",
        groups: seq![
            GroupView {
                    title: "Arguments",
                    items: seq![
                        Item::Switch { key: "-u", flag: "--include-untracked", desc: "Also save untracked files" },
                        Item::Switch { key: "-a", flag: "--all", desc: "Also save untracked and ignored files" },
                    ],
                },
            GroupView {
                    title: "Stash",
                    items: seq![
                        Item::Action { key: "z", desc: "both (index and worktree)", action: TransientAction::StashBoth },
                        Item::Action { key: "i", desc: "index (staged changes only)", action: TransientAction::StashIndex },
                        Item::Action { key: "x", desc: "keeping index", action: TransientAction::StashKeepIndex },
                    ],
                },
            GroupView {
                    title: "Use",
                    items: seq![
                        Item::Action { key: "a", desc: "Apply", action: TransientAction::StashApply },
                        Item::Action { key: "p", desc: "Pop", action: TransientAction::StashPop },
                        Item::Action { key: "k", desc: "Drop", action: TransientAction::StashDrop },
                    ],
                },
        ],
        defaults: seq![],
        incompatible: seq![],
    }
}

/// Stash away index/worktree changes and apply/pop/drop existing stashes.
pub fn stash() -> (r: TransientDef)
    ensures
        r@ == stash_view(),
{
    let mut groups: Vec<GroupDef> = Vec::new();
    let mut items: Vec<Item> = Vec::new();
    items.push(Item::Switch { key: "-u", flag: "--include-untracked", desc: "Also save untracked files" });
    items.push(Item::Switch { key: "-a", flag: "--all", desc: "Also save untracked and ignored files" });
    groups.push(GroupDef { title: "Arguments", items });
    let mut items: Vec<Item> = Vec::new();
    items.push(Item::Action { key: "z", desc: "both (index and worktree)", action: TransientAction::StashBoth });
    items.push(Item::Action { key: "i", desc: "index (staged changes only)", action: TransientAction::StashIndex });
    items.push(Item::Action { key: "x", desc: "keeping index", action: TransientAction::StashKeepIndex });
    groups.push(GroupDef { title: "Stash", items });
    let mut items: Vec<Item> = Vec::new();
    items.push(Item::Action { key: "a", desc: "Apply", action: TransientAction::StashApply });
    items.push(Item::Action { key: "p", desc: "Pop", action: TransientAction::StashPop });
    items.push(Item::Action { key: "k", desc: "Drop", action: TransientAction::StashDrop });
    groups.push(GroupDef { title: "Use", items });
    let mut defaults: Vec<&'static str> = Vec::new();
    let mut incompatible: Vec<Vec<&'static str>> = Vec::new();
    let r = TransientDef { title: "Stash", groups, defaults, incompatible };
    assert(r@.groups =~~= stash_view().groups);
    assert(r@.defaults =~= stash_view().defaults);
    assert(r@.incompatible =~~= stash_view().incompatible);
    r
}

/// Create (optionally annotated/signed) and delete tags.
pub open spec fn tag_view() -> DefView {
    DefView {
        title: "Tag",
        groups: seq![
            GroupView {
                    title: "Arguments",
                    items: seq![
                        Item::Switch { key: "-f", flag: "--force", desc: "Force" },
                        Item::Switch { key: "-e", flag: "--edit", desc: "Edit message" },
                        Item::Switch { key: "-a", flag: "--annotate", desc: "Annotate" },
                        Item::Switch { key: "-s", flag: "--sign", desc: "Sign" },
                        Item::Arg { key: "-u", flag: "--local-user=", desc: "Sign as" },
                    ],
                },
            GroupView {
                    title: "Actions",
                    items: seq![
                        Item::Action { key: "t", desc: "Create tag", action: TransientAction::TagCreate },
                        Item::Action { key: "k", desc: "Delete tag", action: TransientAction::TagDelete },
                    ],
                },
        ],
        defaults: seq![],
        incompatible: seq![],
    }
}

/// Create (optionally annotated/signed) and delete tags.
pub fn tag() -> (r: TransientDef)
    ensures
        r@ == tag_view(),
{
    let mut groups: Vec<GroupDef> = Vec::new();
    let mut items: Vec<Item> = Vec::new();
    items.push(Item::Switch { key: "-f", flag: "--force", desc: "Force" });
    items.push(Item::Switch { key: "-e", flag: "--edit", desc: "Edit message" });
    items.push(Item::Switch { key: "-a", flag: "--annotate", desc: "Annotate" });
    items.push(Item::Switch { key: "-s", flag: "--sign", desc: "Sign" });
    items.push(Item::Arg { key: "-u", flag: "--local-user=", desc: "Sign as" });
    groups.push(GroupDef { title: "Arguments", items });
    let mut items: Vec<Item> = Vec::new();
    items.push(Item::Action { key: "t", desc: "Create tag", action: TransientAction::TagCreate });
    items.push(Item::Action { key: "k", desc: "Delete tag", action: TransientAction::TagDelete });
    groups.push(GroupDef { title: "Actions", items });
    let mut defaults: Vec<&'static str> = Vec::new();
    let mut incompatible: Vec<Vec<&'static str>> = Vec::new();
    let r = TransientDef { title: "Tag", groups, defaults, incompatible };
    assert(r@.groups =~~= tag_view().groups);
    assert(r@.defaults =~= tag_view().defaults);
    assert(r@.incompatible =~~= tag_view().incompatible);
    r
}

/// The per-remote variables, scoped to
/// the current remote in the remote menu and to a picked one in the
/// configure menu.
pub open spec fn remote_variables_view() -> GroupView {
    GroupView {
        title: "Variables",
        items: seq![
            Item::Variable { key: "u", var: "remote.{}.url" },
            Item::Variable { key: "U", var: "remote.{}.fetch" },
            Item::Variable { key: "s", var: "remote.{}.pushurl" },
            Item::Variable { key: "S", var: "remote.{}.push" },
            Item::Variable { key: "O", var: "remote.{}.tagOpt" },
            Item::Variable { key: "h", var: "remote.{}.followRemoteHEAD" },
        ],
    }
}

/// The per-remote variables, scoped to
/// the current remote in the remote menu and to a picked one in the
/// configure menu.
pub fn remote_variables() -> (r: GroupDef)
    ensures
        r@ == remote_variables_view(),
{
    let mut items: Vec<Item> = Vec::new();
    items.push(Item::Variable { key: "u", var: "remote.{}.url" });
    items.push(Item::Variable { key: "U", var: "remote.{}.fetch" });
    items.push(Item::Variable { key: "s", var: "remote.{}.pushurl" });
    items.push(Item::Variable { key: "S", var: "remote.{}.push" });
    items.push(Item::Variable { key: "O", var: "remote.{}.tagOpt" });
    items.push(Item::Variable { key: "h", var: "remote.{}.followRemoteHEAD" });
    let r = GroupDef { title: "Variables", items };
    assert(r@ =~= remote_variables_view());
    r
}

/// Add, configure or remove remotes; `-f` (fetch after add) starts
/// enabled.
pub open spec fn remote_view() -> DefView {
    DefView {
        title: "Remote",
        groups: seq![
            remote_variables_view(),
            GroupView {
                    title: "Arguments for add",
                    items: seq![
                        Item::Switch { key: "-f", flag: "-f", desc: "Fetch after add" },
                    ],
                },
            GroupView {
                    title: "Actions",
                    items: seq![
                        Item::Action { key: "a", desc: "Add", action: TransientAction::RemoteAdd },
                        Item::Action { key: "r", desc: "Rename", action: TransientAction::RemoteRename },
                        Item::Action { key: "k", desc: "Remove", action: TransientAction::RemoteRemove },
                        Item::Action { key: "C", desc: "Configure...", action: TransientAction::RemoteConfigure },
                        Item::Action { key: "p", desc: "Prune stale branches", action: TransientAction::RemotePrune },
                    ],
                },
        ],
        defaults: seq!["-f"],
        incompatible: seq![],
    }
}

/// Add, configure or remove remotes; `-f` (fetch after add) starts
/// enabled.
pub fn remote() -> (r: TransientDef)
    ensures
        r@ == remote_view(),
{
    let mut groups: Vec<GroupDef> = Vec::new();
    groups.push(remote_variables());
    let mut items: Vec<Item> = Vec::new();
    items.push(Item::Switch { key: "-f", flag: "-f", desc: "Fetch after add" });
    groups.push(GroupDef { title: "Arguments for add", items });
    let mut items: Vec<Item> = Vec::new();
    items.push(Item::Action { key: "a", desc: "Add", action: TransientAction::RemoteAdd });
    items.push(Item::Action { key: "r", desc: "Rename", action: TransientAction::RemoteRename });
    items.push(Item::Action { key: "k", desc: "Remove", action: TransientAction::RemoteRemove });
    items.push(Item::Action { key: "C", desc: "Configure...", action: TransientAction::RemoteConfigure });
    items.push(Item::Action { key: "p", desc: "Prune stale branches", action: TransientAction::RemotePrune });
    groups.push(GroupDef { title: "Actions", items });
    let mut defaults: Vec<&'static str> = Vec::new();
    defaults.push("-f");
    let mut incompatible: Vec<Vec<&'static str>> = Vec::new();
    let r = TransientDef { title: "Remote", groups, defaults, incompatible };
    assert(r@.groups =~~= remote_view().groups);
    assert(r@.defaults =~= remote_view().defaults);
    assert(r@.incompatible =~~= remote_view().incompatible);
    r
}

/// Variables menu for an explicitly picked remote.
pub open spec fn remote_configure_view() -> DefView {
    DefView {
        title: "Configure remote",
        groups: seq![
            remote_variables_view(),
        ],
        defaults: seq![],
        incompatible: seq![],
    }
}

/// Variables menu for an explicitly picked remote.
pub fn remote_configure() -> (r: TransientDef)
    ensures
        r@ == remote_configure_view(),
{
    let mut groups: Vec<GroupDef> = Vec::new();
    groups.push(remote_variables());
    let mut defaults: Vec<&'static str> = Vec::new();
    let mut incompatible: Vec<Vec<&'static str>> = Vec::new();
    let r = TransientDef { title: "Configure remote", groups, defaults, incompatible };
    assert(r@.groups =~~= remote_configure_view().groups);
    assert(r@.defaults =~= remote_configure_view().defaults);
    assert(r@.incompatible =~~= remote_configure_view().incompatible);
    r
}

/// Pull into the current branch; `--ff-only` and `--rebase` are mutually
/// exclusive.
pub open spec fn pull_view() -> DefView {
    DefView {
        title: "Pull",
        groups: seq![
            GroupView {
                    title: "Arguments",
                    items: seq![
                        Item::Switch { key: "-f", flag: "--ff-only", desc: "Fast-forward only" },
                        Item::Switch { key: "-r", flag: "--rebase", desc: "Rebase local commits" },
                        Item::Switch { key: "-F", flag: "--force", desc: "Force" },
                    ],
                },
            GroupView {
                    title: "Pull into current branch from",
                    items: seq![
                        Item::Action { key: "p", desc: "push-remote", action: TransientAction::PullFromPushRemote },
                        Item::Action { key: "u", desc: "upstream", action: TransientAction::PullFromUpstream },
                        Item::Action { key: "e", desc: "elsewhere", action: TransientAction::PullElsewhere },
                    ],
                },
            GroupView {
                    title: "Configure",
                    items: seq![
                        Item::Variable { key: "r", var: "branch.{}.rebase" },
                        Item::Action { key: "C", desc: "variables...", action: TransientAction::BranchConfigure },
                    ],
                },
        ],
        defaults: seq![],
        incompatible: seq![seq!["--ff-only", "--rebase"]],
    }
}

/// Pull into the current branch; `--ff-only` and `--rebase` are mutually
/// exclusive.
pub fn pull() -> (r: TransientDef)
    ensures
        r@ == pull_view(),
{
    let mut groups: Vec<GroupDef> = Vec::new();
    let mut items: Vec<Item> = Vec::new();
    items.push(Item::Switch { key: "-f", flag: "--ff-only", desc: "Fast-forward only" });
    items.push(Item::Switch { key: "-r", flag: "--rebase", desc: "Rebase local commits" });
    items.push(Item::Switch { key: "-F", flag: "--force", desc: "Force" });
    groups.push(GroupDef { title: "Arguments", items });
    let mut items: Vec<Item> = Vec::new();
    items.push(Item::Action { key: "p", desc: "push-remote", action: TransientAction::PullFromPushRemote });
    items.push(Item::Action { key: "u", desc: "upstream", action: TransientAction::PullFromUpstream });
    items.push(Item::Action { key: "e", desc: "elsewhere", action: TransientAction::PullElsewhere });
    groups.push(GroupDef { title: "Pull into current branch from", items });
    let mut items: Vec<Item> = Vec::new();
    items.push(Item::Variable { key: "r", var: "branch.{}.rebase" });
    items.push(Item::Action { key: "C", desc: "variables...", action: TransientAction::BranchConfigure });
    groups.push(GroupDef { title: "Configure", items });
    let mut defaults: Vec<&'static str> = Vec::new();
    let mut incompatible: Vec<Vec<&'static str>> = Vec::new();
    let mut set: Vec<&'static str> = Vec::new();
    set.push("--ff-only");
    set.push("--rebase");
    incompatible.push(set);
    let r = TransientDef { title: "Pull", groups, defaults, incompatible };
    assert(r@.groups =~~= pull_view().groups);
    assert(r@.defaults =~= pull_view().defaults);
    assert(r@.incompatible =~~= pull_view().incompatible);
    r
}

/// Fetch from the push-remote/upstream, a picked remote or all remotes,
/// down to a single branch or an explicit refspec.
pub open spec fn fetch_view() -> DefView {
    DefView {
        title: "Fetch",
        groups: seq![
            GroupView {
                    title: "Arguments",
                    items: seq![
                        Item::Switch { key: "-p", flag: "--prune", desc: "Prune deleted branches" },
                        Item::Switch { key: "-t", flag: "--tags", desc: "Fetch all tags" },
                        Item::Switch { key: "-F", flag: "--force", desc: "Force" },
                    ],
                },
            GroupView {
                    title: "Fetch from",
                    items: seq![
                        Item::Action { key: "p", desc: "push-remote", action: TransientAction::FetchFromPushRemote },
                        Item::Action { key: "u", desc: "upstream", action: TransientAction::FetchFromUpstream },
                        Item::Action { key: "e", desc: "elsewhere", action: TransientAction::FetchElsewhere },
                        Item::Action { key: "a", desc: "all remotes", action: TransientAction::FetchAll },
                    ],
                },
            GroupView {
                    title: "Fetch",
                    items: seq![
                        Item::Action { key: "o", desc: "another branch", action: TransientAction::FetchBranch },
                        Item::Action { key: "r", desc: "explicit refspec", action: TransientAction::FetchRefspec },
                    ],
                },
            GroupView {
                    title: "Configure",
                    items: seq![
                        Item::Action { key: "C", desc: "variables...", action: TransientAction::BranchConfigure },
                    ],
                },
        ],
        defaults: seq![],
        incompatible: seq![],
    }
}

/// Fetch from the push-remote/upstream, a picked remote or all remotes,
/// down to a single branch or an explicit refspec.
pub fn fetch() -> (r: TransientDef)
    ensures
        r@ == fetch_view(),
{
    let mut groups: Vec<GroupDef> = Vec::new();
    let mut items: Vec<Item> = Vec::new();
    items.push(Item::Switch { key: "-p", flag: "--prune", desc: "Prune deleted branches" });
    items.push(Item::Switch { key: "-t", flag: "--tags", desc: "Fetch all tags" });
    items.push(Item::Switch { key: "-F", flag: "--force", desc: "Force" });
    groups.push(GroupDef { title: "Arguments", items });
    let mut items: Vec<Item> = Vec::new();
    items.push(Item::Action { key: "p", desc: "push-remote", action: TransientAction::FetchFromPushRemote });
    items.push(Item::Action { key: "u", desc: "upstream", action: TransientAction::FetchFromUpstream });
    items.push(Item::Action { key: "e", desc: "elsewhere", action: TransientAction::FetchElsewhere });
    items.push(Item::Action { key: "a", desc: "all remotes", action: TransientAction::FetchAll });
    groups.push(GroupDef { title: "Fetch from", items });
    let mut items: Vec<Item> = Vec::new();
    items.push(Item::Action { key: "o", desc: "another branch", action: TransientAction::FetchBranch });
    items.push(Item::Action { key: "r", desc: "explicit refspec", action: TransientAction::FetchRefspec });
    groups.push(GroupDef { title: "Fetch", items });
    let mut items: Vec<Item> = Vec::new();
    items.push(Item::Action { key: "C", desc: "variables...", action: TransientAction::BranchConfigure });
    groups.push(GroupDef { title: "Configure", items });
    let mut defaults: Vec<&'static str> = Vec::new();
    let mut incompatible: Vec<Vec<&'static str>> = Vec::new();
    let r = TransientDef { title: "Fetch", groups, defaults, incompatible };
    assert(r@.groups =~~= fetch_view().groups);
    assert(r@.defaults =~= fetch_view().defaults);
    assert(r@.incompatible =~~= fetch_view().incompatible);
    r
}

pub open spec fn log_view() -> DefView {
    DefView {
        title: "Log",
        groups: seq![
            GroupView {
                    title: "Arguments",
                    items: seq![
                        Item::Arg { key: "-n", flag: "--max-count=", desc: "Limit number of commits" },
                        Item::Arg { key: "-A", flag: "--author=", desc: "Limit to author" },
                        Item::Arg { key: "-F", flag: "--grep=", desc: "Search commit messages" },
                        Item::Switch { key: "-m", flag: "--no-merges", desc: "Omit merge commits" },
                        Item::Switch { key: "-r", flag: "--reverse", desc: "Show oldest first" },
                        Item::Switch { key: "-f", flag: "--first-parent", desc: "Follow first parent only" },
                    ],
                },
            GroupView {
                    title: "Actions",
                    items: seq![
                        Item::Action { key: "l", desc: "Log current branch", action: TransientAction::LogCurrent },
                        Item::Action { key: "o", desc: "Log other branch/revision", action: TransientAction::LogOther },
                        Item::Action { key: "a", desc: "Log all references", action: TransientAction::LogAll },
                    ],
                },
        ],
        defaults: seq![],
        incompatible: seq![],
    }
}

pub fn log() -> (r: TransientDef)
    ensures
        r@ == log_view(),
{
    let mut groups: Vec<GroupDef> = Vec::new();
    let mut items: Vec<Item> = Vec::new();
    items.push(Item::Arg { key: "-n", flag: "--max-count=", desc: "Limit number of commits" });
    items.push(Item::Arg { key: "-A", flag: "--author=", desc: "Limit to author" });
    items.push(Item::Arg { key: "-F", flag: "--grep=", desc: "Search commit messages" });
    items.push(Item::Switch { key: "-m", flag: "--no-merges", desc: "Omit merge commits" });
    items.push(Item::Switch { key: "-r", flag: "--reverse", desc: "Show oldest first" });
    items.push(Item::Switch { key: "-f", flag: "--first-parent", desc: "Follow first parent only" });
    groups.push(GroupDef { title: "Arguments", items });
    let mut items: Vec<Item> = Vec::new();
    items.push(Item::Action { key: "l", desc: "Log current branch", action: TransientAction::LogCurrent });
    items.push(Item::Action { key: "o", desc: "Log other branch/revision", action: TransientAction::LogOther });
    items.push(Item::Action { key: "a", desc: "Log all references", action: TransientAction::LogAll });
    groups.push(GroupDef { title: "Actions", items });
    let mut defaults: Vec<&'static str> = Vec::new();
    let mut incompatible: Vec<Vec<&'static str>> = Vec::new();
    let r = TransientDef { title: "Log", groups, defaults, incompatible };
    assert(r@.groups =~~= log_view().groups);
    assert(r@.defaults =~= log_view().defaults);
    assert(r@.incompatible =~~= log_view().incompatible);
    r
}

pub open spec fn submodule_view() -> DefView {
    DefView {
        title: "Submodule",
        groups: seq![
            GroupView {
                    title: "Arguments",
                    items: seq![
                        Item::Switch { key: "-f", flag: "--force", desc: "Force" },
                        Item::Switch { key: "-r", flag: "--recursive", desc: "Recursive" },
                        Item::Switch { key: "-N", flag: "--no-fetch", desc: "Do not fetch" },
                    ],
                },
            GroupView {
                    title: "All modules",
                    items: seq![
                        Item::Action { key: "a", desc: "Add", action: TransientAction::SubmoduleAdd },
                        Item::Action { key: "r", desc: "Register", action: TransientAction::SubmoduleRegister },
                        Item::Action { key: "p", desc: "Populate", action: TransientAction::SubmodulePopulate },
                        Item::Action { key: "u", desc: "Update", action: TransientAction::SubmoduleUpdate },
                        Item::Action { key: "s", desc: "Synchronize", action: TransientAction::SubmoduleSync },
                    ],
                },
            GroupView {
                    title: "One module",
                    items: seq![
                        Item::Action { key: "d", desc: "Unpopulate", action: TransientAction::SubmoduleUnpopulate },
                        Item::Action { key: "k", desc: "Remove", action: TransientAction::SubmoduleRemove },
                    ],
                },
        ],
        defaults: seq![],
        incompatible: seq![],
    }
}

/// Add, register, populate, update and synchronize submodules, or unpopulate and remove one.
pub fn submodule() -> (r: TransientDef)
    ensures
        r@ == submodule_view(),
{
    let mut groups: Vec<GroupDef> = Vec::new();
    let mut items: Vec<Item> = Vec::new();
    items.push(Item::Switch { key: "-f", flag: "--force", desc: "Force" });
    items.push(Item::Switch { key: "-r", flag: "--recursive", desc: "Recursive" });
    items.push(Item::Switch { key: "-N", flag: "--no-fetch", desc: "Do not fetch" });
    groups.push(GroupDef { title: "Arguments", items });
    let mut items: Vec<Item> = Vec::new();
    items.push(Item::Action { key: "a", desc: "Add", action: TransientAction::SubmoduleAdd });
    items.push(Item::Action { key: "r", desc: "Register", action: TransientAction::SubmoduleRegister });
    items.push(Item::Action { key: "p", desc: "Populate", action: TransientAction::SubmodulePopulate });
    items.push(Item::Action { key: "u", desc: "Update", action: TransientAction::SubmoduleUpdate });
    items.push(Item::Action { key: "s", desc: "Synchronize", action: TransientAction::SubmoduleSync });
    groups.push(GroupDef { title: "All modules", items });
    let mut items: Vec<Item> = Vec::new();
    items.push(Item::Action { key: "d", desc: "Unpopulate", action: TransientAction::SubmoduleUnpopulate });
    items.push(Item::Action { key: "k", desc: "Remove", action: TransientAction::SubmoduleRemove });
    groups.push(GroupDef { title: "One module", items });
    let mut defaults: Vec<&'static str> = Vec::new();
    let mut incompatible: Vec<Vec<&'static str>> = Vec::new();
    let r = TransientDef { title: "Submodule", groups, defaults, incompatible };
    assert(r@.groups =~~= submodule_view().groups);
    assert(r@.defaults =~= submodule_view().defaults);
    assert(r@.incompatible =~~= submodule_view().incompatible);
    r
}

pub open spec fn worktree_view() -> DefView {
    DefView {
        title: "Worktree",
        groups: seq![
            GroupView {
                    title: "Arguments",
                    items: seq![
                        Item::Switch { key: "-f", flag: "--force", desc: "Force" },
                    ],
                },
            GroupView {
                    title: "Create new",
                    items: seq![
                        Item::Action { key: "b", desc: "Worktree", action: TransientAction::WorktreeCheckout },
                        Item::Action { key: "c", desc: "Branch and worktree", action: TransientAction::WorktreeBranch },
                    ],
                },
            GroupView {
                    title: "Do",
                    items: seq![
                        Item::Action { key: "m", desc: "Move worktree", action: TransientAction::WorktreeMove },
                        Item::Action { key: "k", desc: "Delete worktree", action: TransientAction::WorktreeDelete },
                    ],
                },
        ],
        defaults: seq![],
        incompatible: seq![],
    }
}

/// Create, move and delete linked worktrees.
pub fn worktree() -> (r: TransientDef)
    ensures
        r@ == worktree_view(),
{
    let mut groups: Vec<GroupDef> = Vec::new();
    let mut items: Vec<Item> = Vec::new();
    items.push(Item::Switch { key: "-f", flag: "--force", desc: "Force" });
    groups.push(GroupDef { title: "Arguments", items });
    let mut items: Vec<Item> = Vec::new();
    items.push(Item::Action { key: "b", desc: "Worktree", action: TransientAction::WorktreeCheckout });
    items.push(Item::Action { key: "c", desc: "Branch and worktree", action: TransientAction::WorktreeBranch });
    groups.push(GroupDef { title: "Create new", items });
    let mut items: Vec<Item> = Vec::new();
    items.push(Item::Action { key: "m", desc: "Move worktree", action: TransientAction::WorktreeMove });
    items.push(Item::Action { key: "k", desc: "Delete worktree", action: TransientAction::WorktreeDelete });
    groups.push(GroupDef { title: "Do", items });
    let mut defaults: Vec<&'static str> = Vec::new();
    let mut incompatible: Vec<Vec<&'static str>> = Vec::new();
    let r = TransientDef { title: "Worktree", groups, defaults, incompatible };
    assert(r@.groups =~~= worktree_view().groups);
    assert(r@.defaults =~= worktree_view().defaults);
    assert(r@.incompatible =~~= worktree_view().incompatible);
    r
}

/// The definition of each menu.
pub open spec fn menu_view(menu: Menu) -> DefView {
    match menu {
        Menu::Commit => commit_view(),
        Menu::Branch => branch_view(),
        Menu::Merge => merge_view(),
        Menu::Rebase => rebase_view(),
        Menu::CherryPick => cherry_pick_view(),
        Menu::Revert => revert_view(),
        Menu::Reset => reset_view(),
        Menu::Stash => stash_view(),
        Menu::Tag => tag_view(),
        Menu::Remote => remote_view(),
        Menu::Push => push_view(),
        Menu::Pull => pull_view(),
        Menu::Fetch => fetch_view(),
        Menu::Log => log_view(),
        Menu::Submodule => submodule_view(),
        Menu::Worktree => worktree_view(),
    }
}

/// Resolve a `Command::Transient(menu)` to its definition. A new menu adds
/// one arm here. Menus whose contents depend on repo state (a merge or
/// rebase in progress) are swapped in by the app.
pub fn menu_def(menu: Menu) -> (r: TransientDef)
    ensures
        r@ == menu_view(menu),
{
    match menu {
        Menu::Commit => commit(),
        Menu::Branch => branch(),
        Menu::Merge => merge(),
        Menu::Rebase => rebase(),
        Menu::CherryPick => cherry_pick(),
        Menu::Revert => revert(),
        Menu::Reset => reset(),
        Menu::Stash => stash(),
        Menu::Tag => tag(),
        Menu::Remote => remote(),
        Menu::Push => push(),
        Menu::Pull => pull(),
        Menu::Fetch => fetch(),
        Menu::Log => log(),
        Menu::Submodule => submodule(),
        Menu::Worktree => worktree(),
    }
}

} // verus!
