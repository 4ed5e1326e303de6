//! Opening a transient menu and routing its actions to the flow of the menu
//! that owns them.

use vstd::prelude::*;

use crate::command::Menu;
use crate::git::types::StatusSnapshot;
use crate::ops::history::{
    cherry_pick_action, cherry_pick_spec, in_progress, in_progress_spec, merge_action, merge_spec, rebase_action,
    rebase_spec, reset_action, reset_spec, revert_action, revert_spec,
};
use crate::ops::menus::{
    branch_action, branch_more_action, branch_more_spec, branch_spec, commit_action, commit_spec, log_action, log_spec, remote_action, remote_menu_action,
    remote_menu_spec, remote_spec, stash_action, stash_spec, tag_action, tag_spec,
};
use crate::ops::modules::{submodule_action, submodule_spec, worktree_action, worktree_spec};
use crate::ops::{opt_step, Step, StepView};
use crate::session::string_views;
use crate::ui::menus::{
    menu_def, menu_view, merge_in_progress, merge_in_progress_view, rebase_in_progress, rebase_in_progress_view,
};
use crate::ui::transient::{DefView, TransientAction, TransientState};

verus! {

/// The flow an action belongs to; actions that no flow handles do nothing.
pub open spec fn invoke_spec(
    action: TransientAction,
    args: Seq<Seq<char>>,
    ans: Seq<Seq<char>>,
    s: Option<&StatusSnapshot>,
) -> Option<StepView> {
    match action {
        TransientAction::Commit | TransientAction::CommitAmend | TransientAction::CommitExtend => commit_spec(
            action,
            args,
        ),
        TransientAction::PushToPushRemote | TransientAction::PushToUpstream | TransientAction::PushElsewhere
        | TransientAction::PushOther | TransientAction::PushRefspecs | TransientAction::PushMatching
        | TransientAction::PushTag | TransientAction::PushTags | TransientAction::PullFromPushRemote
        | TransientAction::PullFromUpstream | TransientAction::PullElsewhere | TransientAction::FetchFromPushRemote
        | TransientAction::FetchFromUpstream | TransientAction::FetchElsewhere | TransientAction::FetchAll
        | TransientAction::FetchBranch | TransientAction::FetchRefspec => remote_spec(action, args, ans),
        TransientAction::Checkout | TransientAction::CreateCheckoutBranch | TransientAction::CreateBranch => branch_spec(
            action,
            ans,
        ),
        TransientAction::CheckoutLocal | TransientAction::BranchRename | TransientAction::BranchReset
        | TransientAction::BranchDelete | TransientAction::BranchSpinoff => branch_more_spec(action, ans, s),
        TransientAction::Merge | TransientAction::MergeEdit | TransientAction::MergeNoCommit
        | TransientAction::MergeSquash | TransientAction::MergeAbsorb | TransientAction::MergePreview
        | TransientAction::MergeInto | TransientAction::MergeAbort => merge_spec(action, args, ans, s),
        TransientAction::RebaseUpstream | TransientAction::RebaseElsewhere | TransientAction::RebaseInteractive
        | TransientAction::RebaseContinue | TransientAction::RebaseSkip | TransientAction::RebaseEditTodo
        | TransientAction::RebaseAbort => rebase_spec(action, args, ans, s),
        TransientAction::CherryPick | TransientAction::CherryPickApply | TransientAction::CherryPickContinue
        | TransientAction::CherryPickSkip | TransientAction::CherryPickAbort => cherry_pick_spec(action, args, ans, s),
        TransientAction::Revert | TransientAction::RevertNoCommit | TransientAction::RevertContinue
        | TransientAction::RevertSkip | TransientAction::RevertAbort => revert_spec(action, args, ans, s),
        TransientAction::ResetMixed | TransientAction::ResetSoft | TransientAction::ResetHard
        | TransientAction::ResetKeep | TransientAction::ResetIndex | TransientAction::ResetWorktree => reset_spec(
            action,
            ans,
        ),
        TransientAction::TagCreate | TransientAction::TagDelete => tag_spec(action, args, ans),
        TransientAction::StashBoth | TransientAction::StashIndex | TransientAction::StashKeepIndex
        | TransientAction::StashApply | TransientAction::StashPop | TransientAction::StashDrop => stash_spec(
            action,
            args,
            ans,
        ),
        TransientAction::RemoteConfigure | TransientAction::RemoteAdd | TransientAction::RemoteRename
        | TransientAction::RemoteRemove | TransientAction::RemotePrune => remote_menu_spec(action, args, ans),
        TransientAction::LogCurrent | TransientAction::LogAll | TransientAction::LogOther => log_spec(
            action,
            args,
            ans,
            s,
        ),
        TransientAction::WorktreeCheckout | TransientAction::WorktreeBranch | TransientAction::WorktreeMove
        | TransientAction::WorktreeDelete => worktree_spec(action, args, ans),
        TransientAction::SubmoduleAdd | TransientAction::SubmoduleRegister | TransientAction::SubmodulePopulate
        | TransientAction::SubmoduleUpdate | TransientAction::SubmoduleSync | TransientAction::SubmoduleUnpopulate
        | TransientAction::SubmoduleRemove => submodule_spec(action, args, ans),
        _ => None,
    }
}

/// The next step of the action's flow, given the menu's switches and the
/// answers so far; `None` for an action that no flow handles.
pub fn invoke_transient(
    action: TransientAction,
    args: &Vec<String>,
    answers: &Vec<String>,
    s: Option<&StatusSnapshot>,
) -> (r: Option<Step>)
    ensures
        opt_step(r) == invoke_spec(action, string_views(args@), string_views(answers@), s),
{
    match action {
        TransientAction::Commit | TransientAction::CommitAmend | TransientAction::CommitExtend => commit_action(
            action,
            args,
        ),
        TransientAction::PushToPushRemote | TransientAction::PushToUpstream | TransientAction::PushElsewhere
        | TransientAction::PushOther | TransientAction::PushRefspecs | TransientAction::PushMatching
        | TransientAction::PushTag | TransientAction::PushTags | TransientAction::PullFromPushRemote
        | TransientAction::PullFromUpstream | TransientAction::PullElsewhere | TransientAction::FetchFromPushRemote
        | TransientAction::FetchFromUpstream | TransientAction::FetchElsewhere | TransientAction::FetchAll
        | TransientAction::FetchBranch | TransientAction::FetchRefspec => remote_action(action, args, answers),
        TransientAction::Checkout | TransientAction::CreateCheckoutBranch | TransientAction::CreateBranch => branch_action(
            action,
            answers,
        ),
        TransientAction::CheckoutLocal | TransientAction::BranchRename | TransientAction::BranchReset
        | TransientAction::BranchDelete | TransientAction::BranchSpinoff => branch_more_action(action, answers, s),
        TransientAction::Merge | TransientAction::MergeEdit | TransientAction::MergeNoCommit
        | TransientAction::MergeSquash | TransientAction::MergeAbsorb | TransientAction::MergePreview
        | TransientAction::MergeInto | TransientAction::MergeAbort => merge_action(action, args, answers, s),
        TransientAction::RebaseUpstream | TransientAction::RebaseElsewhere | TransientAction::RebaseInteractive
        | TransientAction::RebaseContinue | TransientAction::RebaseSkip | TransientAction::RebaseEditTodo
        | TransientAction::RebaseAbort => rebase_action(action, args, answers, s),
        TransientAction::CherryPick | TransientAction::CherryPickApply | TransientAction::CherryPickContinue
        | TransientAction::CherryPickSkip | TransientAction::CherryPickAbort => cherry_pick_action(
            action,
            args,
            answers,
            s,
        ),
        TransientAction::Revert | TransientAction::RevertNoCommit | TransientAction::RevertContinue
        | TransientAction::RevertSkip | TransientAction::RevertAbort => revert_action(action, args, answers, s),
        TransientAction::ResetMixed | TransientAction::ResetSoft | TransientAction::ResetHard
        | TransientAction::ResetKeep | TransientAction::ResetIndex | TransientAction::ResetWorktree => reset_action(
            action,
            answers,
        ),
        TransientAction::TagCreate | TransientAction::TagDelete => tag_action(action, args, answers),
        TransientAction::StashBoth | TransientAction::StashIndex | TransientAction::StashKeepIndex
        | TransientAction::StashApply | TransientAction::StashPop | TransientAction::StashDrop => stash_action(
            action,
            args,
            answers,
        ),
        TransientAction::RemoteConfigure | TransientAction::RemoteAdd | TransientAction::RemoteRename
        | TransientAction::RemoteRemove | TransientAction::RemotePrune => remote_menu_action(action, args, answers),
        TransientAction::LogCurrent | TransientAction::LogAll | TransientAction::LogOther => log_action(
            action,
            args,
            answers,
            s,
        ),
        TransientAction::WorktreeCheckout | TransientAction::WorktreeBranch | TransientAction::WorktreeMove
        | TransientAction::WorktreeDelete => worktree_action(action, args, answers),
        TransientAction::SubmoduleAdd | TransientAction::SubmoduleRegister | TransientAction::SubmodulePopulate
        | TransientAction::SubmoduleUpdate | TransientAction::SubmoduleSync | TransientAction::SubmoduleUnpopulate
        | TransientAction::SubmoduleRemove => submodule_action(action, args, answers),
        _ => None,
    }
}

/// The definition a menu opens with: while a merge or rebase is stopped,
/// its menu offers continue/abort instead.
pub open spec fn open_transient_spec(menu: Menu, s: Option<&StatusSnapshot>) -> DefView {
    if menu == Menu::Merge && in_progress_spec(s, "merging"@) {
        merge_in_progress_view()
    } else if menu == Menu::Rebase && in_progress_spec(s, "rebasing"@) {
        rebase_in_progress_view()
    } else {
        menu_view(menu)
    }
}

/// Opens a menu, in the state its definition starts in.
pub fn open_transient(menu: Menu, s: Option<&StatusSnapshot>) -> (r: TransientState)
    ensures
        r.def@ == open_transient_spec(menu, s),
        r.wf(),
        r.values@.len() == 0,
        r.scope is None,
{
    let def = if menu == Menu::Merge && in_progress(s, "merging") {
        merge_in_progress()
    } else if menu == Menu::Rebase && in_progress(s, "rebasing") {
        rebase_in_progress()
    } else {
        menu_def(menu)
    };
    TransientState::new(def)
}

} // verus!
