//! The menus that rewrite history: merge, rebase, cherry-pick, revert and
//! reset. Each picks a revision (defaulting to the commit at point) and runs
//! git with the menu's switches. While a merge, rebase, cherry-pick or revert
//! is stopped on conflicts, its continue/skip/abort actions apply; they are
//! refused when the latest status shows no such operation in progress, and
//! aborting confirms first. Actions that stop for a message hand the
//! terminal to $EDITOR.

use vstd::prelude::*;

use crate::git::types::StatusSnapshot;
use crate::ops::{
    cat, cat3, cmds_view, has_flag, opt_step, owned, push_all, push_arg, push_without, without, words,
    Source, Step, StepView,
};
use crate::session::{str_views, string_views};
use crate::ui::transient::TransientAction;

verus! {

/// Whether the latest status shows the operation `word` ("merging",
/// "rebasing", ...) in progress.
pub open spec fn in_progress_spec(s: Option<&StatusSnapshot>, word: Seq<char>) -> bool {
    match s {
        Some(x) => match x.state {
            Some(t) => t@ == word,
            None => false,
        },
        None => false,
    }
}

pub fn in_progress(s: Option<&StatusSnapshot>, word: &str) -> (r: bool)
    ensures
        r == in_progress_spec(s, word@),
{
    match s {
        Some(x) => match &x.state {
            Some(t) => *t == owned(word),
            None => false,
        },
        None => false,
    }
}

/// The current branch's upstream, if any.
pub open spec fn upstream_of(s: Option<&StatusSnapshot>) -> Option<Seq<char>> {
    match s {
        Some(x) => match x.branch.upstream {
            Some(u) => Some(u@),
            None => None,
        },
        None => None,
    }
}

/// The current branch, if on one.
pub open spec fn branch_of(s: Option<&StatusSnapshot>) -> Option<Seq<char>> {
    match s {
        Some(x) => match x.branch.head {
            Some(h) => Some(h@),
            None => None,
        },
        None => None,
    }
}

/// `base`, then the flags, then `last`.
fn command(base: &[&str], flags: &Vec<String>, last: &str) -> (r: Vec<String>)
    ensures
        string_views(r@) == str_views(base@) + string_views(flags@) + seq![last@],
{
    let mut v = words(base);
    push_all(&mut v, flags);
    push_arg(&mut v, last);
    v
}

/// What merging `rev` with one of the merge variants runs.
pub open spec fn merge_rev_spec(
    action: TransientAction,
    rev: Seq<char>,
    flags: Seq<Seq<char>>,
    branch: Option<Seq<char>>,
) -> StepView {
    match action {
        TransientAction::MergeAbsorb => StepView::RunSeq(
            "absorb "@ + rev,
            seq![seq!["merge"@, "--no-edit"@] + flags + seq![rev], seq!["branch"@, "-d"@, rev]],
        ),
        TransientAction::MergeInto => match branch {
            None => StepView::Say("cannot merge into: not on a branch"@),
            Some(cur) => StepView::RunSeq(
                "merge "@ + cur + " into "@ + rev,
                seq![
                    seq!["checkout"@, rev],
                    seq!["merge"@, "--no-edit"@] + flags + seq![cur],
                    seq!["branch"@, "-d"@, cur],
                ],
            ),
        },
        TransientAction::MergePreview => StepView::PreviewMerge(rev),
        TransientAction::MergeEdit => StepView::Editor("merge "@ + rev, seq!["merge"@, "--edit"@] + flags + seq![rev]),
        TransientAction::MergeNoCommit => StepView::Run(
            "merge "@ + rev,
            seq!["merge"@, "--no-commit"@, "--no-ff"@] + flags + seq![rev],
        ),
        TransientAction::MergeSquash => StepView::Run("merge "@ + rev, seq!["merge"@, "--squash"@] + flags + seq![rev]),
        _ => StepView::Run("merge "@ + rev, seq!["merge"@, "--no-edit"@] + flags + seq![rev]),
    }
}

pub open spec fn is_merge_variant(a: TransientAction) -> bool {
    a == TransientAction::Merge || a == TransientAction::MergeEdit || a == TransientAction::MergeNoCommit
        || a == TransientAction::MergeSquash || a == TransientAction::MergeAbsorb || a
        == TransientAction::MergePreview || a == TransientAction::MergeInto
}

/// What a merge action does, given the switches and the answers so far.
pub open spec fn merge_spec(
    action: TransientAction,
    args: Seq<Seq<char>>,
    ans: Seq<Seq<char>>,
    s: Option<&StatusSnapshot>,
) -> Option<StepView> {
    if action == TransientAction::MergeAbort {
        Some(
            if !in_progress_spec(s, "merging"@) {
                StepView::Say("no merge in progress"@)
            } else {
                StepView::Confirm("Abort the merge in progress?"@, "abort merge"@, seq!["merge"@, "--abort"@])
            },
        )
    } else if is_merge_variant(action) {
        Some(
            if ans.len() == 0 {
                StepView::Pick("Merge"@, Source::RevsAtPoint)
            } else {
                merge_rev_spec(action, ans[0], args, branch_of(s))
            },
        )
    } else {
        None
    }
}

/// Runs the picked merge variant against `rev` with the menu's flags.
pub fn merge_rev(action: TransientAction, rev: &str, flags: &Vec<String>, s: Option<&StatusSnapshot>) -> (r: Step)
    ensures
        r@ == merge_rev_spec(action, rev@, string_views(flags@), branch_of(s)),
{
    let ghost fl = string_views(flags@);
    match action {
        TransientAction::MergeAbsorb => {
            let merge = command(&["merge", "--no-edit"], flags, rev);
            assert(str_views(["merge", "--no-edit"]@) =~= seq!["merge"@, "--no-edit"@]);
            let mut del = words(&["branch", "-d"]);
            assert(str_views(["branch", "-d"]@) =~= seq!["branch"@, "-d"@]);
            push_arg(&mut del, rev);
            assert(string_views(del@) =~= seq!["branch"@, "-d"@, rev@]);
            let mut cmds: Vec<Vec<String>> = Vec::new();
            cmds.push(merge);
            cmds.push(del);
            assert(cmds_view(cmds@) =~= seq![
                seq!["merge"@, "--no-edit"@] + fl + seq![rev@],
                seq!["branch"@, "-d"@, rev@],
            ]);
            Step::RunSeq { desc: cat("absorb ", rev), cmds }
        },
        TransientAction::MergeInto => {
            let cur = match s {
                Some(x) => match &x.branch.head {
                    Some(h) => h.as_str(),
                    None => {
                        return Step::Say(owned("cannot merge into: not on a branch"));
                    },
                },
                None => {
                    return Step::Say(owned("cannot merge into: not on a branch"));
                },
            };
            let mut checkout = words(&["checkout"]);
            assert(str_views(["checkout"]@) =~= seq!["checkout"@]);
            push_arg(&mut checkout, rev);
            assert(string_views(checkout@) =~= seq!["checkout"@, rev@]);
            let merge = command(&["merge", "--no-edit"], flags, cur);
            assert(str_views(["merge", "--no-edit"]@) =~= seq!["merge"@, "--no-edit"@]);
            let mut del = words(&["branch", "-d"]);
            assert(str_views(["branch", "-d"]@) =~= seq!["branch"@, "-d"@]);
            push_arg(&mut del, cur);
            assert(string_views(del@) =~= seq!["branch"@, "-d"@, cur@]);
            let mut cmds: Vec<Vec<String>> = Vec::new();
            cmds.push(checkout);
            cmds.push(merge);
            cmds.push(del);
            assert(cmds_view(cmds@) =~= seq![
                seq!["checkout"@, rev@],
                seq!["merge"@, "--no-edit"@] + fl + seq![cur@],
                seq!["branch"@, "-d"@, cur@],
            ]);
            let mut desc = cat("merge ", cur);
            crate::text::push_str(&mut desc, " into ");
            crate::text::push_str(&mut desc, rev);
            Step::RunSeq { desc, cmds }
        },
        TransientAction::MergePreview => Step::PreviewMerge { rev: owned(rev) },
        TransientAction::MergeEdit => {
            let args = command(&["merge", "--edit"], flags, rev);
            assert(str_views(["merge", "--edit"]@) =~= seq!["merge"@, "--edit"@]);
            Step::Editor { desc: cat("merge ", rev), args }
        },
        TransientAction::MergeNoCommit => {
            let args = command(&["merge", "--no-commit", "--no-ff"], flags, rev);
            assert(str_views(["merge", "--no-commit", "--no-ff"]@) =~= seq!["merge"@, "--no-commit"@, "--no-ff"@]);
            Step::Run { desc: cat("merge ", rev), args }
        },
        TransientAction::MergeSquash => {
            let args = command(&["merge", "--squash"], flags, rev);
            assert(str_views(["merge", "--squash"]@) =~= seq!["merge"@, "--squash"@]);
            Step::Run { desc: cat("merge ", rev), args }
        },
        _ => {
            let args = command(&["merge", "--no-edit"], flags, rev);
            assert(str_views(["merge", "--no-edit"]@) =~= seq!["merge"@, "--no-edit"@]);
            Step::Run { desc: cat("merge ", rev), args }
        },
    }
}

/// The merge menu's actions.
pub fn merge_action(
    action: TransientAction,
    args: &Vec<String>,
    answers: &Vec<String>,
    s: Option<&StatusSnapshot>,
) -> (r: Option<Step>)
    ensures
        opt_step(r) == merge_spec(action, string_views(args@), string_views(answers@), s),
{
    if action == TransientAction::MergeAbort {
        if !in_progress(s, "merging") {
            return Some(Step::Say(owned("no merge in progress")));
        }
        let cli = words(&["merge", "--abort"]);
        assert(str_views(["merge", "--abort"]@) =~= seq!["merge"@, "--abort"@]);
        return Some(
            Step::Confirm { prompt: owned("Abort the merge in progress?"), desc: owned("abort merge"), args: cli },
        );
    }
    let variant = match action {
        TransientAction::Merge | TransientAction::MergeEdit | TransientAction::MergeNoCommit
        | TransientAction::MergeSquash | TransientAction::MergeAbsorb | TransientAction::MergePreview
        | TransientAction::MergeInto => true,
        _ => false,
    };
    if !variant {
        return None;
    }
    if answers.len() == 0 {
        return Some(Step::Pick { prompt: owned("Merge"), source: Source::RevsAtPoint });
    }
    Some(merge_rev(action, answers[0].as_str(), args, s))
}

pub open spec fn is_rebase_resume(a: TransientAction) -> bool {
    a == TransientAction::RebaseContinue || a == TransientAction::RebaseSkip || a
        == TransientAction::RebaseEditTodo || a == TransientAction::RebaseAbort
}

/// Rebasing onto `onto`: the todo editor with `-i`, else a background run.
pub open spec fn rebase_onto_spec(onto: Seq<char>, args: Seq<Seq<char>>) -> StepView {
    if args.contains("--interactive"@) {
        StepView::TodoEditor(onto, args)
    } else {
        StepView::Run("rebase onto "@ + onto, seq!["rebase"@] + args + seq![onto])
    }
}

/// What a rebase action does, given the switches and the answers so far.
pub open spec fn rebase_spec(
    action: TransientAction,
    args: Seq<Seq<char>>,
    ans: Seq<Seq<char>>,
    s: Option<&StatusSnapshot>,
) -> Option<StepView> {
    if is_rebase_resume(action) && !in_progress_spec(s, "rebasing"@) {
        Some(StepView::Say("no rebase in progress"@))
    } else {
        match action {
            TransientAction::RebaseUpstream => Some(
                match upstream_of(s) {
                    None => StepView::Say("no upstream configured"@),
                    Some(u) => rebase_onto_spec(u, args),
                },
            ),
            TransientAction::RebaseElsewhere => Some(
                if ans.len() == 0 {
                    StepView::Pick("Rebase onto"@, Source::RevsAtPoint)
                } else {
                    rebase_onto_spec(ans[0], args)
                },
            ),
            TransientAction::RebaseInteractive => Some(
                if ans.len() == 0 {
                    StepView::Pick("Interactive rebase onto"@, Source::RevsAtPoint)
                } else {
                    StepView::TodoEditor(ans[0], args)
                },
            ),
            TransientAction::RebaseContinue => Some(
                StepView::Editor("rebase continue"@, seq!["rebase"@, "--continue"@]),
            ),
            TransientAction::RebaseSkip => Some(StepView::Run("rebase skip"@, seq!["rebase"@, "--skip"@])),
            TransientAction::RebaseEditTodo => Some(StepView::EditTodo),
            TransientAction::RebaseAbort => Some(
                StepView::Confirm(
                    "Abort the rebase in progress?"@,
                    "abort rebase"@,
                    seq!["rebase"@, "--abort"@],
                ),
            ),
            _ => None,
        }
    }
}

fn rebase_onto(onto: &str, args: &Vec<String>) -> (r: Step)
    ensures
        r@ == rebase_onto_spec(onto@, string_views(args@)),
{
    if has_flag(args, "--interactive") {
        let mut flags: Vec<String> = Vec::new();
        push_all(&mut flags, args);
        assert(string_views(flags@) =~= string_views(args@));
        Step::TodoEditor { base: owned(onto), flags }
    } else {
        let cli = command(&["rebase"], args, onto);
        assert(str_views(["rebase"]@) =~= seq!["rebase"@]);
        Step::Run { desc: cat("rebase onto ", onto), args: cli }
    }
}

/// The rebase menu's actions.
pub fn rebase_action(
    action: TransientAction,
    args: &Vec<String>,
    answers: &Vec<String>,
    s: Option<&StatusSnapshot>,
) -> (r: Option<Step>)
    ensures
        opt_step(r) == rebase_spec(action, string_views(args@), string_views(answers@), s),
{
    let resume = match action {
        TransientAction::RebaseContinue | TransientAction::RebaseSkip | TransientAction::RebaseEditTodo
        | TransientAction::RebaseAbort => true,
        _ => false,
    };
    if resume && !in_progress(s, "rebasing") {
        return Some(Step::Say(owned("no rebase in progress")));
    }
    match action {
        TransientAction::RebaseUpstream => {
            let up = match s {
                Some(x) => match &x.branch.upstream {
                    Some(u) => u.as_str(),
                    None => {
                        return Some(Step::Say(owned("no upstream configured")));
                    },
                },
                None => {
                    return Some(Step::Say(owned("no upstream configured")));
                },
            };
            Some(rebase_onto(up, args))
        },
        TransientAction::RebaseElsewhere => {
            if answers.len() == 0 {
                return Some(Step::Pick { prompt: owned("Rebase onto"), source: Source::RevsAtPoint });
            }
            Some(rebase_onto(answers[0].as_str(), args))
        },
        TransientAction::RebaseInteractive => {
            if answers.len() == 0 {
                return Some(Step::Pick { prompt: owned("Interactive rebase onto"), source: Source::RevsAtPoint });
            }
            let mut flags: Vec<String> = Vec::new();
            push_all(&mut flags, args);
            assert(string_views(flags@) =~= string_views(args@));
            Some(Step::TodoEditor { base: answers[0].clone(), flags })
        },
        TransientAction::RebaseContinue => {
            let cli = words(&["rebase", "--continue"]);
            assert(str_views(["rebase", "--continue"]@) =~= seq!["rebase"@, "--continue"@]);
            Some(Step::Editor { desc: owned("rebase continue"), args: cli })
        },
        TransientAction::RebaseSkip => {
            let cli = words(&["rebase", "--skip"]);
            assert(str_views(["rebase", "--skip"]@) =~= seq!["rebase"@, "--skip"@]);
            Some(Step::Run { desc: owned("rebase skip"), args: cli })
        },
        TransientAction::RebaseEditTodo => Some(Step::EditTodo),
        TransientAction::RebaseAbort => {
            let cli = words(&["rebase", "--abort"]);
            assert(str_views(["rebase", "--abort"]@) =~= seq!["rebase"@, "--abort"@]);
            Some(
                Step::Confirm {
                    prompt: owned("Abort the rebase in progress?"),
                    desc: owned("abort rebase"),
                    args: cli,
                },
            )
        },
        _ => None,
    }
}

/// A picked revision applied with `base` and the flags; `--edit` among the
/// arguments stops for the message in $EDITOR.
pub open spec fn edit_or_run(desc: Seq<char>, cli: Seq<Seq<char>>) -> StepView {
    if cli.contains("--edit"@) {
        StepView::Editor(desc, cli)
    } else {
        StepView::Run(desc, cli)
    }
}

fn edit_or_run_step(desc: String, cli: Vec<String>) -> (r: Step)
    ensures
        r@ == edit_or_run(desc@, string_views(cli@)),
{
    if has_flag(&cli, "--edit") {
        Step::Editor { desc, args: cli }
    } else {
        Step::Run { desc, args: cli }
    }
}

pub open spec fn is_pick_resume(a: TransientAction) -> bool {
    a == TransientAction::CherryPickContinue || a == TransientAction::CherryPickSkip || a
        == TransientAction::CherryPickAbort
}

/// What a cherry-pick action does, given the switches and the answers so far.
pub open spec fn cherry_pick_spec(
    action: TransientAction,
    args: Seq<Seq<char>>,
    ans: Seq<Seq<char>>,
    s: Option<&StatusSnapshot>,
) -> Option<StepView> {
    if is_pick_resume(action) && !in_progress_spec(s, "cherry-picking"@) {
        Some(StepView::Say("no cherry-pick in progress"@))
    } else {
        match action {
            TransientAction::CherryPick => Some(
                if ans.len() == 0 {
                    StepView::Pick("Cherry-pick"@, Source::RevsAtPoint)
                } else {
                    edit_or_run("cherry-pick "@ + ans[0], seq!["cherry-pick"@] + args + seq![ans[0]])
                },
            ),
            TransientAction::CherryPickApply => Some(
                if ans.len() == 0 {
                    StepView::Pick("Apply changes from commit"@, Source::RevsAtPoint)
                } else {
                    StepView::Run(
                        "cherry-pick "@ + ans[0],
                        seq!["cherry-pick"@, "--no-commit"@] + without(args, "--ff"@, "--ff"@) + seq![ans[0]],
                    )
                },
            ),
            TransientAction::CherryPickContinue => Some(
                StepView::Editor("cherry-pick continue"@, seq!["cherry-pick"@, "--continue"@]),
            ),
            TransientAction::CherryPickSkip => Some(
                StepView::Run("cherry-pick skip"@, seq!["cherry-pick"@, "--skip"@]),
            ),
            TransientAction::CherryPickAbort => Some(
                StepView::Confirm(
                    "Abort the cherry-pick in progress?"@,
                    "abort cherry-pick"@,
                    seq!["cherry-pick"@, "--abort"@],
                ),
            ),
            _ => None,
        }
    }
}

/// The cherry-pick menu's actions.
pub fn cherry_pick_action(
    action: TransientAction,
    args: &Vec<String>,
    answers: &Vec<String>,
    s: Option<&StatusSnapshot>,
) -> (r: Option<Step>)
    ensures
        opt_step(r) == cherry_pick_spec(action, string_views(args@), string_views(answers@), s),
{
    let resume = match action {
        TransientAction::CherryPickContinue | TransientAction::CherryPickSkip
        | TransientAction::CherryPickAbort => true,
        _ => false,
    };
    if resume && !in_progress(s, "cherry-picking") {
        return Some(Step::Say(owned("no cherry-pick in progress")));
    }
    match action {
        TransientAction::CherryPick => {
            if answers.len() == 0 {
                return Some(Step::Pick { prompt: owned("Cherry-pick"), source: Source::RevsAtPoint });
            }
            let rev = answers[0].as_str();
            let cli = command(&["cherry-pick"], args, rev);
            assert(str_views(["cherry-pick"]@) =~= seq!["cherry-pick"@]);
            Some(edit_or_run_step(cat("cherry-pick ", rev), cli))
        },
        TransientAction::CherryPickApply => {
            if answers.len() == 0 {
                return Some(
                    Step::Pick { prompt: owned("Apply changes from commit"), source: Source::RevsAtPoint },
                );
            }
            let rev = answers[0].as_str();
            let mut cli = words(&["cherry-pick", "--no-commit"]);
            assert(str_views(["cherry-pick", "--no-commit"]@) =~= seq!["cherry-pick"@, "--no-commit"@]);
            push_without(&mut cli, args, "--ff", "--ff");
            push_arg(&mut cli, rev);
            assert(string_views(cli@) =~= seq!["cherry-pick"@, "--no-commit"@] + without(
                string_views(args@),
                "--ff"@,
                "--ff"@,
            ) + seq![rev@]);
            Some(Step::Run { desc: cat("cherry-pick ", rev), args: cli })
        },
        TransientAction::CherryPickContinue => {
            let cli = words(&["cherry-pick", "--continue"]);
            assert(str_views(["cherry-pick", "--continue"]@) =~= seq!["cherry-pick"@, "--continue"@]);
            Some(Step::Editor { desc: owned("cherry-pick continue"), args: cli })
        },
        TransientAction::CherryPickSkip => {
            let cli = words(&["cherry-pick", "--skip"]);
            assert(str_views(["cherry-pick", "--skip"]@) =~= seq!["cherry-pick"@, "--skip"@]);
            Some(Step::Run { desc: owned("cherry-pick skip"), args: cli })
        },
        TransientAction::CherryPickAbort => {
            let cli = words(&["cherry-pick", "--abort"]);
            assert(str_views(["cherry-pick", "--abort"]@) =~= seq!["cherry-pick"@, "--abort"@]);
            Some(
                Step::Confirm {
                    prompt: owned("Abort the cherry-pick in progress?"),
                    desc: owned("abort cherry-pick"),
                    args: cli,
                },
            )
        },
        _ => None,
    }
}

pub open spec fn is_revert_resume(a: TransientAction) -> bool {
    a == TransientAction::RevertContinue || a == TransientAction::RevertSkip || a == TransientAction::RevertAbort
}

/// What a revert action does, given the switches and the answers so far.
/// git stops for the message by default, so `--no-edit` is added unless
/// the switches already say either way.
pub open spec fn revert_spec(
    action: TransientAction,
    args: Seq<Seq<char>>,
    ans: Seq<Seq<char>>,
    s: Option<&StatusSnapshot>,
) -> Option<StepView> {
    if is_revert_resume(action) && !in_progress_spec(s, "reverting"@) {
        Some(StepView::Say("no revert in progress"@))
    } else {
        match action {
            TransientAction::Revert => Some(
                if ans.len() == 0 {
                    StepView::Pick("Revert commit"@, Source::RevsAtPoint)
                } else {
                    edit_or_run(
                        "revert "@ + ans[0],
                        seq!["revert"@] + crate::ops::flag_if(
                            !(args.contains("--edit"@) || args.contains("--no-edit"@)),
                            "--no-edit"@,
                        ) + args + seq![ans[0]],
                    )
                },
            ),
            TransientAction::RevertNoCommit => Some(
                if ans.len() == 0 {
                    StepView::Pick("Revert changes"@, Source::RevsAtPoint)
                } else {
                    StepView::Run(
                        "revert "@ + ans[0],
                        seq!["revert"@, "--no-commit"@] + without(args, "--edit"@, "--edit"@) + seq![ans[0]],
                    )
                },
            ),
            TransientAction::RevertContinue => Some(
                StepView::Editor("revert continue"@, seq!["revert"@, "--continue"@]),
            ),
            TransientAction::RevertSkip => Some(StepView::Run("revert skip"@, seq!["revert"@, "--skip"@])),
            TransientAction::RevertAbort => Some(
                StepView::Confirm(
                    "Abort the revert in progress?"@,
                    "abort revert"@,
                    seq!["revert"@, "--abort"@],
                ),
            ),
            _ => None,
        }
    }
}

/// The revert menu's actions.
pub fn revert_action(
    action: TransientAction,
    args: &Vec<String>,
    answers: &Vec<String>,
    s: Option<&StatusSnapshot>,
) -> (r: Option<Step>)
    ensures
        opt_step(r) == revert_spec(action, string_views(args@), string_views(answers@), s),
{
    let resume = match action {
        TransientAction::RevertContinue | TransientAction::RevertSkip | TransientAction::RevertAbort => true,
        _ => false,
    };
    if resume && !in_progress(s, "reverting") {
        return Some(Step::Say(owned("no revert in progress")));
    }
    match action {
        TransientAction::Revert => {
            if answers.len() == 0 {
                return Some(Step::Pick { prompt: owned("Revert commit"), source: Source::RevsAtPoint });
            }
            let rev = answers[0].as_str();
            let decided = has_flag(args, "--edit") || has_flag(args, "--no-edit");
            let mut cli = words(&["revert"]);
            assert(str_views(["revert"]@) =~= seq!["revert"@]);
            crate::ops::push_if(&mut cli, !decided, "--no-edit");
            push_all(&mut cli, args);
            push_arg(&mut cli, rev);
            assert(string_views(cli@) =~= seq!["revert"@] + crate::ops::flag_if(!decided, "--no-edit"@) + string_views(
                args@,
            ) + seq![rev@]);
            Some(edit_or_run_step(cat("revert ", rev), cli))
        },
        TransientAction::RevertNoCommit => {
            if answers.len() == 0 {
                return Some(Step::Pick { prompt: owned("Revert changes"), source: Source::RevsAtPoint });
            }
            let rev = answers[0].as_str();
            let mut cli = words(&["revert", "--no-commit"]);
            assert(str_views(["revert", "--no-commit"]@) =~= seq!["revert"@, "--no-commit"@]);
            push_without(&mut cli, args, "--edit", "--edit");
            push_arg(&mut cli, rev);
            assert(string_views(cli@) =~= seq!["revert"@, "--no-commit"@] + without(
                string_views(args@),
                "--edit"@,
                "--edit"@,
            ) + seq![rev@]);
            Some(Step::Run { desc: cat("revert ", rev), args: cli })
        },
        TransientAction::RevertContinue => {
            let cli = words(&["revert", "--continue"]);
            assert(str_views(["revert", "--continue"]@) =~= seq!["revert"@, "--continue"@]);
            Some(Step::Editor { desc: owned("revert continue"), args: cli })
        },
        TransientAction::RevertSkip => {
            let cli = words(&["revert", "--skip"]);
            assert(str_views(["revert", "--skip"]@) =~= seq!["revert"@, "--skip"@]);
            Some(Step::Run { desc: owned("revert skip"), args: cli })
        },
        TransientAction::RevertAbort => {
            let cli = words(&["revert", "--abort"]);
            assert(str_views(["revert", "--abort"]@) =~= seq!["revert"@, "--abort"@]);
            Some(
                Step::Confirm {
                    prompt: owned("Abort the revert in progress?"),
                    desc: owned("abort revert"),
                    args: cli,
                },
            )
        },
        _ => None,
    }
}

/// The picker prompt of a reset variant.
pub open spec fn reset_prompt(a: TransientAction) -> Option<Seq<char>> {
    match a {
        TransientAction::ResetMixed => Some("Reset (mixed) to"@),
        TransientAction::ResetSoft => Some("Reset (soft) to"@),
        TransientAction::ResetHard => Some("Reset (hard) to"@),
        TransientAction::ResetKeep => Some("Reset (keep) to"@),
        TransientAction::ResetIndex => Some("Reset index to"@),
        TransientAction::ResetWorktree => Some("Reset worktree to"@),
        _ => None,
    }
}

/// Resetting to `rev`; the variants that discard uncommitted changes (hard
/// and worktree) confirm first.
pub open spec fn reset_to_spec(a: TransientAction, rev: Seq<char>) -> StepView {
    match a {
        TransientAction::ResetSoft => StepView::Run("soft reset to "@ + rev, seq!["reset"@, "--soft"@, rev]),
        TransientAction::ResetKeep => StepView::Run("keep reset to "@ + rev, seq!["reset"@, "--keep"@, rev]),
        TransientAction::ResetIndex => StepView::Run(
            "reset index to "@ + rev,
            seq!["reset"@, rev, "--"@, ":/"@],
        ),
        TransientAction::ResetHard => StepView::Confirm(
            "Discard uncommitted changes and hard-reset to "@ + rev + "?"@,
            "hard reset to "@ + rev,
            seq!["reset"@, "--hard"@, rev],
        ),
        TransientAction::ResetWorktree => StepView::Confirm(
            "Discard worktree changes and reset files to "@ + rev + "?"@,
            "reset worktree to "@ + rev,
            seq!["restore"@, "--source"@, rev, "--worktree"@, "--"@, ":/"@],
        ),
        _ => StepView::Run("reset to "@ + rev, seq!["reset"@, "--mixed"@, rev]),
    }
}

/// What a reset action does, given the answers so far.
pub open spec fn reset_spec(action: TransientAction, ans: Seq<Seq<char>>) -> Option<StepView> {
    match reset_prompt(action) {
        None => None,
        Some(p) => Some(
            if ans.len() == 0 {
                StepView::Pick(p, Source::RevsAtPoint)
            } else {
                reset_to_spec(action, ans[0])
            },
        ),
    }
}

fn three_words(a: &str, b: &str, c: &str) -> (r: Vec<String>)
    ensures
        string_views(r@) == seq![a@, b@, c@],
{
    let mut v: Vec<String> = Vec::new();
    push_arg(&mut v, a);
    push_arg(&mut v, b);
    push_arg(&mut v, c);
    assert(string_views(v@) =~= seq![a@, b@, c@]);
    v
}

/// Moves HEAD, the index or the worktree to `rev`.
pub fn reset_to(action: TransientAction, rev: &str) -> (r: Step)
    ensures
        r@ == reset_to_spec(action, rev@),
{
    match action {
        TransientAction::ResetSoft => Step::Run { desc: cat("soft reset to ", rev), args: three_words("reset", "--soft", rev) },
        TransientAction::ResetKeep => Step::Run { desc: cat("keep reset to ", rev), args: three_words("reset", "--keep", rev) },
        TransientAction::ResetIndex => {
            let mut cli = three_words("reset", rev, "--");
            push_arg(&mut cli, ":/");
            assert(string_views(cli@) =~= seq!["reset"@, rev@, "--"@, ":/"@]);
            Step::Run { desc: cat("reset index to ", rev), args: cli }
        },
        TransientAction::ResetHard => Step::Confirm {
            prompt: cat3("Discard uncommitted changes and hard-reset to ", rev, "?"),
            desc: cat("hard reset to ", rev),
            args: three_words("reset", "--hard", rev),
        },
        TransientAction::ResetWorktree => {
            let mut cli = three_words("restore", "--source", rev);
            push_arg(&mut cli, "--worktree");
            push_arg(&mut cli, "--");
            push_arg(&mut cli, ":/");
            assert(string_views(cli@) =~= seq!["restore"@, "--source"@, rev@, "--worktree"@, "--"@, ":/"@]);
            Step::Confirm {
                prompt: cat3("Discard worktree changes and reset files to ", rev, "?"),
                desc: cat("reset worktree to ", rev),
                args: cli,
            }
        },
        _ => Step::Run { desc: cat("reset to ", rev), args: three_words("reset", "--mixed", rev) },
    }
}

/// The reset menu's actions.
pub fn reset_action(action: TransientAction, answers: &Vec<String>) -> (r: Option<Step>)
    ensures
        opt_step(r) == reset_spec(action, string_views(answers@)),
{
    let prompt = match action {
        TransientAction::ResetMixed => "Reset (mixed) to",
        TransientAction::ResetSoft => "Reset (soft) to",
        TransientAction::ResetHard => "Reset (hard) to",
        TransientAction::ResetKeep => "Reset (keep) to",
        TransientAction::ResetIndex => "Reset index to",
        TransientAction::ResetWorktree => "Reset worktree to",
        _ => {
            return None;
        },
    };
    if answers.len() == 0 {
        return Some(Step::Pick { prompt: owned(prompt), source: Source::RevsAtPoint });
    }
    Some(reset_to(action, answers[0].as_str()))
}

} // verus!
