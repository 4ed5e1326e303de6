//! The worktree and submodule menus. Worktree checkout/branch/move ask for
//! paths and branches before running; delete confirms first since it removes
//! a checked-out working tree. Submodule register/populate/update/sync run
//! on all submodules; unpopulate and remove pick one, and remove confirms
//! first. Each subcommand only receives the switches git accepts on it.

use vstd::prelude::*;

use crate::ops::{
    cat, cat3, cmds_view, flag_if, has_flag, opt_step, owned, push_arg, push_if, words, Source, Step,
    StepView,
};
use crate::session::{str_views, string_views};
use crate::ui::transient::TransientAction;

verus! {

/// What a worktree action does, given the switches and the answers so far.
pub open spec fn worktree_spec(action: TransientAction, args: Seq<Seq<char>>, ans: Seq<Seq<char>>) -> Option<
    StepView,
> {
    let force = flag_if(args.contains("--force"@), "--force"@);
    match action {
        TransientAction::WorktreeCheckout => Some(
            if ans.len() == 0 {
                StepView::Input("Create worktree at path"@)
            } else if ans.len() == 1 {
                StepView::Pick("Checkout branch in "@ + ans[0], Source::Branches)
            } else {
                StepView::Run(
                    "worktree "@ + ans[0] + " checkout "@ + ans[1],
                    seq!["worktree"@, "add"@] + force + seq![ans[0], ans[1]],
                )
            },
        ),
        TransientAction::WorktreeBranch => Some(
            if ans.len() == 0 {
                StepView::Input("New branch name"@)
            } else if ans.len() == 1 {
                StepView::Pick("Create branch "@ + ans[0] + " starting at"@, Source::RevsAtPoint)
            } else if ans.len() == 2 {
                StepView::Input("Create worktree at path"@)
            } else {
                StepView::Run(
                    "worktree "@ + ans[2] + " new branch "@ + ans[0],
                    seq!["worktree"@, "add"@] + force + seq!["-b"@, ans[0], ans[2], ans[1]],
                )
            },
        ),
        TransientAction::WorktreeMove => Some(
            if ans.len() == 0 {
                StepView::StrictPick("Move worktree"@, Source::LinkedWorktrees, "no linked worktrees"@)
            } else if ans.len() == 1 {
                StepView::Input("Move "@ + ans[0] + " to"@)
            } else {
                StepView::Run(
                    "move worktree "@ + ans[0] + " to "@ + ans[1],
                    seq!["worktree"@, "move"@] + force + seq![ans[0], ans[1]],
                )
            },
        ),
        TransientAction::WorktreeDelete => Some(
            if ans.len() == 0 {
                StepView::StrictPick("Delete worktree"@, Source::LinkedWorktrees, "no linked worktrees"@)
            } else {
                StepView::Confirm(
                    "Delete worktree "@ + ans[0] + "?"@,
                    "remove worktree "@ + ans[0],
                    seq!["worktree"@, "remove"@] + force + seq![ans[0]],
                )
            },
        ),
        _ => None,
    }
}

/// The worktree menu's actions.
pub fn worktree_action(action: TransientAction, args: &Vec<String>, answers: &Vec<String>) -> (r: Option<Step>)
    ensures
        opt_step(r) == worktree_spec(action, string_views(args@), string_views(answers@)),
{
    let force = has_flag(args, "--force");
    let ghost fl = flag_if(force, "--force"@);
    let ghost ans = string_views(answers@);
    let n = answers.len();
    match action {
        TransientAction::WorktreeCheckout => {
            if n == 0 {
                return Some(Step::Input { prompt: owned("Create worktree at path") });
            }
            let path = answers[0].as_str();
            if n == 1 {
                return Some(Step::Pick { prompt: cat("Checkout branch in ", path), source: Source::Branches });
            }
            let branch = answers[1].as_str();
            let mut cli = words(&["worktree", "add"]);
            assert(str_views(["worktree", "add"]@) =~= seq!["worktree"@, "add"@]);
            push_if(&mut cli, force, "--force");
            push_arg(&mut cli, path);
            push_arg(&mut cli, branch);
            assert(string_views(cli@) =~= seq!["worktree"@, "add"@] + fl + seq![ans[0], ans[1]]);
            let mut desc = cat("worktree ", path);
            crate::text::push_str(&mut desc, " checkout ");
            crate::text::push_str(&mut desc, branch);
            Some(Step::Run { desc, args: cli })
        },
        TransientAction::WorktreeBranch => {
            if n == 0 {
                return Some(Step::Input { prompt: owned("New branch name") });
            }
            let name = answers[0].as_str();
            if n == 1 {
                return Some(
                    Step::Pick { prompt: cat3("Create branch ", name, " starting at"), source: Source::RevsAtPoint },
                );
            }
            if n == 2 {
                return Some(Step::Input { prompt: owned("Create worktree at path") });
            }
            let start = answers[1].as_str();
            let path = answers[2].as_str();
            let mut cli = words(&["worktree", "add"]);
            assert(str_views(["worktree", "add"]@) =~= seq!["worktree"@, "add"@]);
            push_if(&mut cli, force, "--force");
            push_arg(&mut cli, "-b");
            push_arg(&mut cli, name);
            push_arg(&mut cli, path);
            push_arg(&mut cli, start);
            assert(string_views(cli@) =~= seq!["worktree"@, "add"@] + fl + seq!["-b"@, ans[0], ans[2], ans[1]]);
            let mut desc = cat("worktree ", path);
            crate::text::push_str(&mut desc, " new branch ");
            crate::text::push_str(&mut desc, name);
            Some(Step::Run { desc, args: cli })
        },
        TransientAction::WorktreeMove => {
            if n == 0 {
                return Some(
                    Step::StrictPick {
                        prompt: owned("Move worktree"),
                        source: Source::LinkedWorktrees,
                        empty: owned("no linked worktrees"),
                    },
                );
            }
            let path = answers[0].as_str();
            if n == 1 {
                return Some(Step::Input { prompt: cat3("Move ", path, " to") });
            }
            let dest = answers[1].as_str();
            let mut cli = words(&["worktree", "move"]);
            assert(str_views(["worktree", "move"]@) =~= seq!["worktree"@, "move"@]);
            push_if(&mut cli, force, "--force");
            push_arg(&mut cli, path);
            push_arg(&mut cli, dest);
            assert(string_views(cli@) =~= seq!["worktree"@, "move"@] + fl + seq![ans[0], ans[1]]);
            let mut desc = cat("move worktree ", path);
            crate::text::push_str(&mut desc, " to ");
            crate::text::push_str(&mut desc, dest);
            Some(Step::Run { desc, args: cli })
        },
        TransientAction::WorktreeDelete => {
            if n == 0 {
                return Some(
                    Step::StrictPick {
                        prompt: owned("Delete worktree"),
                        source: Source::LinkedWorktrees,
                        empty: owned("no linked worktrees"),
                    },
                );
            }
            let path = answers[0].as_str();
            let mut cli = words(&["worktree", "remove"]);
            assert(str_views(["worktree", "remove"]@) =~= seq!["worktree"@, "remove"@]);
            push_if(&mut cli, force, "--force");
            push_arg(&mut cli, path);
            assert(string_views(cli@) =~= seq!["worktree"@, "remove"@] + fl + seq![ans[0]]);
            Some(
                Step::Confirm {
                    prompt: cat3("Delete worktree ", path, "?"),
                    desc: cat("remove worktree ", path),
                    args: cli,
                },
            )
        },
        _ => None,
    }
}

/// What a submodule action does, given the switches and the answers so far.
pub open spec fn submodule_spec(action: TransientAction, args: Seq<Seq<char>>, ans: Seq<Seq<char>>) -> Option<
    StepView,
> {
    let force = flag_if(args.contains("--force"@), "--force"@);
    let recursive = flag_if(args.contains("--recursive"@), "--recursive"@);
    match action {
        TransientAction::SubmoduleAdd => Some(
            if ans.len() == 0 {
                StepView::Input("Submodule url"@)
            } else if ans.len() == 1 {
                StepView::Input("Submodule path (blank for default)"@)
            } else {
                StepView::Run(
                    "add submodule "@ + ans[0],
                    seq!["submodule"@, "add"@] + force + seq![ans[0]] + if ans[1].len() == 0 {
                        Seq::empty()
                    } else {
                        seq![ans[1]]
                    },
                )
            },
        ),
        TransientAction::SubmoduleRegister => Some(
            StepView::Run("register submodules"@, seq!["submodule"@, "init"@]),
        ),
        TransientAction::SubmodulePopulate => Some(
            StepView::Run(
                "populate submodules"@,
                seq!["submodule"@, "update"@, "--init"@] + recursive + force,
            ),
        ),
        TransientAction::SubmoduleUpdate => Some(
            StepView::Run(
                "update submodules"@,
                seq!["submodule"@, "update"@] + recursive + flag_if(args.contains("--no-fetch"@), "--no-fetch"@)
                    + force,
            ),
        ),
        TransientAction::SubmoduleSync => Some(
            StepView::Run("sync submodules"@, seq!["submodule"@, "sync"@] + recursive),
        ),
        TransientAction::SubmoduleUnpopulate => Some(
            if ans.len() == 0 {
                StepView::StrictPick("Unpopulate submodule"@, Source::Submodules, "no submodules"@)
            } else {
                StepView::Run(
                    "deinit submodule "@ + ans[0],
                    seq!["submodule"@, "deinit"@] + force + seq![ans[0]],
                )
            },
        ),
        TransientAction::SubmoduleRemove => Some(
            if ans.len() == 0 {
                StepView::StrictPick("Remove submodule"@, Source::Submodules, "no submodules"@)
            } else {
                StepView::ConfirmSeq(
                    "Remove submodule "@ + ans[0] + " and its working tree?"@,
                    "remove submodule "@ + ans[0],
                    seq![
                        seq!["submodule"@, "deinit"@, "--force"@, ans[0]],
                        seq!["rm"@, "--force"@, ans[0]],
                    ],
                )
            },
        ),
        _ => None,
    }
}

/// The submodule menu's actions.
pub fn submodule_action(action: TransientAction, args: &Vec<String>, answers: &Vec<String>) -> (r: Option<Step>)
    ensures
        opt_step(r) == submodule_spec(action, string_views(args@), string_views(answers@)),
{
    let force = has_flag(args, "--force");
    let recursive = has_flag(args, "--recursive");
    let ghost ans = string_views(answers@);
    let n = answers.len();
    match action {
        TransientAction::SubmoduleAdd => {
            if n == 0 {
                return Some(Step::Input { prompt: owned("Submodule url") });
            }
            if n == 1 {
                return Some(Step::Input { prompt: owned("Submodule path (blank for default)") });
            }
            let url = answers[0].as_str();
            let path = answers[1].as_str();
            let mut cli = words(&["submodule", "add"]);
            assert(str_views(["submodule", "add"]@) =~= seq!["submodule"@, "add"@]);
            push_if(&mut cli, force, "--force");
            push_arg(&mut cli, url);
            let ghost mid = string_views(cli@);
            let ghost fl = flag_if(force, "--force"@);
            assert(mid =~= seq!["submodule"@, "add"@] + fl + seq![ans[0]]);
            if !path.is_empty() {
                push_arg(&mut cli, path);
                assert(string_views(cli@) =~= mid + seq![ans[1]]);
                assert(string_views(cli@) =~= seq!["submodule"@, "add"@] + fl + seq![ans[0]] + seq![ans[1]]);
            } else {
                assert(ans[1].len() == 0);
                assert(string_views(cli@) =~= seq!["submodule"@, "add"@] + fl + seq![ans[0]] + Seq::<Seq<char>>::empty());
            }
            Some(Step::Run { desc: cat("add submodule ", url), args: cli })
        },
        TransientAction::SubmoduleRegister => {
            let cli = words(&["submodule", "init"]);
            assert(str_views(["submodule", "init"]@) =~= seq!["submodule"@, "init"@]);
            Some(Step::Run { desc: owned("register submodules"), args: cli })
        },
        TransientAction::SubmodulePopulate => {
            let mut cli = words(&["submodule", "update", "--init"]);
            assert(str_views(["submodule", "update", "--init"]@) =~= seq!["submodule"@, "update"@, "--init"@]);
            push_if(&mut cli, recursive, "--recursive");
            push_if(&mut cli, force, "--force");
            Some(Step::Run { desc: owned("populate submodules"), args: cli })
        },
        TransientAction::SubmoduleUpdate => {
            let no_fetch = has_flag(args, "--no-fetch");
            let mut cli = words(&["submodule", "update"]);
            assert(str_views(["submodule", "update"]@) =~= seq!["submodule"@, "update"@]);
            push_if(&mut cli, recursive, "--recursive");
            push_if(&mut cli, no_fetch, "--no-fetch");
            push_if(&mut cli, force, "--force");
            Some(Step::Run { desc: owned("update submodules"), args: cli })
        },
        TransientAction::SubmoduleSync => {
            let mut cli = words(&["submodule", "sync"]);
            assert(str_views(["submodule", "sync"]@) =~= seq!["submodule"@, "sync"@]);
            push_if(&mut cli, recursive, "--recursive");
            Some(Step::Run { desc: owned("sync submodules"), args: cli })
        },
        TransientAction::SubmoduleUnpopulate => {
            if n == 0 {
                return Some(
                    Step::StrictPick {
                        prompt: owned("Unpopulate submodule"),
                        source: Source::Submodules,
                        empty: owned("no submodules"),
                    },
                );
            }
            let path = answers[0].as_str();
            let mut cli = words(&["submodule", "deinit"]);
            assert(str_views(["submodule", "deinit"]@) =~= seq!["submodule"@, "deinit"@]);
            push_if(&mut cli, force, "--force");
            push_arg(&mut cli, path);
            assert(string_views(cli@) =~= seq!["submodule"@, "deinit"@] + flag_if(force, "--force"@) + seq![ans[0]]);
            Some(Step::Run { desc: cat("deinit submodule ", path), args: cli })
        },
        TransientAction::SubmoduleRemove => {
            if n == 0 {
                return Some(
                    Step::StrictPick {
                        prompt: owned("Remove submodule"),
                        source: Source::Submodules,
                        empty: owned("no submodules"),
                    },
                );
            }
            let path = answers[0].as_str();
            let mut deinit = words(&["submodule", "deinit", "--force"]);
            assert(str_views(["submodule", "deinit", "--force"]@) =~= seq!["submodule"@, "deinit"@, "--force"@]);
            push_arg(&mut deinit, path);
            assert(string_views(deinit@) =~= seq!["submodule"@, "deinit"@, "--force"@, ans[0]]);
            let mut rm = words(&["rm", "--force"]);
            assert(str_views(["rm", "--force"]@) =~= seq!["rm"@, "--force"@]);
            push_arg(&mut rm, path);
            assert(string_views(rm@) =~= seq!["rm"@, "--force"@, ans[0]]);
            let mut cmds: Vec<Vec<String>> = Vec::new();
            cmds.push(deinit);
            cmds.push(rm);
            assert(cmds_view(cmds@) =~= seq![
                seq!["submodule"@, "deinit"@, "--force"@, ans[0]],
                seq!["rm"@, "--force"@, ans[0]],
            ]);
            Some(
                Step::ConfirmSeq {
                    prompt: cat3("Remove submodule ", path, " and its working tree?"),
                    desc: cat("remove submodule ", path),
                    cmds,
                },
            )
        },
        _ => None,
    }
}

} // verus!
