//! The everyday menus: commit, fetch, the remote menu (add, rename, remove,
//! prune, configure), branch checkout and creation, tags, stashes and logs.
//! Commit and amend hand the terminal to $EDITOR; a tag that takes a message
//! does too. Dropping a stash confirms first, since the stash is lost.

use vstd::prelude::*;

use crate::git::types::StatusSnapshot;
use crate::ops::history::{branch_of, upstream_of};
use crate::ops::{
    cat, cat3, opt_step, owned, push_all, push_arg, push_without, without, words, Source, Step, StepView,
};
use crate::session::{str_views, string_views};
use crate::text::{chars_of, split_once, split_once_str, starts_with, starts_with_str, string_of};
use crate::ui::transient::TransientAction;

verus! {

/// `base` followed by the flags.
fn with_flags(base: &[&str], flags: &Vec<String>) -> (r: Vec<String>)
    ensures
        string_views(r@) == str_views(base@) + string_views(flags@),
{
    let mut v = words(base);
    push_all(&mut v, flags);
    v
}

/// What a commit action does with the menu's switches.
pub open spec fn commit_spec(action: TransientAction, args: Seq<Seq<char>>) -> Option<StepView> {
    match action {
        TransientAction::Commit => Some(StepView::Editor("commit"@, seq!["commit"@] + args)),
        TransientAction::CommitAmend => Some(StepView::Editor("amend"@, seq!["commit"@, "--amend"@] + args)),
        TransientAction::CommitExtend => Some(
            StepView::Run("extend commit"@, seq!["commit"@, "--amend"@, "--no-edit"@] + args),
        ),
        _ => None,
    }
}

/// The commit menu's actions: commit and amend stop in $EDITOR; extend
/// runs headless.
pub fn commit_action(action: TransientAction, args: &Vec<String>) -> (r: Option<Step>)
    ensures
        opt_step(r) == commit_spec(action, string_views(args@)),
{
    match action {
        TransientAction::Commit => {
            let cli = with_flags(&["commit"], args);
            assert(str_views(["commit"]@) =~= seq!["commit"@]);
            Some(Step::Editor { desc: owned("commit"), args: cli })
        },
        TransientAction::CommitAmend => {
            let cli = with_flags(&["commit", "--amend"], args);
            assert(str_views(["commit", "--amend"]@) =~= seq!["commit"@, "--amend"@]);
            Some(Step::Editor { desc: owned("amend"), args: cli })
        },
        TransientAction::CommitExtend => {
            let cli = with_flags(&["commit", "--amend", "--no-edit"], args);
            assert(str_views(["commit", "--amend", "--no-edit"]@) =~= seq!["commit"@, "--amend"@, "--no-edit"@]);
            Some(Step::Run { desc: owned("extend commit"), args: cli })
        },
        _ => None,
    }
}

/// What a push, pull or fetch action does, given the menu's switches and the
/// answers so far. Pushing, pulling and fetching against the upstream leave
/// the remote to git; the push-remote is `origin`; the others ask for the
/// remote (and a branch, tag or refspec where they need one).
pub open spec fn remote_spec(action: TransientAction, args: Seq<Seq<char>>, ans: Seq<Seq<char>>) -> Option<
    StepView,
> {
    match action {
        TransientAction::PushToUpstream => Some(StepView::Run("push"@, seq!["push"@] + args)),
        TransientAction::PushToPushRemote => Some(
            StepView::Run("push (set upstream)"@, seq!["push"@, "-u"@, "origin"@, "HEAD"@] + args),
        ),
        TransientAction::PushElsewhere => Some(
            if ans.len() == 0 {
                StepView::Pick("Push to"@, Source::Remotes)
            } else {
                StepView::Run("push to "@ + ans[0], seq!["push"@] + args + seq![ans[0], "HEAD"@])
            },
        ),
        TransientAction::PushOther => Some(
            if ans.len() == 0 {
                StepView::Pick("Push branch"@, Source::Branches)
            } else if ans.len() == 1 {
                StepView::Pick("Push "@ + ans[0] + " to"@, Source::Remotes)
            } else {
                StepView::Run("push "@ + ans[0] + " to "@ + ans[1], seq!["push"@] + args + seq![ans[1], ans[0]])
            },
        ),
        TransientAction::PushRefspecs => Some(
            if ans.len() == 0 {
                StepView::Pick("Push refspec to"@, Source::Remotes)
            } else if ans.len() == 1 {
                StepView::Input("Refspec"@)
            } else {
                StepView::Run("push "@ + ans[1] + " to "@ + ans[0], seq!["push"@] + args + seq![ans[0], ans[1]])
            },
        ),
        TransientAction::PushMatching => Some(
            if ans.len() == 0 {
                StepView::Pick("Push matching branches to"@, Source::Remotes)
            } else {
                StepView::Run("push matching to "@ + ans[0], seq!["push"@] + args + seq![ans[0], ":"@])
            },
        ),
        TransientAction::PushTag => Some(
            if ans.len() == 0 {
                StepView::Pick("Push tag"@, Source::Tags)
            } else if ans.len() == 1 {
                StepView::Pick("Push "@ + ans[0] + " to"@, Source::Remotes)
            } else {
                StepView::Run("push "@ + ans[0] + " to "@ + ans[1], seq!["push"@] + args + seq![ans[1], ans[0]])
            },
        ),
        TransientAction::PushTags => Some(
            if ans.len() == 0 {
                StepView::Pick("Push tags to"@, Source::Remotes)
            } else {
                StepView::Run("push tags to "@ + ans[0], seq!["push"@] + args + seq![ans[0], "--tags"@])
            },
        ),
        TransientAction::PullFromUpstream => Some(StepView::Run("pull"@, seq!["pull"@] + args)),
        TransientAction::PullFromPushRemote => Some(StepView::Run("pull origin"@, seq!["pull"@] + args + seq!["origin"@])),
        TransientAction::PullElsewhere => Some(
            if ans.len() == 0 {
                StepView::Pick("Pull from"@, Source::Remotes)
            } else if ans.len() == 1 {
                StepView::Input("Branch"@)
            } else {
                StepView::Run("pull "@ + ans[0] + " "@ + ans[1], seq!["pull"@] + args + seq![ans[0], ans[1]])
            },
        ),
        TransientAction::FetchFromUpstream => Some(StepView::Run("fetch"@, seq!["fetch"@] + args)),
        TransientAction::FetchFromPushRemote => Some(
            StepView::Run("fetch origin"@, seq!["fetch"@] + args + seq!["origin"@]),
        ),
        TransientAction::FetchElsewhere => Some(
            if ans.len() == 0 {
                StepView::Pick("Fetch from"@, Source::Remotes)
            } else {
                StepView::Run("fetch "@ + ans[0], seq!["fetch"@] + args + seq![ans[0]])
            },
        ),
        TransientAction::FetchAll => Some(StepView::Run("fetch --all"@, seq!["fetch"@, "--all"@] + args)),
        TransientAction::FetchBranch => Some(
            if ans.len() == 0 {
                StepView::Pick("Fetch branch from"@, Source::Remotes)
            } else if ans.len() == 1 {
                StepView::Input("Branch"@)
            } else {
                StepView::Run("fetch "@ + ans[0] + " "@ + ans[1], seq!["fetch"@] + args + seq![ans[0], ans[1]])
            },
        ),
        TransientAction::FetchRefspec => Some(
            if ans.len() == 0 {
                StepView::Pick("Fetch refspec from"@, Source::Remotes)
            } else if ans.len() == 1 {
                StepView::Input("Refspec"@)
            } else {
                StepView::Run("fetch "@ + ans[0] + " "@ + ans[1], seq!["fetch"@] + args + seq![ans[0], ans[1]])
            },
        ),
        _ => None,
    }
}

fn pick(prompt: &str, source: Source) -> (r: Step)
    ensures
        r@ == StepView::Pick(prompt@, source),
{
    Step::Pick { prompt: owned(prompt), source }
}

/// `a b c d` as one string.
fn cat4(a: &str, b: &str, c: &str, d: &str) -> (r: String)
    ensures
        r@ == a@ + b@ + c@ + d@,
{
    let mut o = cat3(a, b, c);
    crate::text::push_str(&mut o, d);
    o
}

/// `base`, the flags, then `x` and `y`.
fn flags_then(base: &[&str], args: &Vec<String>, x: &str, y: &str) -> (r: Vec<String>)
    ensures
        string_views(r@) == str_views(base@) + string_views(args@) + seq![x@, y@],
{
    let mut cli = with_flags(base, args);
    let ghost before = string_views(cli@);
    push_arg(&mut cli, x);
    push_arg(&mut cli, y);
    assert(string_views(cli@) =~= before + seq![x@, y@]);
    cli
}

/// `base`, the flags, then `x`.
fn flags_then1(base: &[&str], args: &Vec<String>, x: &str) -> (r: Vec<String>)
    ensures
        string_views(r@) == str_views(base@) + string_views(args@) + seq![x@],
{
    let mut cli = with_flags(base, args);
    let ghost before = string_views(cli@);
    push_arg(&mut cli, x);
    assert(string_views(cli@) =~= before + seq![x@]);
    cli
}

/// Push, pull and fetch run in the background; the ones that need a
/// remote, branch, tag or refspec ask for it first.
pub fn remote_action(action: TransientAction, args: &Vec<String>, answers: &Vec<String>) -> (r: Option<Step>)
    ensures
        opt_step(r) == remote_spec(action, string_views(args@), string_views(answers@)),
{
    let n = answers.len();
    let ghost a = string_views(args@);
    let ghost ans = string_views(answers@);
    proof {
        assert(str_views(["push"]@) =~= seq!["push"@]);
        assert(str_views(["pull"]@) =~= seq!["pull"@]);
        assert(str_views(["fetch"]@) =~= seq!["fetch"@]);
        assert(str_views(["fetch", "--all"]@) =~= seq!["fetch"@, "--all"@]);
        assert(str_views(["push", "-u", "origin", "HEAD"]@) =~= seq!["push"@, "-u"@, "origin"@, "HEAD"@]);
    }
    match action {
        TransientAction::PushToUpstream => Some(Step::Run { desc: owned("push"), args: with_flags(&["push"], args) }),
        TransientAction::PushToPushRemote => Some(
            Step::Run { desc: owned("push (set upstream)"), args: with_flags(&["push", "-u", "origin", "HEAD"], args) },
        ),
        TransientAction::PushElsewhere => {
            if n == 0 {
                return Some(pick("Push to", Source::Remotes));
            }
            let r = answers[0].as_str();
            Some(Step::Run { desc: cat("push to ", r), args: flags_then(&["push"], args, r, "HEAD") })
        },
        TransientAction::PushOther => {
            if n == 0 {
                return Some(pick("Push branch", Source::Branches));
            }
            let b = answers[0].as_str();
            if n == 1 {
                return Some(pick(cat3("Push ", b, " to").as_str(), Source::Remotes));
            }
            let r = answers[1].as_str();
            Some(Step::Run { desc: cat4("push ", b, " to ", r), args: flags_then(&["push"], args, r, b) })
        },
        TransientAction::PushRefspecs => {
            if n == 0 {
                return Some(pick("Push refspec to", Source::Remotes));
            }
            if n == 1 {
                return Some(Step::Input { prompt: owned("Refspec") });
            }
            let r = answers[0].as_str();
            let spec = answers[1].as_str();
            Some(Step::Run { desc: cat4("push ", spec, " to ", r), args: flags_then(&["push"], args, r, spec) })
        },
        TransientAction::PushMatching => {
            if n == 0 {
                return Some(pick("Push matching branches to", Source::Remotes));
            }
            let r = answers[0].as_str();
            Some(Step::Run { desc: cat("push matching to ", r), args: flags_then(&["push"], args, r, ":") })
        },
        TransientAction::PushTag => {
            if n == 0 {
                return Some(pick("Push tag", Source::Tags));
            }
            let tag = answers[0].as_str();
            if n == 1 {
                return Some(pick(cat3("Push ", tag, " to").as_str(), Source::Remotes));
            }
            let r = answers[1].as_str();
            Some(Step::Run { desc: cat4("push ", tag, " to ", r), args: flags_then(&["push"], args, r, tag) })
        },
        TransientAction::PushTags => {
            if n == 0 {
                return Some(pick("Push tags to", Source::Remotes));
            }
            let r = answers[0].as_str();
            Some(Step::Run { desc: cat("push tags to ", r), args: flags_then(&["push"], args, r, "--tags") })
        },
        TransientAction::PullFromUpstream => Some(Step::Run { desc: owned("pull"), args: with_flags(&["pull"], args) }),
        TransientAction::PullFromPushRemote => Some(
            Step::Run { desc: owned("pull origin"), args: flags_then1(&["pull"], args, "origin") },
        ),
        TransientAction::PullElsewhere => {
            if n == 0 {
                return Some(pick("Pull from", Source::Remotes));
            }
            if n == 1 {
                return Some(Step::Input { prompt: owned("Branch") });
            }
            let r = answers[0].as_str();
            let b = answers[1].as_str();
            Some(Step::Run { desc: cat4("pull ", r, " ", b), args: flags_then(&["pull"], args, r, b) })
        },
        TransientAction::FetchFromUpstream => Some(Step::Run { desc: owned("fetch"), args: with_flags(&["fetch"], args) }),
        TransientAction::FetchFromPushRemote => Some(
            Step::Run { desc: owned("fetch origin"), args: flags_then1(&["fetch"], args, "origin") },
        ),
        TransientAction::FetchElsewhere => {
            if n == 0 {
                return Some(pick("Fetch from", Source::Remotes));
            }
            let r = answers[0].as_str();
            Some(Step::Run { desc: cat("fetch ", r), args: flags_then1(&["fetch"], args, r) })
        },
        TransientAction::FetchAll => Some(
            Step::Run { desc: owned("fetch --all"), args: with_flags(&["fetch", "--all"], args) },
        ),
        TransientAction::FetchBranch => {
            if n == 0 {
                return Some(pick("Fetch branch from", Source::Remotes));
            }
            if n == 1 {
                return Some(Step::Input { prompt: owned("Branch") });
            }
            let r = answers[0].as_str();
            let b = answers[1].as_str();
            Some(Step::Run { desc: cat4("fetch ", r, " ", b), args: flags_then(&["fetch"], args, r, b) })
        },
        TransientAction::FetchRefspec => {
            if n == 0 {
                return Some(pick("Fetch refspec from", Source::Remotes));
            }
            if n == 1 {
                return Some(Step::Input { prompt: owned("Refspec") });
            }
            let r = answers[0].as_str();
            let spec = answers[1].as_str();
            Some(Step::Run { desc: cat4("fetch ", r, " ", spec), args: flags_then(&["fetch"], args, r, spec) })
        },
        _ => None,
    }
}

/// What a remote-menu action does, given the switches and the answers so far.
pub open spec fn remote_menu_spec(action: TransientAction, args: Seq<Seq<char>>, ans: Seq<Seq<char>>) -> Option<
    StepView,
> {
    match action {
        TransientAction::RemoteConfigure => Some(
            if ans.len() == 0 {
                StepView::StrictPick("Configure remote"@, Source::Remotes, "no remotes"@)
            } else {
                StepView::ConfigureRemote(ans[0])
            },
        ),
        TransientAction::RemoteAdd => Some(
            if ans.len() == 0 {
                StepView::Input("Remote name"@)
            } else if ans.len() == 1 {
                StepView::Input("Remote url"@)
            } else {
                StepView::Run("add remote "@ + ans[0], seq!["remote"@, "add"@] + args + seq![ans[0], ans[1]])
            },
        ),
        TransientAction::RemoteRename => Some(
            if ans.len() == 0 {
                StepView::StrictPick("Rename remote"@, Source::Remotes, "no remotes"@)
            } else if ans.len() == 1 {
                StepView::Input("Rename "@ + ans[0] + " to"@)
            } else {
                StepView::Run(
                    "rename remote "@ + ans[0] + " to "@ + ans[1],
                    seq!["remote"@, "rename"@, ans[0], ans[1]],
                )
            },
        ),
        TransientAction::RemoteRemove => Some(
            if ans.len() == 0 {
                StepView::StrictPick("Remove remote"@, Source::Remotes, "no remotes"@)
            } else {
                StepView::Run("remove remote "@ + ans[0], seq!["remote"@, "remove"@, ans[0]])
            },
        ),
        TransientAction::RemotePrune => Some(
            if ans.len() == 0 {
                StepView::StrictPick("Prune stale branches of remote"@, Source::Remotes, "no remotes"@)
            } else {
                StepView::Run("prune remote "@ + ans[0], seq!["remote"@, "prune"@, ans[0]])
            },
        ),
        _ => None,
    }
}

fn pick_remote(prompt: &str) -> (r: Step)
    ensures
        r@ == StepView::StrictPick(prompt@, Source::Remotes, "no remotes"@),
{
    Step::StrictPick { prompt: owned(prompt), source: Source::Remotes, empty: owned("no remotes") }
}

fn two(a: &str, b: &str) -> (r: Vec<String>)
    ensures
        string_views(r@) == seq![a@, b@],
{
    let mut v: Vec<String> = Vec::new();
    push_arg(&mut v, a);
    push_arg(&mut v, b);
    assert(string_views(v@) =~= seq![a@, b@]);
    v
}

fn three(a: &str, b: &str, c: &str) -> (r: Vec<String>)
    ensures
        string_views(r@) == seq![a@, b@, c@],
{
    let mut v = two(a, b);
    push_arg(&mut v, c);
    assert(string_views(v@) =~= seq![a@, b@, c@]);
    v
}

/// The remote menu's actions.
pub fn remote_menu_action(action: TransientAction, args: &Vec<String>, answers: &Vec<String>) -> (r: Option<
    Step,
>)
    ensures
        opt_step(r) == remote_menu_spec(action, string_views(args@), string_views(answers@)),
{
    let n = answers.len();
    let ghost ans = string_views(answers@);
    match action {
        TransientAction::RemoteConfigure => {
            if n == 0 {
                return Some(pick_remote("Configure remote"));
            }
            Some(Step::ConfigureRemote { remote: answers[0].clone() })
        },
        TransientAction::RemoteAdd => {
            if n == 0 {
                return Some(Step::Input { prompt: owned("Remote name") });
            }
            if n == 1 {
                return Some(Step::Input { prompt: owned("Remote url") });
            }
            let name = answers[0].as_str();
            let mut cli = with_flags(&["remote", "add"], args);
            assert(str_views(["remote", "add"]@) =~= seq!["remote"@, "add"@]);
            push_arg(&mut cli, name);
            push_arg(&mut cli, answers[1].as_str());
            assert(string_views(cli@) =~= seq!["remote"@, "add"@] + string_views(args@) + seq![ans[0], ans[1]]);
            Some(Step::Run { desc: cat("add remote ", name), args: cli })
        },
        TransientAction::RemoteRename => {
            if n == 0 {
                return Some(pick_remote("Rename remote"));
            }
            let old = answers[0].as_str();
            if n == 1 {
                return Some(Step::Input { prompt: cat3("Rename ", old, " to") });
            }
            let new = answers[1].as_str();
            let mut cli = two("remote", "rename");
            push_arg(&mut cli, old);
            push_arg(&mut cli, new);
            assert(string_views(cli@) =~= seq!["remote"@, "rename"@, ans[0], ans[1]]);
            let mut desc = cat("rename remote ", old);
            crate::text::push_str(&mut desc, " to ");
            crate::text::push_str(&mut desc, new);
            Some(Step::Run { desc, args: cli })
        },
        TransientAction::RemoteRemove => {
            if n == 0 {
                return Some(pick_remote("Remove remote"));
            }
            let remote = answers[0].as_str();
            Some(Step::Run { desc: cat("remove remote ", remote), args: three("remote", "remove", remote) })
        },
        TransientAction::RemotePrune => {
            if n == 0 {
                return Some(pick_remote("Prune stale branches of remote"));
            }
            let remote = answers[0].as_str();
            Some(Step::Run { desc: cat("prune remote ", remote), args: three("remote", "prune", remote) })
        },
        _ => None,
    }
}

/// What the other branch actions do, given the answers so far and the
/// current branch and its upstream: checking out a local branch, renaming,
/// resetting or deleting one, and spinning the unpushed commits off onto a
/// new branch (the old branch going back to its upstream, when it has one).
pub open spec fn branch_more_spec(action: TransientAction, ans: Seq<Seq<char>>, s: Option<&StatusSnapshot>) -> Option<
    StepView,
> {
    match action {
        TransientAction::CheckoutLocal => Some(
            if ans.len() == 0 {
                StepView::StrictPick("Checkout local branch"@, Source::LocalBranches, "no local branches"@)
            } else {
                StepView::Run("checkout "@ + ans[0], seq!["checkout"@, ans[0]])
            },
        ),
        TransientAction::BranchRename => Some(
            if ans.len() == 0 {
                StepView::StrictPick("Rename branch"@, Source::LocalBranches, "no local branches"@)
            } else if ans.len() == 1 {
                StepView::Input("Rename "@ + ans[0] + " to"@)
            } else {
                StepView::Run("rename branch "@ + ans[0] + " to "@ + ans[1], seq!["branch"@, "-m"@, ans[0], ans[1]])
            },
        ),
        TransientAction::BranchReset => Some(
            if ans.len() == 0 {
                StepView::StrictPick("Reset branch"@, Source::LocalBranches, "no local branches"@)
            } else if ans.len() == 1 {
                StepView::Pick("Reset "@ + ans[0] + " to"@, Source::RevsAtPoint)
            } else {
                StepView::Run("reset branch "@ + ans[0] + " to "@ + ans[1], seq!["branch"@, "-f"@, ans[0], ans[1]])
            },
        ),
        TransientAction::BranchDelete => Some(
            if ans.len() == 0 {
                StepView::StrictPick("Delete branch"@, Source::LocalBranches, "no local branches"@)
            } else {
                StepView::Run("delete branch "@ + ans[0], seq!["branch"@, "-d"@, ans[0]])
            },
        ),
        TransientAction::BranchSpinoff => Some(
            match branch_of(s) {
                None => StepView::Say("cannot spin off: not on a branch"@),
                Some(cur) => if ans.len() == 0 {
                    StepView::Input("Spin off branch"@)
                } else {
                    match upstream_of(s) {
                        Some(u) => StepView::RunSeq(
                            "spin off "@ + ans[0],
                            seq![seq!["checkout"@, "-b"@, ans[0]], seq!["branch"@, "-f"@, cur, u]],
                        ),
                        None => StepView::Run("spin off "@ + ans[0], seq!["checkout"@, "-b"@, ans[0]]),
                    }
                },
            },
        ),
        _ => None,
    }
}

fn strict_local(prompt: &str) -> (r: Step)
    ensures
        r@ == StepView::StrictPick(prompt@, Source::LocalBranches, "no local branches"@),
{
    Step::StrictPick { prompt: owned(prompt), source: Source::LocalBranches, empty: owned("no local branches") }
}

fn four(a: &str, b: &str, c: &str, d: &str) -> (r: Vec<String>)
    ensures
        string_views(r@) == seq![a@, b@, c@, d@],
{
    let mut v = three(a, b, c);
    push_arg(&mut v, d);
    assert(string_views(v@) =~= seq![a@, b@, c@, d@]);
    v
}

/// The branch actions beyond checkout and creation.
pub fn branch_more_action(action: TransientAction, answers: &Vec<String>, s: Option<&StatusSnapshot>) -> (r: Option<
    Step,
>)
    ensures
        opt_step(r) == branch_more_spec(action, string_views(answers@), s),
{
    let n = answers.len();
    match action {
        TransientAction::CheckoutLocal => {
            if n == 0 {
                return Some(strict_local("Checkout local branch"));
            }
            let b = answers[0].as_str();
            Some(Step::Run { desc: cat("checkout ", b), args: two("checkout", b) })
        },
        TransientAction::BranchRename => {
            if n == 0 {
                return Some(strict_local("Rename branch"));
            }
            let old = answers[0].as_str();
            if n == 1 {
                return Some(Step::Input { prompt: cat3("Rename ", old, " to") });
            }
            let new = answers[1].as_str();
            Some(Step::Run { desc: cat4("rename branch ", old, " to ", new), args: four("branch", "-m", old, new) })
        },
        TransientAction::BranchReset => {
            if n == 0 {
                return Some(strict_local("Reset branch"));
            }
            let b = answers[0].as_str();
            if n == 1 {
                return Some(pick(cat3("Reset ", b, " to").as_str(), Source::RevsAtPoint));
            }
            let rev = answers[1].as_str();
            Some(Step::Run { desc: cat4("reset branch ", b, " to ", rev), args: four("branch", "-f", b, rev) })
        },
        TransientAction::BranchDelete => {
            if n == 0 {
                return Some(strict_local("Delete branch"));
            }
            let b = answers[0].as_str();
            Some(Step::Run { desc: cat("delete branch ", b), args: three("branch", "-d", b) })
        },
        TransientAction::BranchSpinoff => {
            let cur = match s {
                Some(x) => match &x.branch.head {
                    Some(h) => h.as_str(),
                    None => {
                        return Some(Step::Say(owned("cannot spin off: not on a branch")));
                    },
                },
                None => {
                    return Some(Step::Say(owned("cannot spin off: not on a branch")));
                },
            };
            if n == 0 {
                return Some(Step::Input { prompt: owned("Spin off branch") });
            }
            let new = answers[0].as_str();
            let checkout = three("checkout", "-b", new);
            match s {
                Some(x) => match &x.branch.upstream {
                    Some(u) => {
                        let reset = four("branch", "-f", cur, u.as_str());
                        let mut cmds: Vec<Vec<String>> = Vec::new();
                        cmds.push(checkout);
                        cmds.push(reset);
                        assert(crate::ops::cmds_view(cmds@) =~= seq![
                            seq!["checkout"@, "-b"@, new@],
                            seq!["branch"@, "-f"@, cur@, u@],
                        ]);
                        Some(Step::RunSeq { desc: cat("spin off ", new), cmds })
                    },
                    None => Some(Step::Run { desc: cat("spin off ", new), args: checkout }),
                },
                None => Some(Step::Run { desc: cat("spin off ", new), args: checkout }),
            }
        },
        _ => None,
    }
}

/// What a branch action does, given the answers so far.
pub open spec fn branch_spec(action: TransientAction, ans: Seq<Seq<char>>) -> Option<StepView> {
    match action {
        TransientAction::Checkout => Some(
            if ans.len() == 0 {
                StepView::Pick("Checkout"@, Source::Branches)
            } else {
                StepView::Run("checkout "@ + ans[0], seq!["checkout"@, ans[0]])
            },
        ),
        TransientAction::CreateCheckoutBranch => Some(
            if ans.len() == 0 {
                StepView::Input("Create and checkout branch"@)
            } else {
                StepView::Run("create+checkout "@ + ans[0], seq!["checkout"@, "-b"@, ans[0]])
            },
        ),
        TransientAction::CreateBranch => Some(
            if ans.len() == 0 {
                StepView::Input("Create branch"@)
            } else {
                StepView::Run("create branch "@ + ans[0], seq!["branch"@, ans[0]])
            },
        ),
        _ => None,
    }
}

/// The branch menu's actions: checkout via a picker (git DWIMs local,
/// remote-tracking, tag or raw revision), creation via the minibuffer.
pub fn branch_action(action: TransientAction, answers: &Vec<String>) -> (r: Option<Step>)
    ensures
        opt_step(r) == branch_spec(action, string_views(answers@)),
{
    let n = answers.len();
    match action {
        TransientAction::Checkout => {
            if n == 0 {
                return Some(Step::Pick { prompt: owned("Checkout"), source: Source::Branches });
            }
            let rev = answers[0].as_str();
            Some(Step::Run { desc: cat("checkout ", rev), args: two("checkout", rev) })
        },
        TransientAction::CreateCheckoutBranch => {
            if n == 0 {
                return Some(Step::Input { prompt: owned("Create and checkout branch") });
            }
            let name = answers[0].as_str();
            Some(Step::Run { desc: cat("create+checkout ", name), args: three("checkout", "-b", name) })
        },
        TransientAction::CreateBranch => {
            if n == 0 {
                return Some(Step::Input { prompt: owned("Create branch") });
            }
            let name = answers[0].as_str();
            Some(Step::Run { desc: cat("create branch ", name), args: two("branch", name) })
        },
        _ => None,
    }
}

/// A tag that takes a message: annotated, signed, edited or signed as a
/// given user.
pub open spec fn needs_message(f: Seq<char>) -> bool {
    f == "--annotate"@ || f == "--sign"@ || f == "--edit"@ || starts_with(f, "--local-user="@)
}

/// What a tag action does, given the switches and the answers so far.
pub open spec fn tag_spec(action: TransientAction, args: Seq<Seq<char>>, ans: Seq<Seq<char>>) -> Option<
    StepView,
> {
    match action {
        TransientAction::TagCreate => Some(
            if ans.len() == 0 {
                StepView::Input("Tag name"@)
            } else if ans.len() == 1 {
                StepView::Pick("Place tag on"@, Source::RevsAtPoint)
            } else {
                let desc = "tag "@ + ans[0] + " at "@ + ans[1];
                let cli = seq!["tag"@] + args + seq![ans[0], ans[1]];
                if exists|i: int| 0 <= i < args.len() && #[trigger] needs_message(args[i]) {
                    StepView::Editor(desc, cli)
                } else {
                    StepView::Run(desc, cli)
                }
            },
        ),
        TransientAction::TagDelete => Some(
            if ans.len() == 0 {
                StepView::StrictPick("Delete tag"@, Source::Tags, "no tags"@)
            } else {
                StepView::Run("delete tag "@ + ans[0], seq!["tag"@, "-d"@, ans[0]])
            },
        ),
        _ => None,
    }
}

fn any_needs_message(args: &Vec<String>) -> (r: bool)
    ensures
        r == exists|i: int| 0 <= i < args@.len() && #[trigger] needs_message(string_views(args@)[i]),
{
    let annotate = owned("--annotate");
    let sign = owned("--sign");
    let edit = owned("--edit");
    let mut i: usize = 0;
    while i < args.len()
        invariant
            i <= args@.len(),
            annotate@ == "--annotate"@,
            sign@ == "--sign"@,
            edit@ == "--edit"@,
            forall|j: int| 0 <= j < i ==> !#[trigger] needs_message(string_views(args@)[j]),
        decreases args.len() - i,
    {
        let a = &args[i];
        let cs = chars_of(a.as_str());
        if *a == annotate || *a == sign || *a == edit || starts_with_str(&cs, "--local-user=") {
            assert(needs_message(string_views(args@)[i as int]));
            return true;
        }
        i += 1;
    }
    false
}

/// The tag menu's actions.
pub fn tag_action(action: TransientAction, args: &Vec<String>, answers: &Vec<String>) -> (r: Option<Step>)
    ensures
        opt_step(r) == tag_spec(action, string_views(args@), string_views(answers@)),
{
    let n = answers.len();
    let ghost ans = string_views(answers@);
    match action {
        TransientAction::TagCreate => {
            if n == 0 {
                return Some(Step::Input { prompt: owned("Tag name") });
            }
            if n == 1 {
                return Some(Step::Pick { prompt: owned("Place tag on"), source: Source::RevsAtPoint });
            }
            let name = answers[0].as_str();
            let rev = answers[1].as_str();
            let editor = any_needs_message(args);
            let mut cli = with_flags(&["tag"], args);
            assert(str_views(["tag"]@) =~= seq!["tag"@]);
            push_arg(&mut cli, name);
            push_arg(&mut cli, rev);
            assert(string_views(cli@) =~= seq!["tag"@] + string_views(args@) + seq![ans[0], ans[1]]);
            let mut desc = cat("tag ", name);
            crate::text::push_str(&mut desc, " at ");
            crate::text::push_str(&mut desc, rev);
            if editor {
                Some(Step::Editor { desc, args: cli })
            } else {
                Some(Step::Run { desc, args: cli })
            }
        },
        TransientAction::TagDelete => {
            if n == 0 {
                return Some(
                    Step::StrictPick { prompt: owned("Delete tag"), source: Source::Tags, empty: owned("no tags") },
                );
            }
            let tag = answers[0].as_str();
            Some(Step::Run { desc: cat("delete tag ", tag), args: three("tag", "-d", tag) })
        },
        _ => None,
    }
}

/// The stash a picker candidate ("stash@{N}: message") names: the part
/// before the first colon when it is a stash ref, else the whole answer.
pub open spec fn stash_ref(v: Seq<char>) -> Seq<char> {
    match split_once(v, ":"@) {
        Some((r, _)) => if starts_with(r, "stash@{"@) {
            r
        } else {
            v
        },
        None => v,
    }
}

pub fn stash_ref_of(v: &str) -> (r: String)
    ensures
        r@ == stash_ref(v@),
{
    let cs = chars_of(v);
    match split_once_str(&cs, ":") {
        Some((r, _)) => {
            if starts_with_str(&r, "stash@{") {
                string_of(&r)
            } else {
                owned(v)
            }
        },
        None => owned(v),
    }
}

/// What a stash action does, given the switches and the answers so far.
/// Untracked files are never staged, so stashing the index drops
/// `--include-untracked` and `--all`, which git rejects alongside `--staged`.
pub open spec fn stash_spec(action: TransientAction, args: Seq<Seq<char>>, ans: Seq<Seq<char>>) -> Option<
    StepView,
> {
    match action {
        TransientAction::StashBoth => Some(StepView::Run("stash"@, seq!["stash"@, "push"@] + args)),
        TransientAction::StashIndex => Some(
            StepView::Run(
                "stash index"@,
                seq!["stash"@, "push"@, "--staged"@] + without(args, "--include-untracked"@, "--all"@),
            ),
        ),
        TransientAction::StashKeepIndex => Some(
            StepView::Run("stash keeping index"@, seq!["stash"@, "push"@, "--keep-index"@] + args),
        ),
        TransientAction::StashApply => Some(
            if ans.len() == 0 {
                StepView::StrictPick("Apply stash"@, Source::Stashes, "no stashes"@)
            } else {
                StepView::Run(
                    "apply "@ + stash_ref(ans[0]),
                    seq!["stash"@, "apply"@, stash_ref(ans[0])],
                )
            },
        ),
        TransientAction::StashPop => Some(
            if ans.len() == 0 {
                StepView::StrictPick("Pop stash"@, Source::Stashes, "no stashes"@)
            } else {
                StepView::Run("pop "@ + stash_ref(ans[0]), seq!["stash"@, "pop"@, stash_ref(ans[0])])
            },
        ),
        TransientAction::StashDrop => Some(
            if ans.len() == 0 {
                StepView::StrictPick("Drop stash"@, Source::Stashes, "no stashes"@)
            } else {
                StepView::Confirm(
                    "Drop "@ + stash_ref(ans[0]) + "?"@,
                    "drop "@ + stash_ref(ans[0]),
                    seq!["stash"@, "drop"@, stash_ref(ans[0])],
                )
            },
        ),
        _ => None,
    }
}

/// Applying, popping and dropping act on the same chosen stash and differ
/// only in git's subcommand: applying runs `stash apply`, which leaves the
/// stash in the list (neither `pop` nor `drop`); popping runs `stash pop`;
/// dropping asks first, then runs `stash drop`. None of them passes the
/// menu's switches on.
pub proof fn law_stash_apply_keeps_the_stash(args: Seq<Seq<char>>, ans: Seq<Seq<char>>)
    requires
        ans.len() > 0,
    ensures
        ({
            let s = stash_ref(ans[0]);
            &&& stash_spec(TransientAction::StashApply, args, ans) matches Some(StepView::Run(_, c)) && c == seq![
                "stash"@,
                "apply"@,
                s,
            ] && c[1] != "pop"@ && c[1] != "drop"@
            &&& stash_spec(TransientAction::StashPop, args, ans) matches Some(StepView::Run(_, c)) && c == seq![
                "stash"@,
                "pop"@,
                s,
            ]
            &&& stash_spec(TransientAction::StashDrop, args, ans) matches Some(StepView::Confirm(_, _, c)) && c
                == seq!["stash"@, "drop"@, s]
        }),
{
    reveal_strlit("apply");
    reveal_strlit("pop");
    reveal_strlit("drop");
    assert("apply"@[0] != "pop"@[0] && "apply"@[0] != "drop"@[0]);
}

/// The stash menu's actions: push variants run at once; apply, pop and
/// drop pick a stash first.
pub fn stash_action(action: TransientAction, args: &Vec<String>, answers: &Vec<String>) -> (r: Option<Step>)
    ensures
        opt_step(r) == stash_spec(action, string_views(args@), string_views(answers@)),
{
    let prompt = match action {
        TransientAction::StashBoth => {
            let cli = with_flags(&["stash", "push"], args);
            assert(str_views(["stash", "push"]@) =~= seq!["stash"@, "push"@]);
            return Some(Step::Run { desc: owned("stash"), args: cli });
        },
        TransientAction::StashIndex => {
            let mut cli = words(&["stash", "push", "--staged"]);
            assert(str_views(["stash", "push", "--staged"]@) =~= seq!["stash"@, "push"@, "--staged"@]);
            push_without(&mut cli, args, "--include-untracked", "--all");
            return Some(Step::Run { desc: owned("stash index"), args: cli });
        },
        TransientAction::StashKeepIndex => {
            let cli = with_flags(&["stash", "push", "--keep-index"], args);
            assert(str_views(["stash", "push", "--keep-index"]@) =~= seq!["stash"@, "push"@, "--keep-index"@]);
            return Some(Step::Run { desc: owned("stash keeping index"), args: cli });
        },
        TransientAction::StashApply => "Apply stash",
        TransientAction::StashPop => "Pop stash",
        TransientAction::StashDrop => "Drop stash",
        _ => {
            return None;
        },
    };
    if answers.len() == 0 {
        return Some(Step::StrictPick { prompt: owned(prompt), source: Source::Stashes, empty: owned("no stashes") });
    }
    let stash = stash_ref_of(answers[0].as_str());
    let st = stash.as_str();
    match action {
        TransientAction::StashApply => Some(Step::Run { desc: cat("apply ", st), args: three("stash", "apply", st) }),
        TransientAction::StashPop => Some(Step::Run { desc: cat("pop ", st), args: three("stash", "pop", st) }),
        _ => Some(
            Step::Confirm { prompt: cat3("Drop ", st, "?"), desc: cat("drop ", st), args: three("stash", "drop", st) },
        ),
    }
}

/// What a log action does, given the switches and the answers so far: the
/// revision selector goes after the options.
pub open spec fn log_spec(
    action: TransientAction,
    args: Seq<Seq<char>>,
    ans: Seq<Seq<char>>,
    s: Option<&StatusSnapshot>,
) -> Option<StepView> {
    match action {
        TransientAction::LogCurrent => Some(
            StepView::Log(
                "Commits in "@ + match branch_of(s) {
                    Some(b) => b,
                    None => "HEAD"@,
                },
                args.push("HEAD"@),
            ),
        ),
        TransientAction::LogAll => Some(StepView::Log("Commits in all references"@, args.push("--all"@))),
        TransientAction::LogOther => Some(
            if ans.len() == 0 {
                StepView::Pick("Log"@, Source::Branches)
            } else {
                StepView::Log("Commits in "@ + ans[0], args.push(ans[0]))
            },
        ),
        _ => None,
    }
}

/// The log menu's actions.
pub fn log_action(action: TransientAction, args: &Vec<String>, answers: &Vec<String>, s: Option<&StatusSnapshot>) -> (r:
    Option<Step>)
    ensures
        opt_step(r) == log_spec(action, string_views(args@), string_views(answers@), s),
{
    let mut cli: Vec<String> = Vec::new();
    push_all(&mut cli, args);
    assert(string_views(cli@) =~= string_views(args@));
    match action {
        TransientAction::LogCurrent => {
            let name = match s {
                Some(x) => match &x.branch.head {
                    Some(h) => h.as_str(),
                    None => "HEAD",
                },
                None => "HEAD",
            };
            push_arg(&mut cli, "HEAD");
            Some(Step::Log { title: cat("Commits in ", name), args: cli })
        },
        TransientAction::LogAll => {
            push_arg(&mut cli, "--all");
            Some(Step::Log { title: owned("Commits in all references"), args: cli })
        },
        TransientAction::LogOther => {
            if answers.len() == 0 {
                return Some(Step::Pick { prompt: owned("Log"), source: Source::Branches });
            }
            let rev = answers[0].as_str();
            push_arg(&mut cli, rev);
            Some(Step::Log { title: cat("Commits in ", rev), args: cli })
        },
        _ => None,
    }
}

} // verus!
