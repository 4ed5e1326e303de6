//! What each transient action does once invoked. Many actions need answers
//! first (a name typed into the minibuffer, a revision picked from a list),
//! so every action is a flow: a function from the answers given so far to
//! the next step, which is either another question or the git command to
//! run. The application asks, appends the answer and calls the flow again.

use vstd::prelude::*;

use crate::session::{string_views, svec};
use crate::text::push_str;

pub mod candidates;
pub mod history;
pub mod invoke;
pub mod menus;
pub mod modules;
pub mod reads;
pub mod rebase_todo;

verus! {

/// Where a picker's candidates come from; the application lists them.
#[derive(Debug, Clone, Copy, PartialEq, Eq, Structural)]
pub enum Source {
    /// Local and remote-tracking branches.
    Branches,
    /// Local branches only.
    LocalBranches,
    /// Branches, with the commit at point first.
    RevsAtPoint,
    /// The stash list, with the stash at point first.
    Stashes,
    Tags,
    Remotes,
    Submodules,
    /// Linked worktrees (the main worktree excluded).
    LinkedWorktrees,
}

/// The next step of a flow.
#[derive(Debug)]
pub enum Step {
    /// Show a message; the flow is over.
    Say(String),
    /// Ask for free text.
    Input { prompt: String },
    /// Ask to pick a candidate (free text is accepted too).
    Pick { prompt: String, source: Source },
    /// Ask to pick a candidate; with none to offer, say `empty` instead.
    StrictPick { prompt: String, source: Source, empty: String },
    /// Run git in the background.
    Run { desc: String, args: Vec<String> },
    /// Run git in the background, one command after the other, stopping at
    /// the first failure.
    RunSeq { desc: String, cmds: Vec<Vec<String>> },
    /// Run git with the terminal handed over to $EDITOR.
    Editor { desc: String, args: Vec<String> },
    /// Ask y/n, then run git in the background.
    Confirm { prompt: String, desc: String, args: Vec<String> },
    /// Ask y/n, then run the commands in order, stopping at the first failure.
    ConfirmSeq { prompt: String, desc: String, cmds: Vec<Vec<String>> },
    /// Open a log buffer for `git log` with these revision arguments.
    Log { title: String, args: Vec<String> },
    /// Open the interactive-rebase todo editor for `base..HEAD`.
    TodoEditor { base: String, flags: Vec<String> },
    /// Edit the todo of the rebase in progress.
    EditTodo,
    /// Show what merging the revision would change.
    PreviewMerge { rev: String },
    /// Open the configuration menu of the remote.
    ConfigureRemote { remote: String },
}

/// A step as values.
pub enum StepView {
    Say(Seq<char>),
    Input(Seq<char>),
    Pick(Seq<char>, Source),
    StrictPick(Seq<char>, Source, Seq<char>),
    Run(Seq<char>, Seq<Seq<char>>),
    RunSeq(Seq<char>, Seq<Seq<Seq<char>>>),
    Editor(Seq<char>, Seq<Seq<char>>),
    Confirm(Seq<char>, Seq<char>, Seq<Seq<char>>),
    ConfirmSeq(Seq<char>, Seq<char>, Seq<Seq<Seq<char>>>),
    Log(Seq<char>, Seq<Seq<char>>),
    TodoEditor(Seq<char>, Seq<Seq<char>>),
    EditTodo,
    PreviewMerge(Seq<char>),
    ConfigureRemote(Seq<char>),
}

pub open spec fn cmds_view(c: Seq<Vec<String>>) -> Seq<Seq<Seq<char>>> {
    c.map_values(|v: Vec<String>| string_views(v@))
}

impl View for Step {
    type V = StepView;

    open spec fn view(&self) -> StepView {
        match self {
            Step::Say(m) => StepView::Say(m@),
            Step::Input { prompt } => StepView::Input(prompt@),
            Step::Pick { prompt, source } => StepView::Pick(prompt@, *source),
            Step::StrictPick { prompt, source, empty } => StepView::StrictPick(prompt@, *source, empty@),
            Step::Run { desc, args } => StepView::Run(desc@, string_views(args@)),
            Step::RunSeq { desc, cmds } => StepView::RunSeq(desc@, cmds_view(cmds@)),
            Step::Editor { desc, args } => StepView::Editor(desc@, string_views(args@)),
            Step::Confirm { prompt, desc, args } => StepView::Confirm(prompt@, desc@, string_views(args@)),
            Step::ConfirmSeq { prompt, desc, cmds } => StepView::ConfirmSeq(prompt@, desc@, cmds_view(cmds@)),
            Step::Log { title, args } => StepView::Log(title@, string_views(args@)),
            Step::TodoEditor { base, flags } => StepView::TodoEditor(base@, string_views(flags@)),
            Step::EditTodo => StepView::EditTodo,
            Step::PreviewMerge { rev } => StepView::PreviewMerge(rev@),
            Step::ConfigureRemote { remote } => StepView::ConfigureRemote(remote@),
        }
    }
}

pub open spec fn opt_step(o: Option<Step>) -> Option<StepView> {
    match o {
        Some(s) => Some(s@),
        None => None,
    }
}

/// `[f]` when `c` holds, else nothing.
pub open spec fn flag_if(c: bool, f: Seq<char>) -> Seq<Seq<char>> {
    if c {
        seq![f]
    } else {
        Seq::empty()
    }
}

/// The arguments without any equal to `f` or `g`, in order.
pub open spec fn without(s: Seq<Seq<char>>, f: Seq<char>, g: Seq<char>) -> Seq<Seq<char>>
    decreases s.len(),
{
    if s.len() == 0 {
        s
    } else {
        let rest = without(s.drop_last(), f, g);
        if s.last() == f || s.last() == g {
            rest
        } else {
            rest.push(s.last())
        }
    }
}

pub(crate) fn owned(s: &str) -> (r: String)
    ensures
        r@ == s@,
{
    let mut o = String::new();
    push_str(&mut o, s);
    assert(o@ =~= s@);
    o
}

pub(crate) fn cat(a: &str, b: &str) -> (r: String)
    ensures
        r@ == a@ + b@,
{
    let mut o = owned(a);
    push_str(&mut o, b);
    o
}

pub(crate) fn cat3(a: &str, b: &str, c: &str) -> (r: String)
    ensures
        r@ == a@ + b@ + c@,
{
    let mut o = cat(a, b);
    push_str(&mut o, c);
    o
}

/// Appends an owned copy of `s`.
pub(crate) fn push_arg(v: &mut Vec<String>, s: &str)
    ensures
        string_views(final(v)@) == string_views(old(v)@).push(s@),
{
    let ghost before = string_views(v@);
    v.push(owned(s));
    assert(string_views(v@) =~= before.push(s@));
}

/// Appends `f` when `c` holds.
pub(crate) fn push_if(v: &mut Vec<String>, c: bool, f: &str)
    ensures
        string_views(final(v)@) == string_views(old(v)@) + flag_if(c, f@),
{
    let ghost before = string_views(v@);
    if c {
        push_arg(v, f);
        assert(string_views(v@) =~= before + seq![f@]);
    } else {
        assert(string_views(v@) =~= before + Seq::<Seq<char>>::empty());
    }
}

/// Appends copies of all of `w`.
pub(crate) fn push_all(v: &mut Vec<String>, w: &Vec<String>)
    ensures
        string_views(final(v)@) == string_views(old(v)@) + string_views(w@),
{
    let ghost base = string_views(v@);
    let mut i: usize = 0;
    while i < w.len()
        invariant
            i <= w@.len(),
            string_views(v@) == base + string_views(w@).take(i as int),
        decreases w.len() - i,
    {
        let ghost before = string_views(v@);
        v.push(w[i].clone());
        assert(string_views(v@) =~= before.push(w@[i as int]@));
        assert(string_views(w@).take(i + 1) =~= string_views(w@).take(i as int).push(w@[i as int]@));
        i += 1;
    }
    assert(string_views(w@).take(i as int) =~= string_views(w@));
}

/// Appends copies of those of `w` that are neither `f` nor `g`.
pub(crate) fn push_without(v: &mut Vec<String>, w: &Vec<String>, f: &str, g: &str)
    ensures
        string_views(final(v)@) == string_views(old(v)@) + without(string_views(w@), f@, g@),
{
    let fs = owned(f);
    let gs = owned(g);
    let ghost base = string_views(v@);
    let mut i: usize = 0;
    assert(string_views(w@).take(0) =~= Seq::<Seq<char>>::empty());
    assert(base + Seq::<Seq<char>>::empty() =~= base);
    while i < w.len()
        invariant
            i <= w@.len(),
            fs@ == f@,
            gs@ == g@,
            string_views(v@) == base + without(string_views(w@).take(i as int), f@, g@),
        decreases w.len() - i,
    {
        let ghost before = string_views(v@);
        let ghost t = string_views(w@).take(i + 1);
        assert(t.drop_last() =~= string_views(w@).take(i as int));
        assert(t.last() == w@[i as int]@);
        if w[i] != fs && w[i] != gs {
            v.push(w[i].clone());
            assert(string_views(v@) =~= before.push(w@[i as int]@));
        }
        i += 1;
    }
    assert(string_views(w@).take(i as int) =~= string_views(w@));
}

/// Whether one of the arguments is `f`.
pub(crate) fn has_flag(args: &Vec<String>, f: &str) -> (r: bool)
    ensures
        r == string_views(args@).contains(f@),
{
    let fs = owned(f);
    let mut i: usize = 0;
    while i < args.len()
        invariant
            fs@ == f@,
            i <= args@.len(),
            forall|j: int| 0 <= j < i ==> args@[j]@ != f@,
        decreases args.len() - i,
    {
        if args[i] == fs {
            assert(string_views(args@)[i as int] == f@);
            return true;
        }
        i += 1;
    }
    assert forall|j: int| 0 <= j < string_views(args@).len() implies string_views(args@)[j] != f@ by {}
    false
}

/// Owned copies of the words.
pub(crate) fn words(a: &[&str]) -> (r: Vec<String>)
    ensures
        string_views(r@) == crate::session::str_views(a@),
{
    svec(a)
}

} // verus!
